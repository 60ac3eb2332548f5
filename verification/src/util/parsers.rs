use std::collections::HashMap;
use std::hash::Hash;

use vstd::prelude::*;
use vstd::multiset::Multiset;
use vstd::std_specs::hash::obeys_key_model;

use crate::util::text::str_eq;

verus! {

broadcast use {
    vstd::std_specs::hash::group_hash_axioms,
    vstd::seq_lib::group_to_multiset_ensures,
    vstd::multiset::group_multiset_properties,
};

/// How many times each item occurs in `items`: a map from each item that
/// occurs to its number of occurrences.
pub fn count_map<T: Eq + Hash>(items: Vec<T>) -> (r: HashMap<T, usize>)
    requires
        obeys_key_model::<T>(),
    ensures
        forall|k: T| #[trigger] r@.contains_key(k) <==> items@.contains(k),
        forall|k: T| r@.contains_key(k) ==> #[trigger] r@[k] == items@.to_multiset().count(k),
{
    let ghost orig = items@;
    let n = items.len();
    assert(orig.len() == n);
    let mut items = items;
    let mut m: HashMap<T, usize> = HashMap::new();
    let ghost mut seen: Seq<T> = Seq::empty();
    assert(items@.to_multiset().add(seen.to_multiset()) =~= orig.to_multiset());
    while items.len() > 0
        invariant
            obeys_key_model::<T>(),
            orig.len() <= usize::MAX,
            items@.len() + seen.len() == orig.len(),
            items@.to_multiset().add(seen.to_multiset()) == orig.to_multiset(),
            forall|k: T| #[trigger] m@.contains_key(k) <==> seen.contains(k),
            forall|k: T|
                m@.contains_key(k) ==> #[trigger] m@[k] == seen.to_multiset().count(k) && m@[k]
                    <= seen.len(),
        decreases items@.len(),
    {
        let ghost before = items@;
        let k = items.pop().unwrap();
        let cur: usize = match m.get(&k) {
            Some(v) => *v,
            None => 0,
        };
        proof {
            assert(before =~= items@.push(k));
            if !m@.contains_key(k) {
                assert(!seen.contains(k));
                assert(seen.to_multiset().count(k) == 0);
            }
        }
        let ghost old_seen = seen;
        proof {
            seen = seen.push(k);
            assert(items@.to_multiset().add(seen.to_multiset()) =~= orig.to_multiset());
            assert forall|x: T| seen.contains(x) <==> (old_seen.contains(x) || x == k) by {
                if seen.contains(x) {
                    let i = choose|i: int| 0 <= i < seen.len() && seen[i] == x;
                    if i < old_seen.len() {
                        assert(old_seen[i] == x);
                    }
                }
                if old_seen.contains(x) {
                    let i = choose|i: int| 0 <= i < old_seen.len() && old_seen[i] == x;
                    assert(seen[i] == x);
                }
                if x == k {
                    assert(seen[seen.len() - 1] == x);
                }
            }
        }
        m.insert(k, cur + 1);
    }
    proof {
        assert(items@.to_multiset() =~= Multiset::empty());
        assert(seen.to_multiset() =~= orig.to_multiset());
    }
    assert forall|k: T| m@.contains_key(k) <==> orig.contains(k) by {
        assert(m@.contains_key(k) <==> seen.contains(k));
        assert(seen.contains(k) <==> seen.to_multiset().count(k) > 0);
        assert(orig.contains(k) <==> orig.to_multiset().count(k) > 0);
        assert(seen.to_multiset().count(k) == orig.to_multiset().count(k));
    }
    m
}

/// The texts of a list of strings.
pub open spec fn string_texts(items: Seq<String>) -> Seq<Seq<char>> {
    items.map_values(|s: String| s@)
}

/// How many times `t` occurs in `items`.
pub open spec fn occurrences(items: Seq<Seq<char>>, t: Seq<char>) -> nat
    decreases items.len(),
{
    if items.len() == 0 {
        0
    } else {
        occurrences(items.drop_last(), t) + if items.last() == t {
            1nat
        } else {
            0nat
        }
    }
}

/// Some entry of `counts` is for the text `t`.
pub open spec fn listed(counts: Seq<(String, usize)>, t: Seq<char>) -> bool {
    exists|j: int| 0 <= j < counts.len() && #[trigger] counts[j].0@ == t
}

/// How many times each text occurs in `items`, as a list of distinct texts,
/// each with its number of occurrences: every text of `items` is listed,
/// once, and nothing else is.
pub fn count_strings(items: &Vec<String>) -> (r: Vec<(String, usize)>)
    ensures
        forall|j: int|
            0 <= j < r@.len() ==> #[trigger] r@[j].1 == occurrences(string_texts(items@), r@[j].0@)
                && r@[j].1 >= 1,
        forall|j: int, k: int| 0 <= j < k < r@.len() ==> r@[j].0@ != r@[k].0@,
        forall|i: int| 0 <= i < items@.len() ==> listed(r@, #[trigger] items@[i]@),
        forall|t: Seq<char>| #[trigger] occurrences(string_texts(items@), t) > 0 ==> listed(r@, t),
{
    let ghost all = string_texts(items@);
    let mut r: Vec<(String, usize)> = Vec::new();
    let mut i: usize = 0;
    while i < items.len()
        invariant
            all == string_texts(items@),
            i <= items@.len(),
            forall|j: int|
                0 <= j < r@.len() ==> #[trigger] r@[j].1 == occurrences(
                    all.subrange(0, i as int),
                    r@[j].0@,
                ) && r@[j].1 >= 1 && r@[j].1 <= i,
            forall|j: int, k: int| 0 <= j < k < r@.len() ==> r@[j].0@ != r@[k].0@,
            forall|k: int| 0 <= k < i ==> listed(r@, #[trigger] items@[k]@),
            forall|t: Seq<char>|
                #[trigger] occurrences(all.subrange(0, i as int), t) > 0 ==> listed(r@, t),
        decreases items@.len() - i,
    {
        let ghost p = all.subrange(0, i as int);
        let ghost p2 = all.subrange(0, i + 1);
        let t = items[i].as_str();
        proof {
            assert(p2.drop_last() =~= p);
            assert(p2.last() == t@);
        }
        let mut j: usize = 0;
        let mut found = false;
        while j < r.len()
            invariant_except_break
                !found,
            invariant
                j <= r@.len(),
                forall|k: int| 0 <= k < j ==> r@[k].0@ != t@,
            ensures
                found ==> j < r@.len() && r@[j as int].0@ == t@,
                !found ==> j == r@.len(),
            decreases r@.len() - j,
        {
            if str_eq(r[j].0.as_str(), t) {
                found = true;
                break;
            }
            j = j + 1;
        }
        let ghost before = r@;
        if found {
            let c = r[j].1;
            let name = r[j].0.clone();
            r.set(j, (name, c + 1));
            proof {
                assert forall|k: int| 0 <= k < r@.len() implies #[trigger] r@[k].1 == occurrences(
                    p2,
                    r@[k].0@,
                ) && r@[k].1 >= 1 && r@[k].1 <= i + 1 by {
                    assert(occurrences(p2, r@[k].0@) == occurrences(p, r@[k].0@) + if t@
                        == r@[k].0@ {
                        1nat
                    } else {
                        0nat
                    });
                    if k != j {
                        assert(r@[k] == before[k]);
                    }
                }
                assert(listed(r@, t@)) by {
                    assert(r@[j as int].0@ == t@);
                }
            }
        } else {
            proof {
                assert(!listed(r@, t@)) by {
                    if listed(r@, t@) {
                        let k = choose|k: int| 0 <= k < r@.len() && #[trigger] r@[k].0@ == t@;
                        assert(j == r@.len());
                    }
                }
                assert(occurrences(p, t@) == 0);
            }
            r.push((items[i].clone(), 1));
            proof {
                assert forall|k: int| 0 <= k < r@.len() implies #[trigger] r@[k].1 == occurrences(
                    p2,
                    r@[k].0@,
                ) && r@[k].1 >= 1 && r@[k].1 <= i + 1 by {
                    assert(occurrences(p2, r@[k].0@) == occurrences(p, r@[k].0@) + if t@
                        == r@[k].0@ {
                        1nat
                    } else {
                        0nat
                    });
                    if k < before.len() {
                        assert(r@[k] == before[k]);
                    }
                }
                assert(listed(r@, t@)) by {
                    assert(r@[before.len() as int].0@ == t@);
                }
            }
        }
        proof {
            assert forall|j1: int| 0 <= j1 < before.len() implies #[trigger] r@[j1].0@
                == before[j1].0@ by {}
            assert forall|u: Seq<char>| listed(before, u) implies listed(r@, u) by {
                let k = choose|k: int| 0 <= k < before.len() && #[trigger] before[k].0@ == u;
                assert(r@[k].0@ == u);
            }
            assert forall|k: int| 0 <= k < i + 1 implies listed(r@, #[trigger] items@[k]@) by {
                if k < i {
                    assert(listed(before, items@[k]@));
                } else {
                    assert(items@[k]@ == t@);
                }
            }
            assert forall|u: Seq<char>| #[trigger] occurrences(p2, u) > 0 implies listed(r@, u) by {
                assert(occurrences(p2, u) == occurrences(p, u) + if t@ == u {
                    1nat
                } else {
                    0nat
                });
                if u != t@ {
                    assert(occurrences(p, u) > 0);
                    assert(listed(before, u));
                }
            }
        }
        i = i + 1;
    }
    proof {
        assert(all.subrange(0, items@.len() as int) =~= all);
    }
    r
}

} // verus!
