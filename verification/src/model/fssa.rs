use vstd::prelude::*;

use crate::util::text::{str_eq, texts};

verus! {

/// The sides a mod is installed on: the server, the client, or both.
/// It is a set of two bits; at least one of them is set.
#[derive(Debug, Clone, Copy, PartialEq, Eq, Structural)]
pub struct ModSide(u8);

impl View for ModSide {
    type V = u8;

    closed spec fn view(&self) -> u8 {
        self.0
    }
}

/// The bit that a side name stands for.
pub open spec fn spec_side_bit(name: Seq<char>) -> Option<u8> {
    if name == "SERVER"@ {
        Some(1u8)
    } else if name == "CLIENT"@ {
        Some(2u8)
    } else {
        None
    }
}

/// The union of the bits of the names in `v`, read from the first to the
/// last; `None` as soon as one name is unknown.
pub open spec fn fold_side_bits(v: Seq<Seq<char>>) -> Option<u8>
    decreases v.len(),
{
    if v.len() == 0 {
        Some(0u8)
    } else {
        match (fold_side_bits(v.drop_last()), spec_side_bit(v.last())) {
            (Some(a), Some(b)) => Some(a | b),
            _ => None,
        }
    }
}

/// What a list of side names stands for: `None` for an empty list or one
/// with an unknown name, else the union of the bits of its names.
pub open spec fn spec_parse_sides(v: Seq<Seq<char>>) -> Option<u8> {
    if v.len() == 0 {
        None
    } else {
        fold_side_bits(v)
    }
}

/// The names that a side set is written as, server first.
pub open spec fn spec_side_names(bits: u8) -> Seq<Seq<char>> {
    if bits == 1 {
        seq!["SERVER"@]
    } else if bits == 2 {
        seq!["CLIENT"@]
    } else {
        seq!["SERVER"@, "CLIENT"@]
    }
}

impl ModSide {
    #[verifier::type_invariant]
    spec fn valid(self) -> bool {
        1 <= self.0 <= 3
    }

    /// The bits of this side set; there is always one or two of them.
    pub fn bits(&self) -> (r: u8)
        ensures
            r == self@,
            1 <= r <= 3,
    {
        proof {
            use_type_invariant(self);
        }
        self.0
    }

    const SERVER_BIT: u8 = 0b01;
    const CLIENT_BIT: u8 = 0b10;

    /// The server alone.
    pub fn server() -> (r: Self)
        ensures
            r@ == 1,
    {
        Self(Self::SERVER_BIT)
    }

    /// The client alone.
    pub fn client() -> (r: Self)
        ensures
            r@ == 2,
    {
        Self(Self::CLIENT_BIT)
    }

    /// Both the server and the client.
    pub fn both() -> (r: Self)
        ensures
            r@ == 3,
    {
        assert(0b01u8 | 0b10u8 == 3) by (bit_vector);
        Self(Self::SERVER_BIT | Self::CLIENT_BIT)
    }

    /// The bit that one side name stands for.
    pub fn parse_str(s: &str) -> (r: Option<u8>)
        ensures
            r == spec_side_bit(s@),
    {
        if str_eq(s, "SERVER") {
            Some(Self::SERVER_BIT)
        } else if str_eq(s, "CLIENT") {
            Some(Self::CLIENT_BIT)
        } else {
            None
        }
    }

    proof fn lemma_fold_none(v: Seq<Seq<char>>, i: int)
        requires
            0 <= i <= v.len(),
            fold_side_bits(v.subrange(0, i)) is None,
        ensures
            fold_side_bits(v) is None,
        decreases v.len() - i,
    {
        if i < v.len() {
            assert(v.subrange(0, i + 1).drop_last() =~= v.subrange(0, i));
            Self::lemma_fold_none(v, i + 1);
        } else {
            assert(v.subrange(0, i) =~= v);
        }
    }

    /// The union of the bits of a non-empty list of side names; `None` for
    /// an empty list or one that holds an unknown name.
    pub fn parse_arr(v: &[&str]) -> (r: Option<u8>)
        ensures
            r == spec_parse_sides(texts(v@)),
    {
        if v.len() == 0 {
            return None;
        }
        let ghost names = texts(v@);
        let mut r: u8 = 0;
        let mut i: usize = 0;
        assert(names.subrange(0, 0) =~= Seq::<Seq<char>>::empty());
        while i < v.len()
            invariant
                names == texts(v@),
                i <= v.len(),
                fold_side_bits(names.subrange(0, i as int)) == Some(r),
            decreases v.len() - i,
        {
            assert(names.subrange(0, i + 1).drop_last() =~= names.subrange(0, i as int));
            match Self::parse_str(v[i]) {
                Some(b) => {
                    r = r | b;
                },
                None => {
                    proof {
                        Self::lemma_fold_none(names, i + 1);
                    }
                    return None;
                },
            }
            i = i + 1;
        }
        assert(names.subrange(0, v.len() as int) =~= names);
        Some(r)
    }

    proof fn lemma_fold_range(v: Seq<Seq<char>>)
        ensures
            fold_side_bits(v) matches Some(b) ==> b <= 3 && (v.len() > 0 ==> b >= 1),
        decreases v.len(),
    {
        if v.len() > 0 {
            Self::lemma_fold_range(v.drop_last());
            if let (Some(a), Some(b)) = (fold_side_bits(v.drop_last()), spec_side_bit(v.last())) {
                assert(a <= 3 && 1 <= b <= 2 ==> 1 <= (a | b) <= 3) by (bit_vector);
            }
        }
    }

    /// The side set that a list of side names stands for, as the serialised
    /// form reads it back; `None` for an empty list or an unknown name.
    pub fn from_names(v: &[&str]) -> (r: Option<ModSide>)
        ensures
            match r {
                Some(side) => spec_parse_sides(texts(v@)) == Some(side@),
                None => spec_parse_sides(texts(v@)) is None,
            },
    {
        match Self::parse_arr(v) {
            Some(bits) => {
                proof {
                    Self::lemma_fold_range(texts(v@));
                }
                Some(ModSide(bits))
            },
            None => None,
        }
    }

    /// The names this side set is written as: `["SERVER"]`, `["CLIENT"]` or
    /// `["SERVER", "CLIENT"]`.
    pub fn names(&self) -> (r: Vec<&'static str>)
        ensures
            texts(r@) == spec_side_names(self@),
    {
        proof {
            use_type_invariant(self);
        }
        let r = if self.0 == Self::SERVER_BIT {
            vec!["SERVER"]
        } else if self.0 == Self::CLIENT_BIT {
            vec!["CLIENT"]
        } else {
            vec!["SERVER", "CLIENT"]
        };
        assert(texts(r@) =~= spec_side_names(self@));
        r
    }
}

/// One mod of the modpack: the sides it goes on, its file name and the URL
/// it is downloaded from.
#[derive(Debug, Clone)]
pub struct ModData {
    pub side: ModSide,
    pub name: String,
    pub download: String,
}

impl View for ModData {
    type V = (u8, Seq<char>, Seq<char>);

    open spec fn view(&self) -> (u8, Seq<char>, Seq<char>) {
        (self.side@, self.name@, self.download@)
    }
}

impl ModData {
    pub fn new(side: ModSide, name: String, download: String) -> (r: Self)
        ensures
            r@ == (side@, name@, download@),
    {
        ModData { side, name, download }
    }
}

/// What a modpack holds, as plain values.
pub ghost struct ModpackView {
    pub version: Seq<char>,
    pub mods: Seq<(u8, Seq<char>, Seq<char>)>,
    pub config: Seq<char>,
    pub datapacks: Seq<Seq<char>>,
}

/// The modpack that the server hands out: its version, its mods, where its
/// configuration is, and where its datapacks are.
#[derive(Debug, Clone)]
pub struct ModpackData {
    pub version: String,
    pub mods: Vec<ModData>,
    pub config: String,
    pub datapacks: Vec<String>,
}

impl View for ModpackData {
    type V = ModpackView;

    open spec fn view(&self) -> ModpackView {
        ModpackView {
            version: self.version@,
            mods: self.mods@.map_values(|m: ModData| m@),
            config: self.config@,
            datapacks: self.datapacks@.map_values(|d: String| d@),
        }
    }
}

impl ModpackData {
    pub fn new(version: String, mods: Vec<ModData>, config: String, datapacks: Vec<String>) -> (r:
        Self)
        ensures
            r.version == version,
            r.mods == mods,
            r.config == config,
            r.datapacks == datapacks,
    {
        ModpackData { version, mods, config, datapacks }
    }
}

/// The two side names differ.
proof fn lemma_names_differ()
    ensures
        "SERVER"@ != "CLIENT"@,
{
    reveal_strlit("SERVER");
    reveal_strlit("CLIENT");
    assert("SERVER"@[0] != "CLIENT"@[0]);
}

/// Writing a side set as names and reading the names back gives the same
/// side set.
pub proof fn lemma_side_names_round_trip(bits: u8)
    requires
        1 <= bits <= 3,
    ensures
        spec_parse_sides(spec_side_names(bits)) == Some(bits),
{
    lemma_names_differ();
    let v = spec_side_names(bits);
    let e = Seq::<Seq<char>>::empty();
    assert(fold_side_bits(e) == Some(0u8));
    if bits == 3 {
        let v1 = seq!["SERVER"@];
        assert(v.drop_last() =~= v1);
        assert(v1.drop_last() =~= e);
        assert(0u8 | 1u8 == 1u8 && (1u8 | 2u8) == 3u8) by (bit_vector);
        assert(fold_side_bits(v1) == Some(1u8));
        assert(fold_side_bits(v) == Some(3u8));
    } else if bits == 1 {
        assert(v.drop_last() =~= e);
        assert(0u8 | 1u8 == 1u8) by (bit_vector);
    } else {
        assert(v.drop_last() =~= e);
        assert(0u8 | 2u8 == 2u8) by (bit_vector);
    }
}

/// A list of side names marks the server exactly when it names `SERVER`, and
/// the client exactly when it names `CLIENT`, in whatever order and however
/// often the names come.
pub proof fn lemma_sides_named(v: Seq<Seq<char>>)
    ensures
        fold_side_bits(v) matches Some(b) ==> {
            &&& (b & 1 != 0 <==> v.contains("SERVER"@))
            &&& (b & 2 != 0 <==> v.contains("CLIENT"@))
            &&& b <= 3
        },
    decreases v.len(),
{
    lemma_names_differ();
    if v.len() == 0 {
        assert(0u8 & 1 == 0 && 0u8 & 2 == 0) by (bit_vector);
    } else {
        let w = v.drop_last();
        lemma_sides_named(w);
        assert(v =~= w.push(v.last()));
        assert forall|x: Seq<char>| v.contains(x) <==> (w.contains(x) || x == v.last()) by {
            if v.contains(x) {
                let i = choose|i: int| 0 <= i < v.len() && v[i] == x;
                if i < w.len() {
                    assert(w[i] == x);
                }
            }
            if w.contains(x) {
                let i = choose|i: int| 0 <= i < w.len() && w[i] == x;
                assert(v[i] == x);
            }
            if x == v.last() {
                assert(v[v.len() - 1] == x);
            }
        }
        if let (Some(a), Some(c)) = (fold_side_bits(w), spec_side_bit(v.last())) {
            assert(a <= 3 && (c == 1 || c == 2) ==> {
                &&& ((a | c) & 1 != 0 <==> (a & 1 != 0 || c == 1))
                &&& ((a | c) & 2 != 0 <==> (a & 2 != 0 || c == 2))
                &&& (a | c) <= 3
            }) by (bit_vector);
        }
    }
}

} // verus!
