use vstd::prelude::*;
use vstd::string::StrSliceExecFns;
use vstd::string::StringSliceAdditionalSpecFns;
use vstd::utf8::*;

verus! {

/// `s` holds the character `c`.
pub open spec fn has_char(s: Seq<char>, c: char) -> bool {
    exists|i: int| 0 <= i < s.len() && s[i] == c
}

/// `s` holds two dots in a row.
pub open spec fn has_double_dot(s: Seq<char>) -> bool {
    exists|i: int| #![trigger s[i]] 0 <= i && i + 1 < s.len() && s[i] == '.' && s[i + 1] == '.'
}

/// A plain file name: no separator, no drive colon and no `..`.
pub open spec fn spec_is_filename(s: Seq<char>) -> bool {
    &&& !has_char(s, '/')
    &&& !has_char(s, '\\')
    &&& !has_char(s, ':')
    &&& !has_double_dot(s)
}

/// Whether `s` can be used as a single file name inside a directory:
/// it holds none of `/`, `\`, `:` and `..`.
pub fn is_filename(s: &str) -> (r: bool)
    ensures
        r == spec_is_filename(s@),
        r <==> (forall|j: int|
            0 <= j < s@.len() ==> s@[j] != '/' && s@[j] != '\\' && s@[j] != ':') && (forall|j: int|
            #![trigger s@[j]]
            0 <= j && j + 1 < s@.len() ==> !(s@[j] == '.' && s@[j + 1] == '.')),
{
    proof {
        lemma_filename_conditions(s@);
    }
    let n = s.unicode_len();
    let mut i: usize = 0;
    while i < n
        invariant
            n == s@.len(),
            i <= n,
            forall|j: int| 0 <= j < i ==> s@[j] != '/' && s@[j] != '\\' && s@[j] != ':',
            forall|j: int| #![trigger s@[j]] 0 <= j < i && j + 1 < n ==> !(s@[j] == '.' && s@[j + 1] == '.'),
        decreases n - i,
    {
        let c = s.get_char(i);
        if c == '/' || c == '\\' || c == ':' {
            return false;
        }
        if c == '.' && i + 1 < n && s.get_char(i + 1) == '.' {
            return false;
        }
        i = i + 1;
    }
    true
}


/// A text is a plain file name exactly when none of its characters is `/`,
/// `\`, or `:`, and no two characters in a row are both `.`.
pub proof fn lemma_filename_conditions(s: Seq<char>)
    ensures
        spec_is_filename(s) <==> (forall|j: int|
            0 <= j < s.len() ==> s[j] != '/' && s[j] != '\\' && s[j] != ':') && (forall|j: int|
            #![trigger s[j]]
            0 <= j && j + 1 < s.len() ==> !(s[j] == '.' && s[j + 1] == '.')),
{
    if (forall|j: int| 0 <= j < s.len() ==> s[j] != '/' && s[j] != '\\' && s[j] != ':') {
        assert(!has_char(s, '/'));
        assert(!has_char(s, '\\'));
        assert(!has_char(s, ':'));
    }
}

/// Index of the last `.` in `s`, or -1 when there is none.
pub open spec fn last_dot(s: Seq<char>) -> int
    decreases s.len(),
{
    if s.len() == 0 {
        -1
    } else if s.last() == '.' {
        s.len() - 1
    } else {
        last_dot(s.drop_last())
    }
}

/// Byte offset at which the extension of `s` is cut: the number of bytes of
/// `s` less the number of characters from its last dot to its end.
pub open spec fn extension_cut(s: Seq<char>) -> int {
    encode_utf8(s).len() - (s.len() - last_dot(s))
}

/// `get_extension` is defined on `s`: either `s` has no dot, or the byte
/// offset it cuts at falls on a character boundary.
pub open spec fn extension_defined(s: Seq<char>) -> bool {
    last_dot(s) < 0 || is_char_boundary(encode_utf8(s), extension_cut(s))
}

/// What `get_extension` returns for `s`: the text from byte `extension_cut(s)`
/// to the end, when `s` holds a dot.
pub open spec fn spec_extension(s: Seq<char>) -> Option<Seq<char>> {
    if last_dot(s) < 0 {
        None
    } else {
        Some(decode_utf8(encode_utf8(s).subrange(extension_cut(s), encode_utf8(s).len() as int)))
    }
}

proof fn lemma_last_dot(s: Seq<char>, k: int)
    requires
        -1 <= k < s.len(),
        k >= 0 ==> s[k] == '.',
        forall|j: int| k < j < s.len() ==> s[j] != '.',
    ensures
        last_dot(s) == k,
    decreases s.len(),
{
    if s.len() > 0 && s.last() != '.' {
        lemma_last_dot(s.drop_last(), k);
    }
}

/// UTF-8 never takes fewer bytes than characters.
pub proof fn lemma_encode_len(s: Seq<char>)
    ensures
        encode_utf8(s).len() >= s.len(),
    decreases s.len(),
{
    if s.len() > 0 {
        lemma_encode_len(s.drop_first());
    }
}

/// The extension of a file name: the text from its last `.` (included) to its
/// end, cut at the byte offset `len - n` where `n` counts the characters from
/// the dot on; `None` when the name has no dot.
pub fn get_extension(file: &str) -> (r: Option<&str>)
    requires
        extension_defined(file@),
        encode_utf8(file@).len() <= usize::MAX,
    ensures
        match r {
            None => spec_extension(file@) is None,
            Some(e) => spec_extension(file@) == Some(e@),
        },
{
    let n = file.unicode_len();
    let mut k: usize = n;
    loop
        invariant_except_break
            k <= n,
            forall|j: int| k <= j < n ==> file@[j] != '.',
        invariant
            n == file@.len(),
        ensures
            k < n,
            file@[k as int] == '.',
            forall|j: int| k < j < n ==> file@[j] != '.',
        decreases k,
    {
        if k == 0 {
            proof {
                lemma_last_dot(file@, -1);
            }
            return None;
        }
        k = k - 1;
        if file.get_char(k) == '.' {
            break;
        }
    }
    proof {
        lemma_last_dot(file@, k as int);
        lemma_encode_len(file@);
        broadcast use encode_utf8_valid_utf8, encode_utf8_decode_utf8;
    }
    let poss = n - k;
    let mid = file.len() - poss;
    let (_, ext) = file.split_at(mid);
    proof {
        broadcast use encode_utf8_decode_utf8, decode_utf8_encode_utf8;
        assert(ext.spec_bytes() == encode_utf8(ext@));
        assert(valid_utf8(encode_utf8(file@)));
        valid_utf8_split(encode_utf8(file@), mid as int);
        assert(ext@ == decode_utf8(encode_utf8(ext@)));
    }
    Some(ext)
}


/// Whether `get_extension` is defined on `file`: the name has no dot, or the
/// byte offset that `get_extension` cuts at is a character boundary.
pub fn get_extension_defined(file: &str) -> (r: bool)
    requires
        encode_utf8(file@).len() <= usize::MAX,
    ensures
        r == extension_defined(file@),
{
    let n = file.unicode_len();
    let mut k: usize = n;
    loop
        invariant_except_break
            k <= n,
            forall|j: int| k <= j < n ==> file@[j] != '.',
        invariant
            n == file@.len(),
        ensures
            k < n,
            file@[k as int] == '.',
            forall|j: int| k < j < n ==> file@[j] != '.',
        decreases k,
    {
        if k == 0 {
            proof {
                lemma_last_dot(file@, -1);
            }
            return true;
        }
        k = k - 1;
        if file.get_char(k) == '.' {
            break;
        }
    }
    proof {
        lemma_last_dot(file@, k as int);
        lemma_encode_len(file@);
        assert(file.spec_bytes() == encode_utf8(file@));
    }
    let poss = n - k;
    let mid = file.len() - poss;
    file.is_char_boundary(mid)
}


/// The UTF-8 encoding of two texts one after the other is their encodings
/// one after the other.
pub proof fn lemma_encode_concat(a: Seq<char>, b: Seq<char>)
    ensures
        encode_utf8(a + b) == encode_utf8(a) + encode_utf8(b),
    decreases a.len(),
{
    if a.len() > 0 {
        lemma_encode_concat(a.drop_first(), b);
        assert((a + b).drop_first() =~= a.drop_first() + b);
        assert((a + b)[0] == a[0]);
    } else {
        assert(a + b =~= b);
    }
}

/// The bytes of the first `k` characters of a text end on a character
/// boundary of the text's bytes.
pub proof fn lemma_boundary_at(c: Seq<char>, k: int)
    requires
        0 <= k <= c.len(),
    ensures
        is_char_boundary(encode_utf8(c), encode_utf8(c.subrange(0, k)).len() as int),
    decreases k,
{
    broadcast use encode_utf8_valid_utf8;

    if k > 0 {
        let bytes = encode_utf8(c);
        encode_utf8_first_scalar(c);
        let tail = c.drop_first();
        assert(pop_first_scalar(bytes) =~= encode_utf8(tail));
        lemma_boundary_at(tail, k - 1);
        let pre = c.subrange(0, k);
        assert(pre.drop_first() =~= tail.subrange(0, k - 1));
        assert(pre[0] == c[0]);
        assert(encode_utf8(pre) == encode_scalar(c[0] as u32) + encode_utf8(tail.subrange(0, k - 1)));
        lemma_encode_concat(c.subrange(0, k), c.subrange(k, c.len() as int));
        assert(c.subrange(0, k) + c.subrange(k, c.len() as int) =~= c);
    }
}

/// When the characters from the last dot on are all ASCII, `get_extension`
/// is defined and gives exactly those characters: the dot and what follows.
pub proof fn lemma_extension_ascii(s: Seq<char>)
    requires
        last_dot(s) >= 0,
        is_ascii_chars(s.subrange(last_dot(s), s.len() as int)),
    ensures
        extension_defined(s),
        spec_extension(s) == Some(s.subrange(last_dot(s), s.len() as int)),
        spec_extension(s) matches Some(e) && e.len() > 0 && e[0] == '.',
{
    broadcast use encode_utf8_valid_utf8, encode_utf8_decode_utf8;

    lemma_last_dot_index(s);
    let d = last_dot(s);
    let p = s.subrange(0, d);
    let q = s.subrange(d, s.len() as int);
    assert(p + q =~= s);
    lemma_encode_concat(p, q);
    is_ascii_chars_encode_utf8(q);
    lemma_boundary_at(s, d);
    assert(encode_utf8(s).subrange(extension_cut(s), encode_utf8(s).len() as int) =~= encode_utf8(q));
    assert(q[0] == s[d]);
}

/// `last_dot` is the place of the last `.`: a dot stands there and none
/// after it, and it is -1 only when the text holds no dot.
pub proof fn lemma_last_dot_index(s: Seq<char>)
    ensures
        -1 <= last_dot(s) < s.len(),
        last_dot(s) >= 0 ==> s[last_dot(s)] == '.',
        forall|j: int| last_dot(s) < j < s.len() ==> s[j] != '.',
    decreases s.len(),
{
    if s.len() > 0 && s.last() != '.' {
        lemma_last_dot_index(s.drop_last());
        assert forall|j: int| last_dot(s) < j < s.len() implies s[j] != '.' by {
            if j < s.len() - 1 {
                assert(s[j] == s.drop_last()[j]);
            }
        }
    }
}

/// What `std::path::Path::starts_with` answers for the paths `path` and
/// `base` written as text: whether `base` is a prefix of `path` by whole
/// path components.
pub uninterp spec fn path_starts_with(path: Seq<char>, base: Seq<char>) -> bool;

/// Calls `std::path::Path::starts_with`; trusted to give
/// `path_starts_with(path, base)`, a function of the two texts alone.
#[verifier::external_body]
fn path_has_prefix(path: &str, base: &str) -> (r: bool)
    ensures
        r == path_starts_with(path@, base@),
{
    std::path::Path::new(path).starts_with(base)
}

/// Whether `file` lies inside `dir`, given both paths in canonical form;
/// `None` stands for a path that could not be made canonical, which is never
/// inside anything.
pub fn path_in_dir(dir: Option<&str>, file: Option<&str>) -> (r: bool)
    ensures
        r == match (dir, file) {
            (Some(d), Some(f)) => path_starts_with(f@, d@),
            _ => false,
        },
{
    match (dir, file) {
        (Some(d), Some(f)) => path_has_prefix(f, d),
        _ => false,
    }
}

} // verus!
