use vstd::prelude::*;
use vstd::utf8::*;

use crate::util::command::utf8_lossy;
use crate::util::files::{has_char, lemma_encode_concat};

verus! {

/// The bytes that a URL path never holds as they are: every byte outside
/// ASCII, the C0 controls and DEL, and space, `"`, `#`, `<`, `>`, `?`, `^`,
/// `` ` ``, `{` and `}`.
pub open spec fn path_escaped(b: u8) -> bool {
    ||| b >= 0x80
    ||| b < 0x20
    ||| b == 0x7f
    ||| b == 0x20
    ||| b == 0x22
    ||| b == 0x23
    ||| b == 0x3c
    ||| b == 0x3e
    ||| b == 0x3f
    ||| b == 0x5e
    ||| b == 0x60
    ||| b == 0x7b
    ||| b == 0x7d
}

/// The byte of the upper-case hexadecimal digit of a value below 16.
pub open spec fn hex_byte(n: int) -> u8 {
    if n < 10 {
        (0x30 + n) as u8
    } else {
        (0x37 + n) as u8
    }
}

/// The upper-case hexadecimal digit of a value below 16.
pub open spec fn hex_digit(n: int) -> char {
    (hex_byte(n) as u32) as char
}

/// Bytes percent-encoded for a URL path: a byte that a path may hold stays
/// as its character, any other becomes `%` and its two upper-case hex digits.
pub open spec fn percent_encode_bytes(bytes: Seq<u8>) -> Seq<char>
    decreases bytes.len(),
{
    if bytes.len() == 0 {
        Seq::empty()
    } else {
        let b = bytes[0];
        let head = if path_escaped(b) {
            seq!['%', hex_digit((b / 16) as int), hex_digit((b % 16) as int)]
        } else {
            seq![(b as u32) as char]
        };
        head + percent_encode_bytes(bytes.drop_first())
    }
}

/// What `url_escape::encode_path` makes of a text: its UTF-8 bytes
/// percent-encoded for a URL path.
pub open spec fn url_encode_path(text: Seq<char>) -> Seq<char> {
    percent_encode_bytes(encode_utf8(text))
}

/// The value of a byte that is a hexadecimal digit, either case.
pub open spec fn hex_value(b: u8) -> Option<u8> {
    if 0x30 <= b <= 0x39 {
        Some((b - 0x30) as u8)
    } else if 0x61 <= b <= 0x66 {
        Some((b - 0x61 + 10) as u8)
    } else if 0x41 <= b <= 0x46 {
        Some((b - 0x41 + 10) as u8)
    } else {
        None
    }
}

/// Bytes percent-decoded: each `%` followed by two hexadecimal digits
/// becomes the byte they spell; every other byte stays.
pub open spec fn percent_decode_bytes(bytes: Seq<u8>) -> Seq<u8>
    decreases bytes.len(),
{
    if bytes.len() == 0 {
        Seq::empty()
    } else if bytes[0] == 0x25 && bytes.len() >= 3 && hex_value(bytes[1]) is Some && hex_value(
        bytes[2],
    ) is Some {
        seq![(hex_value(bytes[1])->0 * 16 + hex_value(bytes[2])->0) as u8] + percent_decode_bytes(
            bytes.subrange(3, bytes.len() as int),
        )
    } else {
        seq![bytes[0]] + percent_decode_bytes(bytes.drop_first())
    }
}

/// The bytes a text decodes to: its UTF-8 bytes percent-decoded.
pub open spec fn url_decoded_bytes(text: Seq<char>) -> Seq<u8> {
    percent_decode_bytes(encode_utf8(text))
}

/// What `url_escape::decode` makes of a text: its percent-decoded bytes read
/// back as UTF-8 the way `String::from_utf8_lossy` reads them.
pub open spec fn url_decode(text: Seq<char>) -> Seq<char> {
    utf8_lossy(url_decoded_bytes(text))
}

/// Calls `url_escape::encode_path`; trusted to percent-encode the text's
/// UTF-8 bytes with the path set of its source (`PATH` in
/// `url-escape/src/encode/mod.rs`, on top of percent-encoding's `CONTROLS`
/// and its rule that every non-ASCII byte is encoded).
#[verifier::external_body]
pub(crate) fn encode_path(text: &str) -> (r: String)
    ensures
        r@ == url_encode_path(text@),
{
    url_escape::encode_path(text).into_owned()
}

/// Calls `url_escape::decode`, which percent-decodes the text's bytes and
/// reads them with `String::from_utf8_lossy`; trusted to give that result,
/// which is the plain UTF-8 decoding when the decoded bytes are valid UTF-8.
#[verifier::external_body]
pub(crate) fn decode(text: &str) -> (r: String)
    ensures
        r@ == url_decode(text@),
        valid_utf8(url_decoded_bytes(text@)) ==> r@ == decode_utf8(url_decoded_bytes(text@)),
{
    url_escape::decode(text).into_owned()
}

/// No byte of `bytes` is `%`.
pub open spec fn no_percent_byte(bytes: Seq<u8>) -> bool {
    forall|i: int| 0 <= i < bytes.len() ==> bytes[i] != 0x25
}

/// Bytes without a `%` decode to themselves.
pub proof fn lemma_decode_no_percent(bytes: Seq<u8>)
    requires
        no_percent_byte(bytes),
    ensures
        percent_decode_bytes(bytes) == bytes,
    decreases bytes.len(),
{
    if bytes.len() > 0 {
        lemma_decode_no_percent(bytes.drop_first());
        assert(seq![bytes[0]] + bytes.drop_first() =~= bytes);
    }
}

proof fn lemma_scalar_no_percent(c: char)
    requires
        c != '%',
    ensures
        no_percent_byte(encode_scalar(c as u32)),
{
    let s = c as u32;
    assert(s != 0x25);
    assert(s <= 0x7f && s != 0x25 ==> (s & 0x7f) as u8 != 0x25u8) by (bit_vector);
    assert((0xC0u8 | ((s >> 6) & 0x1F) as u8) != 0x25u8) by (bit_vector);
    assert((0xE0u8 | ((s >> 12) & 0x0F) as u8) != 0x25u8) by (bit_vector);
    assert((0xF0u8 | ((s >> 18) & 0x7) as u8) != 0x25u8) by (bit_vector);
    assert((0x80u8 | (s & 0x3F) as u8) != 0x25u8) by (bit_vector);
    assert((0x80u8 | ((s >> 6) & 0x3F) as u8) != 0x25u8) by (bit_vector);
    assert((0x80u8 | ((s >> 12) & 0x3F) as u8) != 0x25u8) by (bit_vector);
}

/// A text without `%` has no `%` byte in its UTF-8 encoding.
pub proof fn lemma_encode_no_percent(s: Seq<char>)
    requires
        !has_char(s, '%'),
    ensures
        no_percent_byte(encode_utf8(s)),
    decreases s.len(),
{
    if s.len() > 0 {
        assert(s[0] != '%');
        lemma_scalar_no_percent(s[0]);
        let rest = s.drop_first();
        assert(!has_char(rest, '%')) by {
            if has_char(rest, '%') {
                let i = choose|i: int| 0 <= i < rest.len() && rest[i] == '%';
                assert(s[i + 1] == '%');
            }
        }
        lemma_encode_no_percent(rest);
        let e = encode_utf8(s);
        let h = encode_scalar(s[0] as u32);
        assert(e == h + encode_utf8(rest));
        assert forall|i: int| 0 <= i < e.len() implies e[i] != 0x25 by {
            if i < h.len() {
                assert(e[i] == h[i]);
            } else {
                assert(e[i] == encode_utf8(rest)[i - h.len()]);
            }
        }
    }
}

/// A text without `%` decodes to itself.
pub proof fn lemma_plain_text_decodes_to_itself(s: Seq<char>)
    requires
        !has_char(s, '%'),
    ensures
        url_decoded_bytes(s) == encode_utf8(s),
        valid_utf8(url_decoded_bytes(s)),
        decode_utf8(url_decoded_bytes(s)) == s,
{
    broadcast use encode_utf8_valid_utf8, encode_utf8_decode_utf8;

    lemma_encode_no_percent(s);
    lemma_decode_no_percent(encode_utf8(s));
}

/// Every character of `s` is ASCII and may stand in a URL path as it is.
pub open spec fn plain_path_text(s: Seq<char>) -> bool {
    forall|i: int| 0 <= i < s.len() ==> (s[i] as u32) < 0x80 && !path_escaped(s[i] as u8)
}

/// A text of characters that a path may hold as they are encodes to itself.
pub proof fn lemma_plain_path_text_encodes_to_itself(s: Seq<char>)
    requires
        plain_path_text(s),
    ensures
        url_encode_path(s) == s,
    decreases s.len(),
{
    if s.len() > 0 {
        let c = s[0];
        let v = c as u32;
        let rest = s.drop_first();
        assert(plain_path_text(rest)) by {
            assert forall|i: int| 0 <= i < rest.len() implies (rest[i] as u32) < 0x80
                && !path_escaped(rest[i] as u8) by {
                assert(rest[i] == s[i + 1]);
            }
        }
        lemma_plain_path_text_encodes_to_itself(rest);
        assert(v < 0x80 ==> (v & 0x7f) as u8 == v as u8) by (bit_vector);
        assert(encode_scalar(v) == seq![(v & 0x7f) as u8]);
        let e = encode_utf8(s);
        assert(e == seq![v as u8] + encode_utf8(rest));
        assert(e[0] == v as u8);
        assert(e.drop_first() =~= encode_utf8(rest));
        assert(v < 0x80 ==> (v as u8) as u32 == v) by (bit_vector);
        char_u32_cast(c, v);
        assert(((v as u8) as u32) as char == c);
        assert(url_encode_path(s) =~= seq![c] + rest);
        assert(seq![c] + rest =~= s);
    }
}

/// The bytes of `percent_encode_bytes(bytes)`.
pub open spec fn percent_encode_raw(bytes: Seq<u8>) -> Seq<u8>
    decreases bytes.len(),
{
    if bytes.len() == 0 {
        Seq::empty()
    } else {
        let b = bytes[0];
        let head = if path_escaped(b) {
            seq![0x25u8, hex_byte((b / 16) as int), hex_byte((b % 16) as int)]
        } else {
            seq![b]
        };
        head + percent_encode_raw(bytes.drop_first())
    }
}

proof fn lemma_ascii_char(c: char, b: u8)
    requires
        b < 0x80,
        c == (b as u32) as char,
    ensures
        encode_utf8(seq![c]) == seq![b],
{
    let v = b as u32;
    assert((c as u32) == v);
    assert(v < 0x80 ==> (v & 0x7f) as u8 == b) by (bit_vector)
        requires
            v == b as u32,
    ;
    assert(encode_scalar(v) == seq![(v & 0x7f) as u8]);
    assert(seq![c].drop_first() =~= Seq::<char>::empty());
    assert(encode_utf8(seq![c]) =~= encode_scalar(v) + encode_utf8(Seq::<char>::empty()));
}

proof fn lemma_hex_value(n: int)
    requires
        0 <= n < 16,
    ensures
        hex_byte(n) < 0x80,
        hex_value(hex_byte(n)) == Some(n as u8),
{
}

proof fn lemma_encode_raw(bytes: Seq<u8>)
    ensures
        encode_utf8(percent_encode_bytes(bytes)) == percent_encode_raw(bytes),
    decreases bytes.len(),
{
    if bytes.len() > 0 {
        let b = bytes[0];
        let rest = bytes.drop_first();
        lemma_encode_raw(rest);
        let tail = percent_encode_bytes(rest);
        if path_escaped(b) {
            let hi = (b / 16) as int;
            let lo = (b % 16) as int;
            lemma_hex_value(hi);
            lemma_hex_value(lo);
            lemma_ascii_char('%', 0x25u8);
            lemma_ascii_char(hex_digit(hi), hex_byte(hi));
            lemma_ascii_char(hex_digit(lo), hex_byte(lo));
            let head = seq!['%', hex_digit(hi), hex_digit(lo)];
            assert(head =~= seq!['%'] + seq![hex_digit(hi)] + seq![hex_digit(lo)]);
            lemma_encode_concat(seq!['%'] + seq![hex_digit(hi)], seq![hex_digit(lo)]);
            lemma_encode_concat(seq!['%'], seq![hex_digit(hi)]);
            lemma_encode_concat(head, tail);
            assert(encode_utf8(head) =~= seq![0x25u8, hex_byte(hi), hex_byte(lo)]);
        } else {
            let head = seq![(b as u32) as char];
            lemma_ascii_char((b as u32) as char, b);
            lemma_encode_concat(head, tail);
        }
    }
}

proof fn lemma_decode_raw(bytes: Seq<u8>)
    requires
        no_percent_byte(bytes),
    ensures
        percent_decode_bytes(percent_encode_raw(bytes)) == bytes,
    decreases bytes.len(),
{
    if bytes.len() > 0 {
        let b = bytes[0];
        let rest = bytes.drop_first();
        assert(no_percent_byte(rest)) by {
            assert forall|i: int| 0 <= i < rest.len() implies rest[i] != 0x25 by {
                assert(rest[i] == bytes[i + 1]);
            }
        }
        lemma_decode_raw(rest);
        let raw = percent_encode_raw(bytes);
        let tail = percent_encode_raw(rest);
        if path_escaped(b) {
            let hi = (b / 16) as int;
            let lo = (b % 16) as int;
            lemma_hex_value(hi);
            lemma_hex_value(lo);
            assert(raw == seq![0x25u8, hex_byte(hi), hex_byte(lo)] + tail);
            assert(raw.subrange(3, raw.len() as int) =~= tail);
            assert(hi * 16 + lo == b);
        } else {
            assert(b != 0x25);
            assert(raw == seq![b] + tail);
            assert(raw.drop_first() =~= tail);
        }
        assert(seq![b] + rest =~= bytes);
    }
}

/// A text without `%`, path-encoded and then percent-decoded, gives back its
/// own UTF-8 bytes, and so reads back as itself.
pub proof fn lemma_decode_encode_path(s: Seq<char>)
    requires
        !has_char(s, '%'),
    ensures
        url_decoded_bytes(url_encode_path(s)) == encode_utf8(s),
        valid_utf8(url_decoded_bytes(url_encode_path(s))),
        decode_utf8(url_decoded_bytes(url_encode_path(s))) == s,
{
    broadcast use encode_utf8_valid_utf8, encode_utf8_decode_utf8;

    lemma_encode_no_percent(s);
    lemma_encode_raw(encode_utf8(s));
    lemma_decode_raw(encode_utf8(s));
}

/// Bytes without a `%` in front of others are kept as they are by
/// percent-decoding.
proof fn lemma_decode_plain_prefix(a: Seq<u8>, b: Seq<u8>)
    requires
        no_percent_byte(a),
    ensures
        percent_decode_bytes(a + b) == a + percent_decode_bytes(b),
    decreases a.len(),
{
    if a.len() == 0 {
        assert(a + b =~= b);
    } else {
        let rest = a.drop_first();
        assert(no_percent_byte(rest)) by {
            assert forall|i: int| 0 <= i < rest.len() implies rest[i] != 0x25 by {
                assert(rest[i] == a[i + 1]);
            }
        }
        lemma_decode_plain_prefix(rest, b);
        assert((a + b)[0] == a[0]);
        assert((a + b).drop_first() =~= rest + b);
        assert(seq![a[0]] + (rest + percent_decode_bytes(b)) =~= a + percent_decode_bytes(b));
    }
}

/// A text without `%` followed by the path encoding of a name without `%`
/// percent-decodes to the text followed by the name: the path of a link to
/// the name reads back as the name.
pub proof fn lemma_link_decodes_to_name(prefix: Seq<char>, name: Seq<char>)
    requires
        !has_char(prefix, '%'),
        !has_char(name, '%'),
    ensures
        url_decoded_bytes(prefix + url_encode_path(name)) == encode_utf8(prefix + name),
        valid_utf8(url_decoded_bytes(prefix + url_encode_path(name))),
        decode_utf8(url_decoded_bytes(prefix + url_encode_path(name))) == prefix + name,
{
    broadcast use encode_utf8_valid_utf8, encode_utf8_decode_utf8;

    lemma_encode_no_percent(prefix);
    lemma_encode_no_percent(name);
    lemma_encode_raw(encode_utf8(name));
    lemma_decode_raw(encode_utf8(name));
    lemma_encode_concat(prefix, url_encode_path(name));
    lemma_decode_plain_prefix(encode_utf8(prefix), percent_encode_raw(encode_utf8(name)));
    lemma_encode_concat(prefix, name);
}

} // verus!
