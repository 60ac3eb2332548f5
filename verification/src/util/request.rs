use vstd::prelude::*;
use vstd::string::{StrSliceExecFns, StringExecFns};
use vstd::utf8::{decode_utf8, valid_utf8};

use crate::util::files::has_char;
use crate::util::url::{decode, lemma_plain_text_decodes_to_itself, url_decode, url_decoded_bytes};

verus! {

/// A text without one trailing `/`, where it ends with one.
pub open spec fn spec_trim_trailing_slash(text: Seq<char>) -> Seq<char> {
    if text.len() > 0 && text.last() == '/' {
        text.drop_last()
    } else {
        text
    }
}

/// A request path made clean: percent-decoded, and without one trailing `/`.
pub open spec fn spec_clean_url(path: Seq<char>) -> Seq<char> {
    spec_trim_trailing_slash(url_decode(path))
}

/// Takes one trailing `/` off a decoded request path.
pub fn trim_trailing_slash(decoded: String) -> (r: String)
    ensures
        r@ == spec_trim_trailing_slash(decoded@),
        decoded@.len() >= 1 && decoded@[decoded@.len() - 1] == '/' ==> r@ == decoded@.subrange(
            0,
            decoded@.len() - 1,
        ),
        (decoded@.len() == 0 || decoded@[decoded@.len() - 1] != '/') ==> r@ == decoded@,
{
    let n = decoded.as_str().unicode_len();
    if n > 0 && decoded.as_str().get_char(n - 1) == '/' {
        let s = decoded.as_str().substring_char(0, n - 1);
        let r = String::from_str(s);
        assert(r@ =~= decoded@.drop_last());
        r
    } else {
        decoded
    }
}

/// The request path `path` percent-decoded, with one trailing `/` taken off.
/// When the decoded bytes are valid UTF-8 the result is their plain
/// decoding; a path without `%` only loses its trailing `/`.
pub fn clean_url(path: &str) -> (r: String)
    ensures
        r@ == spec_clean_url(path@),
        valid_utf8(url_decoded_bytes(path@)) ==> r@ == spec_trim_trailing_slash(
            decode_utf8(url_decoded_bytes(path@)),
        ),
        !has_char(path@, '%') ==> r@ == spec_trim_trailing_slash(path@),
{
    let d = decode(path);
    proof {
        if !has_char(path@, '%') {
            lemma_plain_text_decodes_to_itself(path@);
        }
    }
    trim_trailing_slash(d)
}

} // verus!
