use vstd::prelude::*;

use crate::router::{check_route, spec_check_route, split_on, subroute_args};
use crate::util::text::{str_eq, texts};

verus! {

/// Where the modpack API is served below the API root.
pub const PATH: &'static str = "fssa";

/// The modpack call that a request makes.
#[derive(Debug)]
pub enum FssaRoute<'a> {
    /// `GET release`: the modpack archive.
    Release,
    /// A path below `mod`: the mod file of this name.
    Mod(&'a str),
    /// Nothing: 404.
    NotFound,
}

/// Which modpack call `method` on `url` (the path below the modpack API)
/// makes: a `GET` of `release`, a path below `mod`, else nothing. The file
/// name of a mod is the first piece of the path once its first character is
/// dropped.
pub fn route<'a>(method: &str, url: &'a str) -> (r: FssaRoute<'a>)
    ensures
        method@ == "GET"@ && url@ == "release"@ ==> r is Release,
        !(method@ == "GET"@ && url@ == "release"@) && spec_check_route(url@, "mod"@)
            ==> (r matches FssaRoute::Mod(name) && name@ == split_on(url@.drop_first(), '/')[0]),
        !(method@ == "GET"@ && url@ == "release"@) && !spec_check_route(url@, "mod"@)
            ==> r is NotFound,
{
    if str_eq(method, "GET") && str_eq(url, "release") {
        FssaRoute::Release
    } else if check_route(url, "mod") {
        proof {
            reveal_strlit("mod");
            assert(url@[0] == "mod"@[0]);
        }
        let args = subroute_args(url);
        proof {
            crate::router::lemma_split_on_len(url@.drop_first(), '/');
            assert(texts(args@)[0] == args@[0]@);
        }
        FssaRoute::Mod(args[0])
    } else {
        FssaRoute::NotFound
    }
}

} // verus!
