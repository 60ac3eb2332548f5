use vstd::prelude::*;
use vstd::string::StrSliceExecFns;

use super::{check_route, rest_after, spec_check_route, split_on, subroute_args, ROOT};
use crate::util::text::{join, join_with, str_eq, texts};

pub mod fssa;
pub mod login;

verus! {

/// Where the API is served below the server root.
pub const PATH: &'static str = "/api";

/// Where the sub-route echo is served below the API root.
pub const SUB: &'static str = "/sub";

/// The API call that a request makes.
#[derive(Debug)]
pub enum ApiRoute<'a> {
    /// `GET` of the API root.
    Root,
    /// `/echo`, with any method: answer with the request body.
    Echo,
    /// `GET /ip_log`: register the visitor and answer with the countries.
    IpLog,
    /// `/sub/...`: answer with the path's pieces joined by spaces.
    Sub(String),
    /// `POST /upload`: store the body under this name.
    Upload(&'a str),
    /// Nothing: 404.
    NotFound,
}

/// Which API call `method` on `url` (the path below the API) makes: the
/// first that applies of a `GET` of the root, `/echo`, a `GET` of
/// `/ip_log`, a path below `/sub`, a `POST` of `/upload`, else nothing.
pub fn route<'a>(method: &str, url: &'a str) -> (r: ApiRoute<'a>)
    ensures
        ({
            let get = method@ == "GET"@;
            let post = method@ == "POST"@;
            if get && url@ == ROOT@ {
                r is Root
            } else if url@ == "/echo"@ {
                r is Echo
            } else if get && url@ == "/ip_log"@ {
                r is IpLog
            } else if spec_check_route(url@, SUB@) {
                r matches ApiRoute::Sub(text) && text@ == join_with(
                    split_on(url@.drop_first(), '/'),
                    " "@,
                )
            } else if post && url@ == "/upload"@ {
                r matches ApiRoute::Upload(name) && name@ == split_on(url@.drop_first(), '/')[0]
            } else {
                r is NotFound
            }
        }),
{
    let get = str_eq(method, "GET");
    let post = str_eq(method, "POST");
    if get && str_eq(url, ROOT) {
        ApiRoute::Root
    } else if str_eq(url, "/echo") {
        ApiRoute::Echo
    } else if get && str_eq(url, "/ip_log") {
        ApiRoute::IpLog
    } else if check_route(url, SUB) {
        proof {
            reveal_strlit("/sub");
            assert(url@[0] == SUB@[0]);
        }
        let args = subroute_args(url);
        ApiRoute::Sub(join(&args, " "))
    } else if post && str_eq(url, "/upload") {
        proof {
            reveal_strlit("/upload");
        }
        let args = subroute_args(url);
        proof {
            super::lemma_split_on_len(url@.drop_first(), '/');
            assert(texts(args@)[0] == args@[0]@);
        }
        ApiRoute::Upload(args[0])
    } else {
        ApiRoute::NotFound
    }
}

/// Which API part a path goes to.
#[derive(Debug)]
pub enum ApiDispatch<'a> {
    /// The login API, with the rest of the path below `/login`.
    Login(&'a str),
    /// Nothing: 404.
    NotFound,
}

/// Which part of the API answers the path `url` below the API root.
pub fn dispatch<'a>(url: &'a str) -> (r: ApiDispatch<'a>)
    ensures
        spec_check_route(url@, login::PATH@) ==> (r matches ApiDispatch::Login(rest) && rest@
            == rest_after(url@, login::PATH@.len())),
        !spec_check_route(url@, login::PATH@) ==> r is NotFound,
{
    if check_route(url, login::PATH) {
        let k = login::PATH.unicode_len();
        let n = url.unicode_len();
        ApiDispatch::Login(url.substring_char(k, n))
    } else {
        ApiDispatch::NotFound
    }
}

} // verus!
