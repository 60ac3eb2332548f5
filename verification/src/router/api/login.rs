use vstd::prelude::*;

use crate::router::ROOT;
use crate::util::text::str_eq;

verus! {

/// Where the login API is served below the API root.
pub const PATH: &'static str = "/login";

/// The login call that a request makes.
#[derive(Debug)]
pub enum LoginRoute {
    /// `POST` of the login root.
    Post,
    /// `GET` of the login root: answer with the user.
    Get,
    /// Nothing: 404.
    NotFound,
}

/// Which login call `method` on `url` (the path below `/login`) makes.
pub fn route(method: &str, url: &str) -> (r: LoginRoute)
    ensures
        url@ == ROOT@ && method@ == "POST"@ ==> r is Post,
        url@ == ROOT@ && method@ == "GET"@ ==> r is Get,
        !(url@ == ROOT@ && (method@ == "POST"@ || method@ == "GET"@)) ==> r is NotFound,
{
    proof {
        reveal_strlit("POST");
        reveal_strlit("GET");
        assert("POST"@[0] != "GET"@[0]);
    }
    if str_eq(url, ROOT) {
        if str_eq(method, "POST") {
            return LoginRoute::Post;
        } else if str_eq(method, "GET") {
            return LoginRoute::Get;
        }
    }
    LoginRoute::NotFound
}

} // verus!
