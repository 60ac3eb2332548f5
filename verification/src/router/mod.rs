use vstd::prelude::*;
use vstd::string::StrSliceExecFns;

use crate::util::text::{concat, is_prefix, join_with, starts_with, str_eq, texts};

pub mod api;

verus! {

/// `url` lies under `route`: it starts with `route`, and either ends there
/// or goes on with a `/`.
pub open spec fn spec_check_route(url: Seq<char>, route: Seq<char>) -> bool {
    is_prefix(route, url) && (url.len() == route.len() || url[route.len() as int] == '/')
}

/// Whether `url` is `route` itself or a path below it.
pub fn check_route(url: &str, route: &str) -> (r: bool)
    ensures
        r == spec_check_route(url@, route@),
        r <==> route@.len() <= url@.len() && (forall|i: int|
            0 <= i < route@.len() ==> #[trigger] url@[i] == route@[i]) && (url@.len()
            == route@.len() || url@[route@.len() as int] == '/'),
{
    proof {
        lemma_check_route_explicit(url@, route@);
    }
    if !starts_with(url, route) {
        return false;
    }
    let n = route.unicode_len();
    let m = url.unicode_len();
    n == m || url.get_char(n) == '/'
}

/// The pieces of `s` between the separators `sep`, in order; `s` with no
/// separator gives one piece, the empty text gives one empty piece.
pub open spec fn split_on(s: Seq<char>, sep: char) -> Seq<Seq<char>>
    decreases s.len(),
{
    if s.len() == 0 {
        seq![Seq::<char>::empty()]
    } else {
        let init = split_on(s.drop_last(), sep);
        if s.last() == sep {
            init.push(Seq::<char>::empty())
        } else {
            init.update(init.len() - 1, init.last().push(s.last()))
        }
    }
}

/// `split_on` never gives an empty list.
pub proof fn lemma_split_on_len(s: Seq<char>, sep: char)
    ensures
        split_on(s, sep).len() >= 1,
    decreases s.len(),
{
    if s.len() > 0 {
        lemma_split_on_len(s.drop_last(), sep);
    }
}

/// How many times `c` occurs in `s`.
pub open spec fn char_count(s: Seq<char>, c: char) -> nat
    decreases s.len(),
{
    if s.len() == 0 {
        0
    } else {
        char_count(s.drop_last(), c) + if s.last() == c {
            1nat
        } else {
            0nat
        }
    }
}

/// Cutting a text at a separator cuts at every separator: no piece holds
/// the separator, and there is one piece more than there are separators.
pub proof fn lemma_split_pieces(s: Seq<char>, sep: char)
    ensures
        split_on(s, sep).len() == char_count(s, sep) + 1,
        forall|i: int|
            0 <= i < split_on(s, sep).len() ==> !(#[trigger] split_on(s, sep)[i]).contains(sep),
    decreases s.len(),
{
    if s.len() == 0 {
        assert(split_on(s, sep)[0] =~= Seq::<char>::empty());
    } else {
        let init = split_on(s.drop_last(), sep);
        lemma_split_pieces(s.drop_last(), sep);
        lemma_split_on_len(s.drop_last(), sep);
        let c = s.last();
        let now = split_on(s, sep);
        if c == sep {
            assert forall|i: int| 0 <= i < now.len() implies !(#[trigger] now[i]).contains(sep) by {
                if i < init.len() {
                    assert(now[i] == init[i]);
                } else {
                    assert(now[i] =~= Seq::<char>::empty());
                }
            }
        } else {
            let n = init.len();
            assert forall|i: int| 0 <= i < now.len() implies !(#[trigger] now[i]).contains(sep) by {
                if i < n - 1 {
                    assert(now[i] == init[i]);
                } else {
                    let piece = init[n - 1].push(c);
                    assert(now[i] == piece);
                    assert(!init[n - 1].contains(sep));
                    if piece.contains(sep) {
                        let k = choose|k: int| 0 <= k < piece.len() && piece[k] == sep;
                        if k < piece.len() - 1 {
                            assert(init[n - 1][k] == sep);
                        }
                    }
                }
            }
        }
    }
}

/// The arguments of a sub-route: `url` without its first character, cut at
/// every `/`.
pub fn subroute_args<'a>(url: &'a str) -> (r: Vec<&'a str>)
    requires
        url@.len() > 0,
        (url@[0] as u32) < 0x80,
    ensures
        texts(r@) == split_on(url@.drop_first(), '/'),
        r@.len() == char_count(url@.drop_first(), '/') + 1,
        forall|i: int| 0 <= i < r@.len() ==> !(#[trigger] r@[i])@.contains('/'),
{
    let m = url.unicode_len();
    let mut pieces: Vec<&'a str> = Vec::new();
    let mut start: usize = 1;
    let mut i: usize = 1;
    proof {
        assert(url@.subrange(1, 1) =~= Seq::<char>::empty());
        assert(texts(pieces@).push(url@.subrange(1, 1)) =~= split_on(Seq::<char>::empty(), '/'));
    }
    while i < m
        invariant
            m == url@.len(),
            1 <= start <= i <= m,
            texts(pieces@).push(url@.subrange(start as int, i as int))
                == split_on(url@.subrange(1, i as int), '/'),
        decreases m - i,
    {
        let c = url.get_char(i);
        let ghost prev = url@.subrange(1, i as int);
        assert(url@.subrange(1, i + 1).drop_last() =~= prev);
        if c == '/' {
            let piece = url.substring_char(start, i);
            pieces.push(piece);
            start = i + 1;
            proof {
                assert(url@.subrange(start as int, i + 1) =~= Seq::<char>::empty());
                assert(texts(pieces@) =~= texts(pieces@.drop_last()).push(piece@));
            }
        } else {
            proof {
                lemma_split_on_len(prev, '/');
                assert(url@.subrange(start as int, i + 1) =~= url@.subrange(start as int, i as int).push(c));
            }
        }
        i = i + 1;
    }
    let last = url.substring_char(start, m);
    pieces.push(last);
    proof {
        assert(texts(pieces@) =~= texts(pieces@.drop_last()).push(last@));
        assert(url@.subrange(1, m as int) =~= url@.drop_first());
        lemma_split_pieces(url@.drop_first(), '/');
        assert forall|i: int| 0 <= i < pieces@.len() implies !(#[trigger] pieces@[i])@.contains(
            '/',
        ) by {
            assert(texts(pieces@)[i] == pieces@[i]@);
            assert(!split_on(url@.drop_first(), '/')[i].contains('/'));
        }
    }
    pieces
}

/// Cutting a text at a separator and joining the pieces back with it gives
/// the text again: the sub-route arguments lose nothing of the path.
pub proof fn lemma_split_join(s: Seq<char>, sep: char)
    ensures
        join_with(split_on(s, sep), seq![sep]) == s,
    decreases s.len(),
{
    if s.len() == 0 {
        assert(split_on(s, sep) =~= seq![Seq::<char>::empty()]);
        assert(s =~= Seq::<char>::empty());
    } else {
        let init = split_on(s.drop_last(), sep);
        lemma_split_join(s.drop_last(), sep);
        lemma_split_on_len(s.drop_last(), sep);
        let c = s.last();
        if c == sep {
            let now = init.push(Seq::<char>::empty());
            assert(now.drop_last() =~= init);
            assert(join_with(now, seq![sep]) =~= s.drop_last() + seq![sep]);
            assert(s =~= s.drop_last().push(c));
        } else {
            let n = init.len();
            let now = init.update(n - 1, init.last().push(c));
            if n == 1 {
                assert(join_with(now, seq![sep]) == now[0]);
                assert(join_with(init, seq![sep]) == init[0]);
            } else {
                assert(now.drop_last() =~= init.drop_last());
                assert(now.last() == init.last().push(c));
            }
            assert(s =~= s.drop_last().push(c));
        }
    }
}

/// A path lies under a route exactly when its first characters are those of
/// the route, and it either ends there or goes on with a `/`.
pub proof fn lemma_check_route_explicit(url: Seq<char>, route: Seq<char>)
    ensures
        spec_check_route(url, route) <==> route.len() <= url.len() && (forall|i: int|
            0 <= i < route.len() ==> #[trigger] url[i] == route[i]) && (url.len() == route.len()
            || url[route.len() as int] == '/'),
{
    if route.len() <= url.len() && (forall|i: int|
        0 <= i < route.len() ==> #[trigger] url[i] == route[i]) {
        assert(url.subrange(0, route.len() as int) =~= route);
    }
    if spec_check_route(url, route) {
        lemma_route_prefix(url, route);
    }
}

/// Every route lies under itself.
pub proof fn lemma_route_under_itself(route: Seq<char>)
    ensures
        spec_check_route(route, route),
{
    assert(route.subrange(0, route.len() as int) =~= route);
}

/// A path below a route starts with the route.
pub proof fn lemma_route_prefix(url: Seq<char>, route: Seq<char>)
    requires
        spec_check_route(url, route),
    ensures
        route.len() <= url.len(),
        forall|i: int| 0 <= i < route.len() ==> url[i] == route[i],
{
    assert forall|i: int| 0 <= i < route.len() implies url[i] == route[i] by {
        assert(url.subrange(0, route.len() as int)[i] == url[i]);
    }
}

/// The root of a router's part of the path.
pub const ROOT: &'static str = "";
/// The content type of data of unknown kind.
pub const MIME_DEFAULT: &'static str = "application/octet-stream";
/// Where the API is served.
pub const API: &'static str = "/api";
/// Where public files are served from.
pub const PUBLIC_DIR: &'static str = "./public";

/// The part of the server that answers a request.
#[derive(Debug)]
pub enum MainRoute<'a> {
    /// The fixed answer below `/a`.
    A,
    /// The API, with the rest of the path below `/api`.
    Api(&'a str),
    /// The redirection of `/redirect` to `/`.
    Redirect,
    /// A public file.
    Public,
    /// Nothing: 404.
    NotFound,
}

/// The text past the first `n` characters.
pub open spec fn rest_after(url: Seq<char>, n: nat) -> Seq<char> {
    url.subrange(n as int, url.len() as int)
}

/// Which part of the server answers `method` on the clean path `url`: the
/// first that applies of `/a`, the API, a `GET` of `/redirect`, any other
/// `GET` (a public file), else nothing.
pub fn main_route<'a>(method: &str, url: &'a str) -> (r: MainRoute<'a>)
    ensures
        spec_check_route(url@, "/a"@) ==> r is A,
        !spec_check_route(url@, "/a"@) && spec_check_route(url@, API@) ==> (r matches MainRoute::Api(
            rest,
        ) && rest@ == rest_after(url@, API@.len()) && url@ == "/api"@ + rest@),
        !spec_check_route(url@, "/a"@) && !spec_check_route(url@, API@) ==> {
            if method@ == "GET"@ {
                if url@ == "/redirect"@ {
                    r is Redirect
                } else {
                    r is Public
                }
            } else {
                r is NotFound
            }
        },
{
    if check_route(url, "/a") {
        MainRoute::A
    } else if check_route(url, API) {
        let k = API.unicode_len();
        let n = url.unicode_len();
        let rest = url.substring_char(k, n);
        proof {
            reveal_strlit("/api");
            lemma_route_prefix(url@, API@);
            assert(url@ =~= "/api"@ + rest@);
        }
        MainRoute::Api(rest)
    } else if str_eq(method, "GET") {
        if str_eq(url, "/redirect") {
            MainRoute::Redirect
        } else {
            MainRoute::Public
        }
    } else {
        MainRoute::NotFound
    }
}

/// How a public path is served.
#[derive(Debug)]
pub enum PublicPlan {
    /// The path names a directory but the request lacks the trailing `/`:
    /// redirect (308) to this location.
    Redirect(String),
    /// Serve the `index.html` of this directory, as HTML.
    ServeIndex(String),
    /// Serve this file, typed by the extension of the request path.
    ServeFile(String),
}

/// `s` ends with a `/`.
pub open spec fn ends_with_slash(s: Seq<char>) -> bool {
    s.len() > 0 && s.last() == '/'
}

/// How to serve the clean path `url` from the public directory, given the
/// path the request named and whether the file under `url` is a directory.
pub fn public_plan(url: &str, request_path: &str, is_dir: bool) -> (r: PublicPlan)
    ensures
        is_dir && !ends_with_slash(request_path@) ==> (r matches PublicPlan::Redirect(l) && l@
            == url@ + "/"@),
        is_dir && ends_with_slash(request_path@) ==> (r matches PublicPlan::ServeIndex(p) && p@
            == PUBLIC_DIR@ + url@),
        !is_dir ==> (r matches PublicPlan::ServeFile(p) && p@ == PUBLIC_DIR@ + url@),
        is_dir && request_path@.len() > 0 && request_path@[request_path@.len() - 1] == '/' ==> (
        r matches PublicPlan::ServeIndex(p) && p@ == "./public"@ + url@),
        is_dir && (request_path@.len() == 0 || request_path@[request_path@.len() - 1] != '/') ==> (
        r matches PublicPlan::Redirect(l) && l@ == url@ + "/"@),
{
    let inner = concat(PUBLIC_DIR, url);
    proof {
        reveal_strlit("./public");
    }
    if is_dir {
        let n = request_path.unicode_len();
        if !(n > 0 && request_path.get_char(n - 1) == '/') {
            return PublicPlan::Redirect(concat(url, "/"));
        }
        return PublicPlan::ServeIndex(inner);
    }
    PublicPlan::ServeFile(inner)
}

/// A path ends with a slash exactly when it is not empty and its last
/// character is `/`; the root path `/` is one of them.
pub proof fn lemma_ends_with_slash(s: Seq<char>)
    ensures
        ends_with_slash(s) <==> (s.len() >= 1 && s[s.len() - 1] == '/'),
        s == seq!['/'] ==> ends_with_slash(s),
{
}

} // verus!
