use atenda::router::api::fssa::{self, FssaRoute};
use atenda::router::api::login::{self, LoginRoute};
use atenda::router::api::{self, ApiDispatch, ApiRoute};
use atenda::router::{check_route, main_route, public_plan, subroute_args, MainRoute, PublicPlan};

#[test]
fn check_route_matches_route_and_below() {
    assert!(check_route("/api", "/api"));
    assert!(check_route("/api/x", "/api"));
    assert!(check_route("/api/", "/api"));
    assert!(!check_route("/apix", "/api"));
    assert!(!check_route("/ap", "/api"));
    assert!(check_route("", ""));
    assert!(check_route("/x", ""));
}

#[test]
fn check_route_route_is_under_itself() {
    for r in ["", "/a", "/api/login", "mod"] {
        assert!(check_route(r, r));
    }
}

#[test]
fn subroute_args_cut_at_slashes() {
    assert_eq!(subroute_args("/sub/a/b"), vec!["sub", "a", "b"]);
    assert_eq!(subroute_args("/"), vec![""]);
    assert_eq!(subroute_args("/a//b"), vec!["a", "", "b"]);
    assert_eq!(subroute_args("mod/x.jar"), vec!["od", "x.jar"]);
}

#[test]
fn subroute_args_join_back() {
    for url in ["/sub/a/b", "/", "/a//b/", "xyz"] {
        assert_eq!(subroute_args(url).join("/"), url[1..]);
    }
}

#[test]
fn main_route_order() {
    assert!(matches!(main_route("GET", "/a"), MainRoute::A));
    assert!(matches!(main_route("POST", "/a/b"), MainRoute::A));
    match main_route("POST", "/api/login") {
        MainRoute::Api(rest) => assert_eq!(rest, "/login"),
        other => panic!("{:?}", other),
    }
    match main_route("GET", "/api") {
        MainRoute::Api(rest) => assert_eq!(rest, ""),
        other => panic!("{:?}", other),
    }
    assert!(matches!(main_route("GET", "/redirect"), MainRoute::Redirect));
    assert!(matches!(main_route("POST", "/redirect"), MainRoute::NotFound));
    assert!(matches!(main_route("GET", "/index.html"), MainRoute::Public));
    assert!(matches!(main_route("GET", "/ab"), MainRoute::Public));
    assert!(matches!(main_route("DELETE", "/x"), MainRoute::NotFound));
}

#[test]
fn api_route_table() {
    assert!(matches!(api::route("GET", ""), ApiRoute::Root));
    assert!(matches!(api::route("POST", ""), ApiRoute::NotFound));
    assert!(matches!(api::route("PUT", "/echo"), ApiRoute::Echo));
    assert!(matches!(api::route("GET", "/ip_log"), ApiRoute::IpLog));
    assert!(matches!(api::route("POST", "/ip_log"), ApiRoute::NotFound));
    match api::route("GET", "/sub/x/y") {
        ApiRoute::Sub(text) => assert_eq!(text, "sub x y"),
        other => panic!("{:?}", other),
    }
    match api::route("POST", "/sub") {
        ApiRoute::Sub(text) => assert_eq!(text, "sub"),
        other => panic!("{:?}", other),
    }
    match api::route("POST", "/upload") {
        ApiRoute::Upload(name) => assert_eq!(name, "upload"),
        other => panic!("{:?}", other),
    }
    assert!(matches!(api::route("GET", "/upload"), ApiRoute::NotFound));
    assert!(matches!(api::route("GET", "/subway"), ApiRoute::NotFound));
}

#[test]
fn api_dispatch_to_login() {
    match api::dispatch("/login/x") {
        ApiDispatch::Login(rest) => assert_eq!(rest, "/x"),
        other => panic!("{:?}", other),
    }
    match api::dispatch("/login") {
        ApiDispatch::Login(rest) => assert_eq!(rest, ""),
        other => panic!("{:?}", other),
    }
    assert!(matches!(api::dispatch("/logins"), ApiDispatch::NotFound));
    assert_eq!(api::PATH, "/api");
}

#[test]
fn login_route_table() {
    assert!(matches!(login::route("POST", ""), LoginRoute::Post));
    assert!(matches!(login::route("GET", ""), LoginRoute::Get));
    assert!(matches!(login::route("PUT", ""), LoginRoute::NotFound));
    assert!(matches!(login::route("GET", "/x"), LoginRoute::NotFound));
    assert_eq!(login::PATH, "/login");
}

#[test]
fn fssa_route_table() {
    assert!(matches!(fssa::route("GET", "release"), FssaRoute::Release));
    assert!(matches!(fssa::route("POST", "release"), FssaRoute::NotFound));
    match fssa::route("GET", "mod/x.jar") {
        FssaRoute::Mod(name) => assert_eq!(name, "od"),
        other => panic!("{:?}", other),
    }
    match fssa::route("GET", "mod") {
        FssaRoute::Mod(name) => assert_eq!(name, "od"),
        other => panic!("{:?}", other),
    }
    assert!(matches!(fssa::route("GET", "mods"), FssaRoute::NotFound));
    assert_eq!(fssa::PATH, "fssa");
}

#[test]
fn public_plan_redirects_directory_without_slash() {
    match public_plan("/docs", "/docs", true) {
        PublicPlan::Redirect(location) => assert_eq!(location, "/docs/"),
        other => panic!("{:?}", other),
    }
}

#[test]
fn public_plan_serves_index_of_directory() {
    match public_plan("/docs", "/docs/", true) {
        PublicPlan::ServeIndex(dir) => assert_eq!(dir, "./public/docs"),
        other => panic!("{:?}", other),
    }
}

#[test]
fn public_plan_serves_file() {
    match public_plan("/style.css", "/style.css", false) {
        PublicPlan::ServeFile(path) => assert_eq!(path, "./public/style.css"),
        other => panic!("{:?}", other),
    }
}
