use juno::http::Method;
use juno::routes::{create_app, server_routes, Endpoint, Router};

#[test]
fn app_index_takes_get_only() {
    let app = create_app();
    assert_eq!(app.resolve(Method::Get, "/"), Endpoint::Index);
    assert_eq!(app.resolve(Method::Post, "/"), Endpoint::MethodNotAllowed);
    assert_eq!(app.resolve(Method::Other, "/"), Endpoint::MethodNotAllowed);
}

#[test]
fn app_agent_routes_take_post() {
    let app = create_app();
    assert_eq!(app.resolve(Method::Post, "/agents/data"), Endpoint::Data);
    assert_eq!(app.resolve(Method::Post, "/agents/register"), Endpoint::Register);
}

#[test]
fn app_get_of_post_route_gets_not_found_page() {
    let app = create_app();
    assert_eq!(app.resolve(Method::Get, "/agents/data"), Endpoint::NotFound);
    assert_eq!(app.resolve(Method::Other, "/agents/register"), Endpoint::MethodNotAllowed);
}

#[test]
fn app_stream_takes_any_method() {
    let app = create_app();
    assert_eq!(app.resolve(Method::Get, "/agents/stream"), Endpoint::Stream);
    assert_eq!(app.resolve(Method::Post, "/agents/stream"), Endpoint::Stream);
    assert_eq!(app.resolve(Method::Other, "/agents/stream"), Endpoint::Stream);
}

#[test]
fn app_static_prefix_matches_whole_segments() {
    let app = create_app();
    assert_eq!(app.resolve(Method::Get, "/static"), Endpoint::StaticFiles);
    assert_eq!(app.resolve(Method::Get, "/static/"), Endpoint::StaticFiles);
    assert_eq!(app.resolve(Method::Get, "/static/css/site.css"), Endpoint::StaticFiles);
    assert_eq!(app.resolve(Method::Post, "/static/x"), Endpoint::StaticFiles);
    assert_eq!(app.resolve(Method::Get, "/statics"), Endpoint::NotFound);
}

#[test]
fn app_unknown_paths_fall_back() {
    let app = create_app();
    assert_eq!(app.resolve(Method::Get, "/nowhere"), Endpoint::NotFound);
    assert_eq!(app.resolve(Method::Post, "/nowhere"), Endpoint::MethodNotAllowed);
    assert_eq!(app.resolve(Method::Get, "/data"), Endpoint::NotFound);
    assert_eq!(app.resolve(Method::Get, ""), Endpoint::NotFound);
    assert_eq!(app.resolve(Method::Get, "/agents/data/"), Endpoint::NotFound);
}

#[test]
fn server_routes_sit_at_root() {
    let server = server_routes();
    assert_eq!(server.resolve(Method::Get, "/"), Endpoint::Index);
    assert_eq!(server.resolve(Method::Post, "/data"), Endpoint::Data);
    assert_eq!(server.resolve(Method::Post, "/register"), Endpoint::Register);
    assert_eq!(server.resolve(Method::Get, "/stream"), Endpoint::Stream);
    assert_eq!(server.resolve(Method::Post, "/agents/data"), Endpoint::MethodNotAllowed);
    assert_eq!(server.resolve(Method::Get, "/static/a.js"), Endpoint::StaticFiles);
}

#[test]
fn first_matching_entry_decides() {
    let router = Router::new()
        .resource("/a", Some(Method::Post), Endpoint::Data)
        .resource("/a", Some(Method::Get), Endpoint::Index);
    // the first entry takes the path, its guard refuses GET: fallback
    assert_eq!(router.resolve(Method::Get, "/a"), Endpoint::NotFound);
    assert_eq!(router.resolve(Method::Post, "/a"), Endpoint::Data);
}

#[test]
fn prefix_ending_in_slash_takes_anything_below() {
    let router = Router::new().handler("/files/", Endpoint::StaticFiles);
    assert_eq!(router.resolve(Method::Get, "/files/x"), Endpoint::StaticFiles);
    assert_eq!(router.resolve(Method::Get, "/files/"), Endpoint::StaticFiles);
    assert_eq!(router.resolve(Method::Get, "/files"), Endpoint::NotFound);
}

#[test]
fn empty_path_counts_as_root_for_prefixes() {
    let router = Router::new().handler("/", Endpoint::StaticFiles);
    assert_eq!(router.resolve(Method::Get, ""), Endpoint::StaticFiles);
    let exact = Router::new().resource("/", None, Endpoint::Index);
    assert_eq!(exact.resolve(Method::Get, ""), Endpoint::NotFound);
}

#[test]
fn empty_router_always_falls_back() {
    let router = Router::new();
    assert_eq!(router.resolve(Method::Get, "/"), Endpoint::NotFound);
    assert_eq!(router.resolve(Method::Other, "/x"), Endpoint::MethodNotAllowed);
}

#[test]
fn non_ascii_paths_compare_by_character() {
    let router = Router::new().resource("/ünï", Some(Method::Get), Endpoint::Index);
    assert_eq!(router.resolve(Method::Get, "/ünï"), Endpoint::Index);
    assert_eq!(router.resolve(Method::Get, "/uni"), Endpoint::NotFound);
}
