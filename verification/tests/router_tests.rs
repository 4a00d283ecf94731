use webgal_craft::router::{content_uri, route_request, RouteDecision};

#[test]
fn sync_endpoint_routes_to_upgrade() {
    match route_request("/api/webgalsync") {
        RouteDecision::Sync => (),
        _ => panic!("expected the sync upgrade"),
    }
}

#[test]
fn bare_site_url_redirects_to_trailing_slash() {
    match route_request("/game/abc123") {
        RouteDecision::RedirectToSlash { target } => assert_eq!(target, "/game/abc123/"),
        _ => panic!("expected a permanent redirect"),
    }
}

#[test]
fn slash_terminated_site_url_serves_the_index() {
    match route_request("/game/abc123/") {
        RouteDecision::StaticRoot { id } => assert_eq!(id, "abc123"),
        _ => panic!("expected the site index"),
    }
}

#[test]
fn site_subpath_routes_to_the_file() {
    match route_request("/game/abc123/assets/bg.png") {
        RouteDecision::StaticPath { id, rest } => {
            assert_eq!(id, "abc123");
            assert_eq!(rest, "assets/bg.png");
        },
        _ => panic!("expected a file of the site"),
    }
}

#[test]
fn unknown_paths_are_not_found() {
    assert!(matches!(route_request("/"), RouteDecision::NotFound));
    assert!(matches!(route_request("/other"), RouteDecision::NotFound));
    assert!(matches!(route_request("/game/"), RouteDecision::NotFound));
    assert!(matches!(route_request("/game//x"), RouteDecision::NotFound));
    assert!(matches!(route_request("/api/webgalsyncx"), RouteDecision::NotFound));
}

#[test]
fn content_uri_keeps_plain_segments() {
    assert_eq!(content_uri("index.html"), "/index.html");
    assert_eq!(content_uri("assets/bg.png"), "/assets/bg.png");
}

#[test]
fn content_uri_percent_encodes_segments() {
    assert_eq!(content_uri("a b/c"), "/a%20b/c");
    assert_eq!(content_uri("100%?.txt"), "/100%25%3F.txt");
}

#[test]
fn content_uri_encodes_multibyte_characters_bytewise() {
    // U+6F22 is encoded as the three UTF-8 bytes E6 BC A2
    assert_eq!(content_uri("\u{6f22}.png"), "/%E6%BC%A2.png");
}

#[test]
fn content_uri_of_empty_subpath_is_the_root() {
    assert_eq!(content_uri(""), "/");
}

#[test]
fn content_uri_keeps_empty_segments() {
    assert_eq!(content_uri("a//b"), "/a//b");
}
