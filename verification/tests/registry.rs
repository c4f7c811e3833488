use lyrion::plugins::registry::PluginRegistry;
use lyrion::plugins::HttpRoute;

fn route(method: &str, path: &str, handler: &str) -> HttpRoute {
    HttpRoute { method: method.to_string(), path: path.to_string(), handler_id: handler.to_string() }
}

#[test]
fn test_http_route_registration() {
    let mut registry = PluginRegistry::new();

    let routes = vec![
        HttpRoute {
            method: "GET".to_string(),
            path: "/plugins/test/status".to_string(),
            handler_id: "status".to_string(),
        },
        HttpRoute {
            method: "POST".to_string(),
            path: "/plugins/test/action".to_string(),
            handler_id: "action".to_string(),
        },
    ];

    registry.register_http_routes("test_plugin", routes);

    assert_eq!(registry.route_http_request("GET", "/plugins/test/status"), Some(("test_plugin", "status")));
    assert_eq!(registry.route_http_request("POST", "/plugins/test/action"), Some(("test_plugin", "action")));
    assert_eq!(registry.route_http_request("GET", "/plugins/test/unknown"), None);
}

#[test]
fn test_pattern_matching() {
    let mut registry = PluginRegistry::new();

    let routes = vec![HttpRoute {
        method: "GET".to_string(),
        path: "/plugins/:name/status".to_string(),
        handler_id: "status".to_string(),
    }];

    registry.register_http_routes("test_plugin", routes);

    assert_eq!(registry.route_http_request("GET", "/plugins/foo/status"), Some(("test_plugin", "status")));
    assert_eq!(registry.route_http_request("GET", "/plugins/bar/status"), Some(("test_plugin", "status")));
}

#[test]
fn test_wildcard_matching() {
    let mut registry = PluginRegistry::new();

    let routes = vec![HttpRoute {
        method: "GET".to_string(),
        path: "/plugins/test/*".to_string(),
        handler_id: "catch_all".to_string(),
    }];

    registry.register_http_routes("test_plugin", routes);

    assert_eq!(
        registry.route_http_request("GET", "/plugins/test/anything/here"),
        Some(("test_plugin", "catch_all"))
    );
}

#[test]
fn test_cli_command_registration() {
    let mut registry = PluginRegistry::new();

    registry.register_cli_command("test_plugin", "test-command");

    assert_eq!(registry.find_command_handler("test-command"), Some("test_plugin"));
    assert_eq!(registry.find_command_handler("unknown"), None);
}

#[test]
fn registry_test_capabilities() {
    let mut registry = PluginRegistry::new();

    registry.register_capabilities("test_plugin", vec!["http".to_string(), "cli".to_string()]);

    assert!(registry.has_capability("test_plugin", "http"));
    assert!(registry.has_capability("test_plugin", "cli"));
    assert!(!registry.has_capability("test_plugin", "wasm"));
}

#[test]
fn test_unregister_plugin() {
    let mut registry = PluginRegistry::new();

    registry.register_http_routes(
        "test_plugin",
        vec![HttpRoute { method: "GET".to_string(), path: "/test".to_string(), handler_id: "handler".to_string() }],
    );

    registry.register_cli_command("test_plugin", "test-cmd");

    registry.unregister_plugin("test_plugin");

    assert_eq!(registry.route_http_request("GET", "/test"), None);
    assert_eq!(registry.find_command_handler("test-cmd"), None);
}

// A route registered for a method and path is what a request for them finds.
#[test]
fn registered_route_is_found_again() {
    let mut registry = PluginRegistry::new();
    registry.register_http_routes("a", vec![route("GET", "/x/y", "h1"), route("PUT", "/x/y", "h2")]);
    registry.register_http_routes("b", vec![route("GET", "/z", "h3")]);
    assert_eq!(registry.route_http_request("GET", "/x/y"), Some(("a", "h1")));
    assert_eq!(registry.route_http_request("PUT", "/x/y"), Some(("a", "h2")));
    assert_eq!(registry.route_http_request("GET", "/z"), Some(("b", "h3")));
}

// An exact route wins over a pattern that matches the same path.
#[test]
fn exact_route_wins_over_pattern() {
    let mut registry = PluginRegistry::new();
    registry.register_http_routes("p", vec![route("GET", "/plugins/:name/status", "pattern")]);
    registry.register_http_routes("e", vec![route("GET", "/plugins/foo/status", "exact")]);
    assert_eq!(registry.route_http_request("GET", "/plugins/foo/status"), Some(("e", "exact")));
    assert_eq!(registry.route_http_request("GET", "/plugins/bar/status"), Some(("p", "pattern")));
    assert_eq!(registry.route_http_request("POST", "/plugins/bar/status"), None);
}

#[test]
fn pattern_piece_counts_must_agree() {
    assert!(PluginRegistry::matches_pattern("/a/:b", "/a/x"));
    assert!(!PluginRegistry::matches_pattern("/a/:b", "/a/x/y"));
    assert!(PluginRegistry::matches_pattern("/a/*", "/a/x/y/z"));
    assert!(PluginRegistry::matches_pattern("/a/*", "/a"));
    assert!(!PluginRegistry::matches_pattern("/a/b", "/a/c"));
}

#[test]
fn capabilities_of_unknown_plugin() {
    let mut registry = PluginRegistry::new();
    assert_eq!(registry.get_capabilities("none"), None);
    registry.register_capabilities("p", vec!["x".to_string()]);
    assert_eq!(registry.get_capabilities("p").map(|c| c.len()), Some(1));
    registry.unregister_plugin("p");
    assert_eq!(registry.get_capabilities("p"), None);
    assert!(!registry.has_capability("p", "x"));
}

#[test]
fn unregister_keeps_other_plugins() {
    let mut registry = PluginRegistry::new();
    registry.register_http_routes("a", vec![route("GET", "/a", "ha")]);
    registry.register_http_routes("b", vec![route("GET", "/b", "hb")]);
    registry.register_cli_command("a", "ca");
    registry.register_cli_command("b", "cb");
    registry.unregister_plugin("a");
    assert_eq!(registry.route_http_request("GET", "/a"), None);
    assert_eq!(registry.route_http_request("GET", "/b"), Some(("b", "hb")));
    assert_eq!(registry.find_command_handler("ca"), None);
    assert_eq!(registry.find_command_handler("cb"), Some("b"));
    assert_eq!(registry.list_http_routes().len(), 1);
    assert_eq!(registry.list_cli_commands().len(), 1);
}

// Unregistering a plugin also drops a route it took over from another.
#[test]
fn unregister_after_takeover() {
    let mut registry = PluginRegistry::new();
    registry.register_http_routes("q", vec![route("GET", "/shared", "hq"), route("GET", "/own", "ho")]);
    registry.register_http_routes("p", vec![route("GET", "/shared", "hp")]);
    registry.unregister_plugin("p");
    assert_eq!(registry.route_http_request("GET", "/shared"), None);
    assert_eq!(registry.route_http_request("GET", "/own"), Some(("q", "ho")));
}

#[test]
fn trailing_star_matches_longer_paths_only() {
    let mut registry = PluginRegistry::new();
    registry.register_http_routes("test_plugin", vec![route("GET", "/plugins/test/*", "catch_all")]);
    let hit = Some(("test_plugin", "catch_all"));
    assert_eq!(registry.route_http_request("GET", "/plugins/test/deeply/nested/path"), hit);
    assert_eq!(registry.route_http_request("GET", "/plugins/test"), hit);
    // with as many pieces as the pattern, `*` is compared as it stands
    assert_eq!(registry.route_http_request("GET", "/plugins/test/anything"), None);
    assert_eq!(registry.route_http_request("GET", "/plugins/test/*"), hit);
    assert_eq!(registry.route_http_request("GET", "/plugins/other/a/b"), None);
    assert!(PluginRegistry::matches_pattern("/a/:id/*", "/a/7/b/c"));
    assert!(!PluginRegistry::matches_pattern("/a/b", "/a/b/c"));
    assert!(!PluginRegistry::matches_pattern("/a/:id", "/a"));
}
