use lyrion::plugins::manager::{find_shared_library, library_extensions, PluginManager};
use lyrion::plugins::registry::PluginRegistry;
use lyrion::plugins::{HttpRoute, PluginConfig, PluginError, PluginManifest, PluginState};

fn config(data: &str, plugins: &str) -> PluginConfig {
    PluginConfig {
        server_version: "0.1.0".to_string(),
        data_dir: data.to_string(),
        plugin_dir: plugins.to_string(),
        base_url: "http://localhost:9000".to_string(),
    }
}

fn manifest(name: &str, deps: &[&str]) -> PluginManifest {
    PluginManifest {
        name: name.to_string(),
        version: "1.0.0".to_string(),
        author: "test".to_string(),
        description: None,
        min_server_version: None,
        dependencies: deps.iter().map(|d| d.to_string()).collect(),
        capabilities: vec![],
        enforced: false,
    }
}

fn route(method: &str, path: &str, handler: &str) -> HttpRoute {
    HttpRoute { method: method.to_string(), path: path.to_string(), handler_id: handler.to_string() }
}

#[test]
fn plugin_loading_test_manager_creation() {
    let config = config("/tmp/lyrion-test", "/tmp/lyrion-test/plugins");
    let manager = PluginManager::new(config);
    assert_eq!(manager.list_plugins().len(), 0);
}

#[test]
fn manager_test_manager_creation() {
    let config = config("/tmp/data", "/tmp/plugins");
    let manager = PluginManager::new(config);
    assert_eq!(manager.list_plugins().iter().filter(|m| manager.is_loaded(&m.name)).count(), 0);
    assert_eq!(manager.list_plugins().len(), 0);
}

#[test]
fn test_registry_routing() {
    let mut registry = PluginRegistry::new();

    let routes = vec![
        HttpRoute {
            method: "GET".to_string(),
            path: "/plugins/test/status".to_string(),
            handler_id: "status".to_string(),
        },
        HttpRoute {
            method: "POST".to_string(),
            path: "/plugins/test/action".to_string(),
            handler_id: "action".to_string(),
        },
    ];

    registry.register_http_routes("test_plugin", routes);

    assert_eq!(registry.route_http_request("GET", "/plugins/test/status"), Some(("test_plugin", "status")));
    assert_eq!(registry.route_http_request("POST", "/plugins/test/status"), None);
    assert_eq!(registry.route_http_request("GET", "/plugins/test/unknown"), None);
}

#[test]
fn test_registry_patterns() {
    let mut registry = PluginRegistry::new();

    registry.register_http_routes(
        "test_plugin",
        vec![HttpRoute {
            method: "GET".to_string(),
            path: "/plugins/:name/status".to_string(),
            handler_id: "status".to_string(),
        }],
    );

    assert_eq!(registry.route_http_request("GET", "/plugins/foo/status"), Some(("test_plugin", "status")));
    assert_eq!(registry.route_http_request("GET", "/plugins/bar/status"), Some(("test_plugin", "status")));
}

#[test]
fn test_registry_wildcard() {
    let mut registry = PluginRegistry::new();

    registry.register_http_routes(
        "test_plugin",
        vec![HttpRoute {
            method: "GET".to_string(),
            path: "/plugins/test/*".to_string(),
            handler_id: "catch_all".to_string(),
        }],
    );

    assert_eq!(
        registry.route_http_request("GET", "/plugins/test/anything/here"),
        Some(("test_plugin", "catch_all"))
    );
    assert_eq!(
        registry.route_http_request("GET", "/plugins/test/deeply/nested/path"),
        Some(("test_plugin", "catch_all"))
    );
}

#[test]
fn test_cli_commands() {
    let mut registry = PluginRegistry::new();

    registry.register_cli_command("test_plugin", "test-command");
    registry.register_cli_command("other_plugin", "other-command");

    assert_eq!(registry.find_command_handler("test-command"), Some("test_plugin"));
    assert_eq!(registry.find_command_handler("other-command"), Some("other_plugin"));
    assert_eq!(registry.find_command_handler("unknown-command"), None);
}

#[test]
fn test_plugin_unregister() {
    let mut registry = PluginRegistry::new();

    registry.register_http_routes(
        "test_plugin",
        vec![HttpRoute {
            method: "GET".to_string(),
            path: "/plugins/test/status".to_string(),
            handler_id: "status".to_string(),
        }],
    );
    registry.register_cli_command("test_plugin", "test-command");

    assert!(registry.route_http_request("GET", "/plugins/test/status").is_some());
    assert!(registry.find_command_handler("test-command").is_some());

    registry.unregister_plugin("test_plugin");

    assert!(registry.route_http_request("GET", "/plugins/test/status").is_none());
    assert!(registry.find_command_handler("test-command").is_none());
}

#[test]
fn plugin_loading_test_capabilities() {
    let mut registry = PluginRegistry::new();

    registry.register_capabilities("test_plugin", vec!["http".to_string(), "cli".to_string()]);

    assert!(registry.has_capability("test_plugin", "http"));
    assert!(registry.has_capability("test_plugin", "cli"));
    assert!(!registry.has_capability("test_plugin", "wasm"));
    assert!(!registry.has_capability("other_plugin", "http"));
}

#[test]
fn test_listing() {
    let mut registry = PluginRegistry::new();

    registry.register_http_routes(
        "plugin1",
        vec![HttpRoute {
            method: "GET".to_string(),
            path: "/plugins/plugin1/test".to_string(),
            handler_id: "test".to_string(),
        }],
    );

    registry.register_http_routes(
        "plugin2",
        vec![HttpRoute {
            method: "POST".to_string(),
            path: "/plugins/plugin2/action".to_string(),
            handler_id: "action".to_string(),
        }],
    );

    registry.register_cli_command("plugin1", "cmd1");
    registry.register_cli_command("plugin2", "cmd2");

    let http_routes = registry.list_http_routes();
    assert_eq!(http_routes.len(), 2);

    let cli_commands = registry.list_cli_commands();
    assert_eq!(cli_commands.len(), 2);
}

#[test]
fn test_duplicate_route_warning() {
    let mut registry = PluginRegistry::new();

    registry.register_http_routes(
        "plugin1",
        vec![HttpRoute {
            method: "GET".to_string(),
            path: "/plugins/test/status".to_string(),
            handler_id: "handler1".to_string(),
        }],
    );

    registry.register_http_routes(
        "plugin2",
        vec![HttpRoute {
            method: "GET".to_string(),
            path: "/plugins/test/status".to_string(),
            handler_id: "handler2".to_string(),
        }],
    );

    assert_eq!(registry.route_http_request("GET", "/plugins/test/status"), Some(("plugin2", "handler2")));
}

#[test]
fn load_checks_name_and_dependencies() {
    let mut manager = PluginManager::new(config("/d", "/p"));
    match manager.check_load(&manifest("b", &["a"])) {
        Err(PluginError::MissingDependency(m)) => assert_eq!(m, "Plugin b requires a"),
        other => panic!("unexpected {:?}", other),
    }
    assert_eq!(manager.load_plugin(manifest("a", &[]), vec![route("GET", "/plugins/a", "h")]).unwrap(), "a");
    assert!(manager.check_load(&manifest("b", &["a"])).is_ok());
    match manager.check_load(&manifest("a", &[])) {
        Err(PluginError::AlreadyLoaded(m)) => assert_eq!(m, "a"),
        other => panic!("unexpected {:?}", other),
    }
    match manager.load_plugin(manifest("a", &[]), vec![]) {
        Err(e) => assert_eq!(e.message(), "Plugin already loaded: a"),
        Ok(_) => panic!("loaded twice"),
    }
    assert_eq!(manager.get_state("a"), Some(PluginState::Loaded));
    assert_eq!(manager.get_state("b"), None);
    assert_eq!(manager.registry().route_http_request("GET", "/plugins/a"), Some(("a", "h")));
    assert_eq!(manager.list_plugins().len(), 1);
}

#[test]
fn unload_forgets_routes_and_marks_state() {
    let mut manager = PluginManager::new(config("/d", "/p"));
    manager.load_plugin(manifest("a", &[]), vec![route("GET", "/plugins/a", "h")]).unwrap();
    manager.registry_mut().register_cli_command("a", "cmd-a");
    assert_eq!(manager.registry().find_command_handler("cmd-a"), Some("a"));
    assert!(manager.unload_plugin("a").is_ok());
    assert_eq!(manager.get_state("a"), Some(PluginState::Unloaded));
    assert_eq!(manager.registry().route_http_request("GET", "/plugins/a"), None);
    assert_eq!(manager.registry().find_command_handler("cmd-a"), None);
    match manager.unload_plugin("a") {
        Err(PluginError::NotFound(m)) => assert_eq!(m, "a"),
        other => panic!("unexpected {:?}", other),
    }
}

#[test]
fn shutdown_all_unloads_everything() {
    let mut manager = PluginManager::new(config("/d", "/p"));
    manager.load_plugin(manifest("a", &[]), vec![route("GET", "/a", "ha")]).unwrap();
    manager.load_plugin(manifest("b", &["a"]), vec![route("GET", "/b", "hb")]).unwrap();
    manager.shutdown_all();
    assert_eq!(manager.list_plugins().len(), 0);
    assert_eq!(manager.get_state("a"), Some(PluginState::Unloaded));
    assert_eq!(manager.get_state("b"), Some(PluginState::Unloaded));
    assert_eq!(manager.registry().route_http_request("GET", "/a"), None);
    assert_eq!(manager.registry().route_http_request("GET", "/b"), None);
}

// The load order puts each plugin after the plugins it depends on; those
// waiting on a missing or circular dependency come last, in their order.
#[test]
fn dependency_order_examples() {
    let ms = vec![manifest("c", &["b"]), manifest("b", &["a"]), manifest("a", &[])];
    assert_eq!(PluginManager::sort_by_dependencies(&ms), vec![2, 1, 0]);

    let ms = vec![manifest("a", &[]), manifest("b", &["a"])];
    assert_eq!(PluginManager::sort_by_dependencies(&ms), vec![0, 1]);

    let ms = vec![
        manifest("x", &["y"]),
        manifest("y", &["x"]),
        manifest("z", &[]),
        manifest("w", &["missing"]),
    ];
    assert_eq!(PluginManager::sort_by_dependencies(&ms), vec![2, 0, 1, 3]);

    let ms: Vec<PluginManifest> = vec![];
    assert_eq!(PluginManager::sort_by_dependencies(&ms), Vec::<usize>::new());
}

#[test]
fn reload_target_is_first_with_name() {
    let ms = vec![manifest("a", &[]), manifest("b", &[]), manifest("b", &["a"])];
    assert_eq!(PluginManager::reload_target(&ms, "b").unwrap(), 1);
    match PluginManager::reload_target(&ms, "c") {
        Err(PluginError::NotFound(m)) => assert_eq!(m, "c"),
        other => panic!("unexpected {:?}", other),
    }
}

#[test]
fn shared_library_by_platform() {
    assert_eq!(library_extensions("linux"), vec!["so".to_string()]);
    assert_eq!(library_extensions("macos"), vec!["dylib".to_string()]);
    assert_eq!(library_extensions("windows"), vec!["dll".to_string()]);
    assert_eq!(library_extensions("freebsd"), vec!["so".to_string(), "dylib".to_string(), "dll".to_string()]);
    let entries = vec![Some("toml".to_string()), None, Some("dll".to_string()), Some("so".to_string())];
    assert_eq!(find_shared_library("/p/x", &entries, "linux").unwrap(), 3);
    assert_eq!(find_shared_library("/p/x", &entries, "freebsd").unwrap(), 2);
    match find_shared_library("/p/x", &entries, "macos") {
        Err(PluginError::LoadError(m)) => assert_eq!(m, "No shared library found in /p/x"),
        other => panic!("unexpected {:?}", other),
    }
}
