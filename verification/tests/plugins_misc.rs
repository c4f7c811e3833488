use lyrion::plugins::perl::{execution_result, PerlPlugin};
use lyrion::plugins::{HttpResponse, PluginError};
use lyrion::randomplay::{CommandOutcome, HttpOutcome, RandomMode, RandomPlayPlugin, RandomQuery, SETTINGS_SCHEMA};

#[test]
fn test_xml_parsing() {
    let xml = r#"
            <extension>
                <name>PLUGIN_RANDOMPLAY</name>
                <version>2.0</version>
                <description>PLUGIN_RANDOMPLAY_DESC</description>
                <creator>Logitech</creator>
                <minTarget>7.6</minTarget>
            </extension>
        "#;

    let name = PerlPlugin::extract_xml_tag(xml, "name");
    assert_eq!(name, Some("PLUGIN_RANDOMPLAY".to_string()));

    let version = PerlPlugin::extract_xml_tag(xml, "version");
    assert_eq!(version, Some("2.0".to_string()));

    let creator = PerlPlugin::extract_xml_tag(xml, "creator");
    assert_eq!(creator, Some("Logitech".to_string()));
}

#[test]
fn install_xml_defaults_and_module() {
    let xml = "<extension><name> X </name><minTarget>7.9</minTarget></extension>";
    let p = PerlPlugin::load("RandomPlay", "/slim/Slim/Plugin/RandomPlay".to_string(), xml);
    assert_eq!(p.name(), "RandomPlay");
    let m = p.manifest();
    assert_eq!(m.name, "X");
    assert_eq!(m.version, "0.0.0");
    assert_eq!(m.author, "Unknown");
    assert_eq!(m.description, None);
    assert_eq!(m.min_server_version, Some("7.9".to_string()));
    assert_eq!(m.capabilities, vec!["perl".to_string()]);
    assert_eq!(PerlPlugin::module_name_for("RandomPlay"), "Slim::Plugin::RandomPlay::Plugin");
    assert_eq!(PerlPlugin::extract_xml_tag("<a>1</a>", "b"), None);
    assert_eq!(PerlPlugin::extract_xml_tag("<a>1", "a"), None);
    let p = PerlPlugin::load("P", "/x".to_string(), "");
    assert_eq!(p.manifest().name, "Unknown Plugin");
}

#[test]
fn perl_lifecycle_and_script() {
    let mut p = PerlPlugin::load("Foo", "/x".to_string(), "<name>Foo</name>");
    assert!(!p.initialized());
    assert!(p.init().is_ok());
    assert!(p.initialized());
    p.shutdown();
    assert!(!p.initialized());
    let s = p.perl_script("status", "{}");
    assert!(s.contains("use Slim::Plugin::Foo::Plugin;"));
    assert!(s.contains("my $args = decode_json('{}');"));
    assert!(s.contains("$result = $plugin->status($args);"));
    assert!(s.contains("Method status not found"));
}

#[test]
fn perl_execution_outcomes() {
    match execution_result(Some("no such file"), false, b"", b"") {
        Err(PluginError::LoadError(m)) => assert_eq!(m, "Failed to execute Perl: no such file"),
        other => panic!("unexpected {:?}", other),
    }
    match execution_result(None, false, b"out", b"boom") {
        Err(PluginError::InitializationError(m)) => assert_eq!(m, "Perl execution failed: boom"),
        other => panic!("unexpected {:?}", other),
    }
    assert_eq!(execution_result(None, true, b"{\"ok\":1}", b"").unwrap(), "{\"ok\":1}");
    assert_eq!(execution_result(None, true, &[0x66, 0xff], b"").unwrap(), "f\u{fffd}");
}

#[test]
fn test_plugin_manifest() {
    let plugin = RandomPlayPlugin::new();
    let manifest = plugin.manifest();
    assert_eq!(manifest.name, "RandomPlay");
    assert_eq!(manifest.version, "1.0.0");
    assert!(manifest.capabilities.contains(&"cli".to_string()));
    assert!(manifest.capabilities.contains(&"http".to_string()));
}

#[test]
fn test_http_routes() {
    let plugin = RandomPlayPlugin::new();
    let routes = plugin.http_routes();
    assert_eq!(routes.len(), 4);
    assert!(routes.iter().any(|r| r.path == "/plugins/randomplay/tracks"));
    assert!(routes.iter().any(|r| r.path == "/plugins/randomplay/albums"));
}

fn params(v: &[(&str, &str)]) -> Vec<(String, String)> {
    v.iter().map(|(k, x)| (k.to_string(), x.to_string())).collect()
}

#[test]
fn random_commands() {
    let mut plugin = RandomPlayPlugin::new();
    assert!(matches!(plugin.handle_command("randomplay", &[]), CommandOutcome::Unhandled));
    plugin.init(Some("35")).unwrap();
    assert_eq!(plugin.track_count, 35);
    assert!(matches!(plugin.handle_command("other", &[]), CommandOutcome::Unhandled));
    match plugin.handle_command("randomplay", &[]) {
        CommandOutcome::Draw(q) => assert_eq!(q, RandomQuery { mode: RandomMode::Tracks, limit: 35 }),
        other => panic!("unexpected {:?}", other),
    }
    match plugin.handle_command("randomplay", &params(&[("mode", "tracks"), ("count", "7")])) {
        CommandOutcome::Draw(q) => assert_eq!(q, RandomQuery { mode: RandomMode::Tracks, limit: 7 }),
        other => panic!("unexpected {:?}", other),
    }
    match plugin.handle_command("randomplay", &params(&[("mode", "albums"), ("count", "7")])) {
        CommandOutcome::Draw(q) => assert_eq!(q, RandomQuery { mode: RandomMode::Albums, limit: 5 }),
        other => panic!("unexpected {:?}", other),
    }
    match plugin.handle_command("randomplay", &params(&[("mode", "years"), ("count", "x")])) {
        CommandOutcome::Draw(q) => assert_eq!(q, RandomQuery { mode: RandomMode::Years, limit: 10 }),
        other => panic!("unexpected {:?}", other),
    }
    match plugin.handle_command("randomplay", &params(&[("mode", "genres")])) {
        CommandOutcome::Reply(t) => assert_eq!(t, "Error: Plugin initialization failed: Unknown mode: genres"),
        other => panic!("unexpected {:?}", other),
    }
    plugin.init(Some("lots")).unwrap();
    assert_eq!(plugin.track_count, 35);
    plugin.shutdown();
    assert!(!plugin.connected);
    assert_eq!(RandomMode::Artists.name(), "artists");
}

#[test]
fn random_http_requests() {
    let mut plugin = RandomPlayPlugin::new();
    assert_eq!(
        plugin.handle_http_request("/plugins/randomplay/tracks", &[]).err(),
        Some("Database not initialized".to_string())
    );
    plugin.init(None).unwrap();
    assert_eq!(plugin.track_count, 20);
    match plugin.handle_http_request("/plugins/randomplay/artists", &params(&[("count", "3")])) {
        Ok(HttpOutcome::Draw(q)) => assert_eq!(q, RandomQuery { mode: RandomMode::Artists, limit: 10 }),
        other => panic!("unexpected {:?}", other),
    }
    match plugin.handle_http_request("/plugins/randomplay/tracks", &params(&[("count", "3")])) {
        Ok(HttpOutcome::Draw(q)) => assert_eq!(q, RandomQuery { mode: RandomMode::Tracks, limit: 3 }),
        other => panic!("unexpected {:?}", other),
    }
    match plugin.handle_http_request("/plugins/randomplay/nope", &[]) {
        Ok(HttpOutcome::Respond(HttpResponse { status, body, .. })) => {
            assert_eq!(status, 500);
            assert_eq!(body, b"Error: Plugin initialization failed: Unknown endpoint".to_vec());
        }
        other => panic!("unexpected {:?}", other),
    }
    assert_eq!(plugin.settings_schema().as_deref(), Some(SETTINGS_SCHEMA));
    assert!(SETTINGS_SCHEMA.contains("\"default\": 20"));
}

#[test]
fn error_texts() {
    assert_eq!(PluginError::NotFound("x".to_string()).message(), "Plugin not found: x");
    assert_eq!(PluginError::from("y".to_string()).message(), "Plugin initialization failed: y");
    let r = HttpResponse::error(404, "nope");
    assert_eq!((r.status, r.body.as_slice()), (404, &b"nope"[..]));
    assert_eq!(HttpResponse::json_body(b"{}".to_vec()).headers[0].1, "application/json");
}
