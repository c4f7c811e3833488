use lyrion::plugins::registry::PluginRegistry;
use lyrion::plugins::HttpRoute;
use lyrion::server::api::{
    cover_content_type, cover_response, default_limit, default_search_limit, format_mac, format_mac_defined,
    player_display_name,
    player_model, PaginationParams, SearchParams,
};
use lyrion::server::jsonrpc::{
    check_method, new_volume, plan_slim_request, start_command_for, RpcValue, SlimAction, INVALID_PARAMS,
    METHOD_NOT_FOUND,
};
use lyrion::server::playlist::{Playlist, PlaylistManager, PlaylistTrack};
use lyrion::server::plugin_routes::{dispatch, query_params, response_status, PluginDispatch};
use lyrion::server::streaming::{direct_content_type, plan_stream, transcoded_content_type, StreamParams};
use lyrion::protocol::messages::StreamCommand;

fn s(x: &str) -> RpcValue {
    RpcValue::Str(x.to_string())
}

fn n(x: i64) -> RpcValue {
    RpcValue::Number { signed: Some(x), unsigned: if x >= 0 { Some(x as u64) } else { None }, float_text: x.to_string() }
}

fn req(player: &str, cmd: Vec<RpcValue>) -> Result<SlimAction, (i32, String)> {
    let params = vec![s(player), RpcValue::Array(cmd)];
    plan_slim_request(Some(&params)).map(|r| r.action).map_err(|e| (e.code, e.message))
}

#[test]
fn slim_requests_are_planned() {
    assert!(matches!(req("p", vec![s("status")]), Ok(SlimAction::Status)));
    assert!(matches!(req("p", vec![s("play"), n(42)]), Ok(SlimAction::PlayTrack { track_id: 42 })));
    assert!(matches!(req("p", vec![s("play")]), Ok(SlimAction::Resume)));
    assert!(matches!(req("p", vec![s("pause"), n(0)]), Ok(SlimAction::Unpause)));
    assert!(matches!(req("p", vec![s("pause")]), Ok(SlimAction::Pause)));
    assert!(matches!(req("p", vec![s("mixer"), s("volume"), n(30)]), Ok(SlimAction::Mixer { volume: 30 })));
    assert!(matches!(req("p", vec![s("mixer"), s("volume"), s("+10")]), Ok(SlimAction::Mixer { volume: 60 })));
    assert!(matches!(req("p", vec![s("playlist"), s("shuffle"), n(1)]), Ok(SlimAction::Shuffle { mode: 1 })));
    assert!(matches!(req("p", vec![s("playlistcontrol"), s("cmd:jump"), n(3)]), Ok(SlimAction::PlaylistJump { index: 3 })));
    match req("p", vec![s("frobnicate")]) {
        Ok(a) => assert_eq!(a.unsupported_message(), Some("Command 'frobnicate' not yet implemented".to_string())),
        other => panic!("unexpected {:?}", other),
    }
    assert_eq!(req("p", vec![]).err(), Some((INVALID_PARAMS, "command array cannot be empty".to_string())));
    assert_eq!(req("p", vec![s("play"), s("x")]).err(), Some((INVALID_PARAMS, "track_id must be an integer".to_string())));
    assert_eq!(
        req("p", vec![s("mixer"), s("bass"), n(1)]).err(),
        Some((INVALID_PARAMS, "Unknown mixer subcommand: bass".to_string()))
    );
    assert_eq!(
        plan_slim_request(None).map(|_| ()).map_err(|e| e.message),
        Err("Invalid params".to_string())
    );
    assert_eq!(req("not-a-uuid", vec![s("syncgroupid")]).err(), Some((INVALID_PARAMS, "Invalid player UUID".to_string())));
    assert!(matches!(
        req("00000000-0000-0000-0000-000000000001", vec![s("syncgroupid")]),
        Ok(SlimAction::SyncGroupId { player: 1 })
    ));
}

#[test]
fn methods_and_volumes() {
    assert!(check_method("slim.request").is_ok());
    let e = check_method("other").unwrap_err();
    assert_eq!((e.code, e.message.as_str()), (METHOD_NOT_FOUND, "Method 'other' not found"));
    assert_eq!(new_volume("75"), Ok(75));
    assert_eq!(new_volume("-80"), Ok(0));
    assert_eq!(new_volume("+80"), Ok(100));
    assert_eq!(new_volume("abc"), Err("Invalid volume value".to_string()));
    assert_eq!(new_volume("+x"), Err("Invalid relative volume value".to_string()));
    assert_eq!(new_volume("100"), Ok(100));
    assert_eq!(new_volume("0"), Ok(0));
    assert_eq!(new_volume("150"), Err("Invalid volume value".to_string()));
    assert_eq!(new_volume("101"), Err("Invalid volume value".to_string()));
}

#[test]
fn start_commands() {
    match start_command_for(7, "flac") {
        StreamCommand::Start { format, request_string, server_port, output_threshold, .. } => {
            assert_eq!(format, b'f');
            assert_eq!(output_threshold, 0);
            assert_eq!(server_port, 9000);
            assert_eq!(request_string, "GET /stream/7 HTTP/1.0\r\n\r\n");
        }
        other => panic!("unexpected {:?}", other),
    }
}

#[test]
fn api_helpers() {
    assert_eq!(player_model(12), "SqueezePlay");
    assert_eq!(format_mac("00:04:20:ab:cd:ef"), "CDEF");
    assert_eq!(format_mac("ab"), "AB");
    assert_eq!(format_mac("éé:ab"), "ÉAB");
    assert!(format_mac_defined("00:04:20:ab:cd:ef"));
    assert!(format_mac_defined("é"));
    assert!(!format_mac_defined("é:abc"));
    assert_eq!(player_display_name(4, "00:04:20:ab:cd:ef"), "Squeezebox 2 (CDEF)");
    assert_eq!(default_limit(), 50);
    assert_eq!(default_search_limit(), 100);
    assert_eq!(PaginationParams { limit: 500, offset: 0 }.capped_limit(), 100);
    assert_eq!(PaginationParams { limit: 20, offset: 0 }.capped_limit(), 20);
    assert_eq!(PaginationParams { limit: -1, offset: 0 }.capped_limit(), 0);
    assert_eq!(PaginationParams { limit: 100, offset: 0 }.capped_limit(), 100);
    assert_eq!(SearchParams { q: "Abba".to_string(), limit: 5 }.search_pattern(), "%abba%");
    assert_eq!(cover_response(Some(Some(vec![1, 2]))), Ok(vec![1, 2]));
    assert_eq!(cover_response(Some(None)), Err(404));
    assert_eq!(cover_response(None), Err(404));
    assert_eq!(cover_content_type(), "image/jpeg");
}

#[test]
fn stream_planning() {
    let p = plan_stream("flac", &StreamParams { format: Some("mp3".to_string()) });
    assert_eq!((p.target_format.as_str(), p.transcode), ("mp3", true));
    let p = plan_stream("flac", &StreamParams { format: None });
    assert_eq!((p.target_format.as_str(), p.transcode), ("flac", false));
    assert_eq!(direct_content_type("m4a"), "audio/aac");
    assert_eq!(direct_content_type("xyz"), "application/octet-stream");
    assert_eq!(transcoded_content_type("mp3"), "audio/mpeg");
}

fn track(id: i64) -> PlaylistTrack {
    PlaylistTrack { id, url: format!("file:///{}.flac", id), title: None, artist: None, album: None, duration: None }
}

#[test]
fn playlist_navigation() {
    let mut p = Playlist::new();
    assert!(p.current_track().is_none());
    p.add_track(track(1));
    p.add_track(track(2));
    p.add_track(track(3));
    assert_eq!(p.current_track().map(|t| t.id), Some(1));
    assert_eq!(p.next().map(|t| t.id), Some(2));
    assert_eq!(p.previous().map(|t| t.id), Some(1));
    assert_eq!(p.previous().map(|t| t.id), Some(1));
    assert_eq!(p.jump_to(2).map(|t| t.id), Some(3));
    assert_eq!(p.next().map(|t| t.id), Some(3));
    p.repeat = 2;
    assert_eq!(p.next().map(|t| t.id), Some(1));
    assert_eq!(p.previous().map(|t| t.id), Some(3));
    assert!(p.jump_to(9).is_none());
    assert_eq!(p.remove_track(0).map(|t| t.id), Some(1));
    assert_eq!(p.len(), 2);
    p.insert_track(0, track(9));
    assert_eq!(p.all_tracks().iter().map(|t| t.id).collect::<Vec<_>>(), vec![9, 2, 3]);
    p.clear();
    assert!(p.is_empty());
    assert!(p.current_track().is_none());
}

#[test]
fn playlists_per_player() {
    let mut m = PlaylistManager::new();
    m.add_track("a", track(1));
    m.add_track("a", track(2));
    m.add_track("b", track(5));
    assert_eq!(m.next("a").map(|t| t.id), Some(2));
    assert_eq!(m.get_playlist("b").len(), 1);
    assert_eq!(m.get_playlist("c").len(), 0);
    m.set_playing("a", true);
    assert!(m.is_playing("a"));
    assert!(!m.is_playing("b"));
    m.clear("a");
    assert_eq!(m.get_playlist("a").len(), 0);
}

#[test]
fn plugin_dispatch() {
    let mut reg = PluginRegistry::new();
    reg.register_http_routes(
        "p",
        vec![HttpRoute { method: "GET".to_string(), path: "/plugins/p/:id".to_string(), handler_id: "h".to_string() }],
    );
    match dispatch(&reg, "GET", "/plugins/p/3") {
        PluginDispatch::Route { plugin, handler } => assert_eq!((plugin.as_str(), handler.as_str()), ("p", "h")),
        other => panic!("unexpected {:?}", other),
    }
    match dispatch(&reg, "POST", "/plugins/p/3") {
        PluginDispatch::NoHandler { message } => assert_eq!(message, "No plugin handler for POST /plugins/p/3"),
        other => panic!("unexpected {:?}", other),
    }
    assert_eq!(response_status(42), 200);
    assert_eq!(response_status(404), 404);
    let q = query_params(Some("a=1&b=x%20y&a=3"));
    let mut q2 = q.clone();
    q2.sort();
    assert_eq!(q2, vec![("a".to_string(), "3".to_string()), ("b".to_string(), "x y".to_string())]);
    assert!(query_params(None).is_empty());
}

#[test]
fn adding_several_tracks() {
    let mut p = Playlist::new();
    p.add_tracks(vec![]);
    assert!(p.current_index.is_none());
    p.add_tracks(vec![track(4), track(5)]);
    assert_eq!(p.current_index, Some(0));
    assert_eq!(p.len(), 2);
    p.next();
    p.add_tracks(vec![track(6)]);
    assert_eq!(p.current_index, Some(1));
    assert_eq!(p.all_tracks().iter().map(|t| t.id).collect::<Vec<_>>(), vec![4, 5, 6]);
}

#[test]
fn ordinary_stream_commands_are_encodable() {
    assert!(start_command_for(7, "flac").is_encodable());
    assert!(StreamCommand::Stop.is_encodable());
    assert!(StreamCommand::PauseFor { interval_ms: 5 }.is_encodable());
}
