use lyrion::ids::random_id;
use lyrion::playback::player::{Player, Song};
use lyrion::playback::streaming::{PlayingState, StreamingController, StreamingEvent, StreamingState};
use lyrion::playback::sync::{SyncAdjustment, SyncGroup, SyncManager};
use lyrion::server::player_manager::PlayerManager;
use lyrion::server::sync_coordinator::{adjustment_command, not_connected_message};
use lyrion::protocol::messages::StreamCommand;

fn song(id: i64) -> Song {
    Song { track_id: id, url: format!("t{}.mp3", id), duration: Some(180_000) }
}

#[test]
fn test_initial_state() {
    let controller = StreamingController::new(random_id(), 0);
    assert_eq!(controller.streaming_state, StreamingState::Idle);
    assert_eq!(controller.playing_state, PlayingState::Stopped);
}

#[test]
fn test_play_transition() {
    let mut controller = StreamingController::new(random_id(), 0);

    controller.enqueue(Song { track_id: 1, url: "test.mp3".to_string(), duration: Some(180_000) });

    assert!(controller.handle_event(StreamingEvent::Play, 10).is_ok());
    assert_eq!(controller.streaming_state, StreamingState::TrackWait);
}

#[test]
fn test_pause_resume() {
    let mut controller = StreamingController::new(random_id(), 0);
    controller.set_playing_state(PlayingState::Playing, 0);

    assert!(controller.handle_event(StreamingEvent::Pause, 5).is_ok());
    assert_eq!(controller.playing_state, PlayingState::Paused);

    assert!(controller.handle_event(StreamingEvent::Resume, 6).is_ok());
    assert_eq!(controller.playing_state, PlayingState::Playing);
}

#[test]
fn play_with_empty_queue_fails() {
    let mut controller = StreamingController::new(7, 0);
    assert_eq!(controller.handle_event(StreamingEvent::Play, 1), Err("No tracks in queue".to_string()));
    assert_eq!(controller.streaming_state, StreamingState::Idle);
}

#[test]
fn play_takes_the_head_of_the_queue() {
    let mut controller = StreamingController::new(7, 0);
    controller.enqueue(song(1));
    controller.enqueue(song(2));
    controller.handle_event(StreamingEvent::Play, 3).unwrap();
    assert_eq!(controller.current_song.as_ref().map(|s| s.track_id), Some(1));
    assert_eq!(controller.song_queue.len(), 1);
    assert_eq!(controller.last_state_change, 3);
    controller.handle_event(StreamingEvent::NextTrackReady, 4).unwrap();
    assert_eq!(controller.streaming_state, StreamingState::Streaming);
    assert_eq!(controller.playing_state, PlayingState::Buffering);
    controller.handle_event(StreamingEvent::BufferReady, 5).unwrap();
    assert_eq!(controller.playing_state, PlayingState::Playing);
    controller.handle_event(StreamingEvent::TrackDone, 6).unwrap();
    assert_eq!(controller.current_song.as_ref().map(|s| s.track_id), Some(2));
    controller.handle_event(StreamingEvent::TrackDone, 7).unwrap();
    assert_eq!(controller.streaming_state, StreamingState::Idle);
    assert_eq!(controller.playing_state, PlayingState::Stopped);
}

#[test]
fn stop_from_any_state() {
    let mut controller = StreamingController::new(7, 0);
    controller.enqueue(song(1));
    controller.handle_event(StreamingEvent::Play, 1).unwrap();
    controller.handle_event(StreamingEvent::Stop, 2).unwrap();
    assert_eq!(controller.streaming_state, StreamingState::Idle);
    assert_eq!(controller.playing_state, PlayingState::Stopped);
    assert!(controller.is_valid_state_combination());
}

#[test]
fn invalid_combination_is_refused() {
    let mut controller = StreamingController::new(7, 0);
    controller.set_streaming_state(StreamingState::StreamOut, 0);
    controller.set_playing_state(PlayingState::Stopped, 0);
    assert!(!controller.is_valid_state_combination());
    assert_eq!(
        controller.handle_event(StreamingEvent::Stop, 1),
        Err("Invalid state combination: streaming=StreamOut, playing=Stopped".to_string())
    );
}

#[test]
fn player_queue() {
    let mut p = Player::new([1, 2, 3, 4, 5, 6], "Kitchen".to_string());
    assert_eq!(p.volume, 50);
    assert!(p.current_song().is_none());
    p.enqueue(song(1));
    p.enqueue(song(2));
    assert_eq!(p.current_song().map(|s| s.track_id), Some(1));
    assert_eq!(p.skip().map(|s| s.track_id), Some(1));
    assert_eq!(p.current_song().map(|s| s.track_id), Some(2));
}

#[test]
fn test_create_group() {
    let mut manager = SyncManager::new();
    let master = random_id();

    let group_id = manager.create_group(master, 1_000);
    let group = manager.get_group(master).unwrap();

    assert_eq!(group.master, master);
    assert_eq!(group.slaves.len(), 0);
    assert_eq!(group.id, group_id);
}

#[test]
fn test_add_to_group() {
    let mut manager = SyncManager::new();
    let master = random_id();
    let slave = random_id();

    let group_id = manager.create_group(master, 1_000);
    manager.add_to_group(group_id, slave).unwrap();

    let group = manager.get_group(master).unwrap();
    assert_eq!(group.slaves.len(), 1);
    assert!(group.is_slave(slave));
}

#[test]
fn test_sync_check() {
    let mut manager = SyncManager::new();
    let master = random_id();
    let slave = random_id();
    let now = 100_000;

    let group_id = manager.create_group(master, now);
    manager.add_to_group(group_id, slave).unwrap();

    // Positions in microseconds: the slave is 50 ms ahead.
    manager.update_play_point(master, 10_000_000, now);
    manager.update_play_point(slave, 10_050_000, now);

    let adjustments = manager.check_sync(group_id, now);
    assert_eq!(adjustments.len(), 1);

    match &adjustments[0] {
        SyncAdjustment::SkipAhead { player, delta } => {
            assert_eq!(*player, slave);
            assert!(delta / 1000 >= 50);
        }
        _ => panic!("Expected SkipAhead adjustment"),
    }
}

#[test]
fn sync_check_waits_for_its_time_and_for_all_points() {
    let mut manager = SyncManager::new();
    let g = manager.create_group(1, 10_000);
    manager.add_to_group(g, 2).unwrap();
    manager.update_play_point(1, 0, 10_000);
    // the slave has no play point yet
    assert!(manager.check_sync(g, 10_000).is_empty());
    manager.update_play_point(2, 5_000_000, 10_000);
    // checked a moment ago: not due before 950 ms have passed
    assert!(manager.check_sync(g, 10_500).is_empty());
    let adj = manager.check_sync(g, 10_950);
    assert_eq!(adj, vec![SyncAdjustment::SkipAhead { player: 2, delta: 5_000_000 }]);
    // deviations outside 10 ms .. 10 s are left alone
    manager.update_play_point(2, 5_000, 20_000);
    manager.update_play_point(1, 0, 20_000);
    assert!(manager.check_sync(g, 20_000).is_empty());
    // play points older than 3 s do not count
    manager.update_play_point(2, 900_000, 21_000);
    assert!(manager.check_sync(g, 25_000).is_empty());
}

#[test]
fn sync_group_membership() {
    let mut g = SyncGroup::new(1, 0);
    g.add_slave(2);
    g.add_slave(2);
    g.add_slave(3);
    assert_eq!(g.player_count(), 3);
    assert_eq!(g.all_players(), vec![1, 2, 3]);
    assert!(g.is_master(1));
    assert!(!g.is_slave(1));
    g.remove_slave(2);
    assert_eq!(g.all_players(), vec![1, 3]);
    assert!(!g.is_empty());
}

#[test]
fn leaving_groups() {
    let mut m = SyncManager::new();
    let g = m.create_group(1, 0);
    m.add_to_group(g, 2).unwrap();
    m.add_to_group(g, 3).unwrap();
    m.remove_from_group(2).unwrap();
    assert!(!m.is_synced(2));
    assert!(m.is_synced(3));
    // the master leaving dissolves the group
    m.remove_from_group(1).unwrap();
    assert!(!m.is_synced(1));
    assert!(!m.is_synced(3));
    assert!(m.get_all_groups().is_empty());
    assert!(m.remove_from_group(1).is_err());
    assert!(m.add_to_group(g, 4).is_err());
}

#[test]
fn adjustments_become_stream_commands() {
    let (p, c) = adjustment_command(&SyncAdjustment::SkipAhead { player: 9, delta: 50_999 });
    assert_eq!(p, 9);
    assert!(matches!(c, StreamCommand::SkipAhead { interval_ms: 50 }));
    let (_, c) = adjustment_command(&SyncAdjustment::PauseFor { player: 9, delta: 1_234_000 });
    assert!(matches!(c, StreamCommand::PauseFor { interval_ms: 1234 }));
    assert_eq!(
        not_connected_message(0x0123456789abcdef0123456789abcdef),
        "Player 01234567-89ab-cdef-0123-456789abcdef not connected"
    );
}

#[test]
fn player_manager_routes_events() {
    let mut pm = PlayerManager::new();
    pm.register_player(5, 0);
    assert!(pm.get_controller(5).is_some());
    assert_eq!(
        pm.send_event(6, StreamingEvent::Play, 1),
        Err("Player 00000000-0000-0000-0000-000000000006 not found".to_string())
    );
    assert_eq!(pm.send_event(5, StreamingEvent::Play, 1), Err("No tracks in queue".to_string()));
    assert!(pm.play_track(5, 42, "http://x/42".to_string(), 2).is_ok());
    let c = pm.get_controller(5).unwrap();
    assert_eq!(c.streaming_state, StreamingState::TrackWait);
    assert_eq!(c.current_song.as_ref().map(|s| s.track_id), Some(42));
    assert_eq!(pm.get_player_ids(), vec![5]);
    pm.unregister_player(5);
    assert!(pm.get_controller(5).is_none());
}

#[test]
fn cleared_queue_has_nothing_to_play() {
    let mut controller = StreamingController::new(7, 0);
    controller.enqueue(song(1));
    controller.enqueue(song(2));
    controller.clear_queue();
    assert_eq!(controller.handle_event(StreamingEvent::Play, 1), Err("No tracks in queue".to_string()));
    assert_eq!(controller.streaming_state, StreamingState::Idle);
}

#[test]
fn play_delay_leaves_groups_alone() {
    let mut manager = SyncManager::new();
    let g = manager.create_group(1, 0);
    manager.add_to_group(g, 2).unwrap();
    manager.set_play_delay(2, 150);
    assert!(manager.is_synced(2));
    assert_eq!(manager.get_group(2).map(|gr| gr.master), Some(1));
}

#[test]
fn syncing_to_a_target() {
    let mut m = SyncManager::new();
    // the target is in no group: a new group with the target as master
    let g = m.sync_to(2, 1, 500);
    let group = m.get_group(1).unwrap();
    assert_eq!(group.id, g);
    assert_eq!(group.master, 1);
    assert_eq!(group.slaves, vec![2]);
    assert!(m.is_synced(2));
    // the target is in a group: the player joins it
    assert_eq!(m.sync_to(3, 2, 900), g);
    assert_eq!(m.get_group(3).unwrap().slaves, vec![2, 3]);
    assert_eq!(m.get_all_groups().len(), 1);
}

#[test]
fn sync_check_moves_each_member_ahead_of_the_last() {
    let mut m = SyncManager::new();
    let g = m.create_group(1, 10_000);
    m.add_to_group(g, 2).unwrap();
    m.add_to_group(g, 3).unwrap();
    m.set_play_delay(3, 40);
    m.update_play_point(1, 0, 10_000);
    m.update_play_point(2, 50_000, 10_000);
    m.update_play_point(3, 20_000, 10_000);
    assert_eq!(
        m.check_sync(g, 10_000),
        vec![
            SyncAdjustment::SkipAhead { player: 3, delta: 60_000 },
            SyncAdjustment::SkipAhead { player: 2, delta: 50_000 },
        ]
    );
}

#[test]
fn queue_changes_leave_the_rest_alone() {
    let mut controller = StreamingController::new(7, 0);
    controller.sync_group_id = Some("g".to_string());
    controller.resume_time = Some(1234);
    controller.consecutive_errors = 2;
    controller.enqueue(song(1));
    assert_eq!(controller.sync_group_id, Some("g".to_string()));
    assert_eq!(controller.resume_time, Some(1234));
    assert_eq!(controller.consecutive_errors, 2);
    controller.clear_queue();
    assert!(controller.song_queue.is_empty());
    assert_eq!(controller.resume_time, Some(1234));
    assert_eq!(controller.sync_group_id, Some("g".to_string()));
}
