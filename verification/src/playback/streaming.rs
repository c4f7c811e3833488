//! The streaming controller: two state machines (what is being streamed
//! to the player, and what the player is playing) driven by events. Times
//! are in milliseconds; the caller supplies the current time.
use vstd::prelude::*;
use std::collections::VecDeque;
use crate::playback::player::Song;
use crate::plugins::concat_str;

verus! {

/// What is being streamed to the player.
#[derive(Debug, Clone, Copy, PartialEq, Eq, Structural)]
pub enum StreamingState {
    Idle,
    Streaming,
    StreamOut,
    TrackWait,
}

/// What the player is doing with the audio.
#[derive(Debug, Clone, Copy, PartialEq, Eq, Structural)]
pub enum PlayingState {
    Stopped,
    Buffering,
    WaitingToSync,
    Playing,
    Paused,
}

/// Events that drive the controller; a jump target is in milliseconds.
#[derive(Debug, Clone, Copy, PartialEq, Eq, Structural)]
pub enum StreamingEvent {
    Stop,
    Play,
    ContinuePlay,
    Pause,
    Resume,
    Flush,
    Skip,
    JumpToTime(u64),
    NextTrackReady,
    NextTrackError,
    LocalEndOfStream,
    BufferReady,
    Started,
    Underrun,
    TrackDone,
}

/// The pairs of states the controller may be in.
pub open spec fn valid_combination(s: StreamingState, p: PlayingState) -> bool {
    match (s, p) {
        (StreamingState::Idle, PlayingState::Stopped) => true,
        (StreamingState::Idle, PlayingState::Playing) => true,
        (StreamingState::Idle, PlayingState::Paused) => true,
        (StreamingState::Streaming, PlayingState::Buffering) => true,
        (StreamingState::Streaming, PlayingState::WaitingToSync) => true,
        (StreamingState::Streaming, PlayingState::Playing) => true,
        (StreamingState::Streaming, PlayingState::Paused) => true,
        (StreamingState::StreamOut, PlayingState::Buffering) => true,
        (StreamingState::StreamOut, PlayingState::WaitingToSync) => true,
        (StreamingState::StreamOut, PlayingState::Playing) => true,
        (StreamingState::StreamOut, PlayingState::Paused) => true,
        (StreamingState::TrackWait, PlayingState::Stopped) => true,
        (StreamingState::TrackWait, PlayingState::Playing) => true,
        (StreamingState::TrackWait, PlayingState::Paused) => true,
        _ => false,
    }
}

pub open spec fn streaming_state_name(s: StreamingState) -> Seq<char> {
    match s {
        StreamingState::Idle => "Idle"@,
        StreamingState::Streaming => "Streaming"@,
        StreamingState::StreamOut => "StreamOut"@,
        StreamingState::TrackWait => "TrackWait"@,
    }
}

pub open spec fn playing_state_name(p: PlayingState) -> Seq<char> {
    match p {
        PlayingState::Stopped => "Stopped"@,
        PlayingState::Buffering => "Buffering"@,
        PlayingState::WaitingToSync => "WaitingToSync"@,
        PlayingState::Playing => "Playing"@,
        PlayingState::Paused => "Paused"@,
    }
}

/// The part of the controller that events change; `stamped` records that
/// a state was set, which also sets the time of the last state change.
pub struct CtrlState {
    pub streaming: StreamingState,
    pub playing: PlayingState,
    pub queue: Seq<Song>,
    pub current: Option<Song>,
    pub resume: Option<u64>,
    pub rebuffering: bool,
    pub stamped: bool,
}

/// Starting the next song: it leaves the queue and becomes the current
/// song, and the controller waits for its track; with an empty queue,
/// an error.
pub open spec fn play_step(c: CtrlState) -> (CtrlState, Result<(), Seq<char>>) {
    if c.queue.len() > 0 {
        (
            CtrlState {
                streaming: StreamingState::TrackWait,
                playing: PlayingState::Stopped,
                queue: c.queue.drop_first(),
                current: Some(c.queue[0]),
                stamped: true,
                ..c
            },
            Ok(()),
        )
    } else {
        (c, Err("No tracks in queue"@))
    }
}

/// The effect of an event on a controller in a valid state; `synced` says
/// whether the controller belongs to a sync group.
pub open spec fn event_step(c: CtrlState, synced: bool, e: StreamingEvent) -> (CtrlState, Result<(), Seq<char>>) {
    match e {
        StreamingEvent::Stop => (
            CtrlState {
                streaming: StreamingState::Idle,
                playing: PlayingState::Stopped,
                resume: None,
                stamped: true,
                ..c
            },
            Ok(()),
        ),
        StreamingEvent::Play => play_step(c),
        StreamingEvent::ContinuePlay => if c.playing == PlayingState::Playing && (c.streaming
            == StreamingState::Idle || c.streaming == StreamingState::Streaming || c.streaming
            == StreamingState::StreamOut) {
            (c, Ok(()))
        } else {
            play_step(c)
        },
        StreamingEvent::Pause => if c.playing == PlayingState::Playing {
            (CtrlState { playing: PlayingState::Paused, resume: Some(0), stamped: true, ..c }, Ok(()))
        } else {
            (c, Ok(()))
        },
        StreamingEvent::Resume => if c.playing == PlayingState::Paused {
            (CtrlState { playing: PlayingState::Playing, resume: None, stamped: true, ..c }, Ok(()))
        } else {
            (c, Ok(()))
        },
        StreamingEvent::Skip => play_step(CtrlState { current: None, ..c }),
        StreamingEvent::NextTrackReady => if c.streaming == StreamingState::TrackWait {
            (
                CtrlState {
                    streaming: StreamingState::Streaming,
                    playing: PlayingState::Buffering,
                    stamped: true,
                    ..c
                },
                Ok(()),
            )
        } else {
            (c, Ok(()))
        },
        StreamingEvent::BufferReady => if c.playing == PlayingState::Buffering {
            (
                CtrlState {
                    playing: if synced {
                        PlayingState::WaitingToSync
                    } else {
                        PlayingState::Playing
                    },
                    stamped: true,
                    ..c
                },
                Ok(()),
            )
        } else {
            (c, Ok(()))
        },
        StreamingEvent::Started => if c.playing == PlayingState::Buffering || c.playing == PlayingState::WaitingToSync {
            (CtrlState { playing: PlayingState::Playing, stamped: true, ..c }, Ok(()))
        } else {
            (c, Ok(()))
        },
        StreamingEvent::LocalEndOfStream => if c.streaming == StreamingState::Streaming {
            (CtrlState { streaming: StreamingState::StreamOut, stamped: true, ..c }, Ok(()))
        } else {
            (c, Ok(()))
        },
        StreamingEvent::Underrun => if c.playing == PlayingState::Playing {
            (CtrlState { playing: PlayingState::Buffering, rebuffering: true, stamped: true, ..c }, Ok(()))
        } else {
            (c, Ok(()))
        },
        StreamingEvent::TrackDone => if c.queue.len() > 0 {
            play_step(CtrlState { current: None, ..c })
        } else {
            (
                CtrlState {
                    streaming: StreamingState::Idle,
                    playing: PlayingState::Stopped,
                    current: None,
                    stamped: true,
                    ..c
                },
                Ok(()),
            )
        },
        StreamingEvent::JumpToTime(_) | StreamingEvent::Flush | StreamingEvent::NextTrackError => (c, Ok(())),
    }
}

/// The controller of one player (the master of a sync group, if any).
pub struct StreamingController {
    pub master_id: u128,
    pub streaming_state: StreamingState,
    pub playing_state: PlayingState,
    pub song_queue: VecDeque<Song>,
    pub current_song: Option<Song>,
    pub next_track: Option<Song>,
    /// Position to resume from after a pause, in milliseconds.
    pub resume_time: Option<u64>,
    /// (byte offset, time in milliseconds) pairs for sync calculations.
    pub frame_data: Vec<(u64, u64)>,
    /// When a state was last set, in milliseconds.
    pub last_state_change: u64,
    pub rebuffering: bool,
    pub consecutive_errors: u32,
    pub sync_group_id: Option<String>,
}

/// The event-driven part of a controller.
pub open spec fn ctrl_state(c: StreamingController) -> CtrlState {
    CtrlState {
        streaming: c.streaming_state,
        playing: c.playing_state,
        queue: c.song_queue@,
        current: c.current_song,
        resume: c.resume_time,
        rebuffering: c.rebuffering,
        stamped: false,
    }
}

/// `n` is `o` after an event that led to `out`, at time `now`.
pub open spec fn follows(
    o: StreamingController,
    n: StreamingController,
    now: u64,
    out: (CtrlState, Result<(), Seq<char>>),
) -> bool {
    &&& n.streaming_state == out.0.streaming
    &&& n.playing_state == out.0.playing
    &&& n.song_queue@ == out.0.queue
    &&& n.current_song == out.0.current
    &&& n.resume_time == out.0.resume
    &&& n.rebuffering == out.0.rebuffering
    &&& n.last_state_change == (if out.0.stamped {
        now
    } else {
        o.last_state_change
    })
    &&& n.master_id == o.master_id
    &&& n.next_track == o.next_track
    &&& n.frame_data@ == o.frame_data@
    &&& n.consecutive_errors == o.consecutive_errors
    &&& n.sync_group_id == o.sync_group_id
}

/// The text of the error for a controller found in an invalid state.
pub open spec fn invalid_state_text(s: StreamingState, p: PlayingState) -> Seq<char> {
    "Invalid state combination: streaming="@ + streaming_state_name(s) + ", playing="@ + playing_state_name(p)
}

/// What handling `event` at time `now` does to a controller: a controller
/// in a combination of states that cannot occur is left as it is and the
/// event refused with the text of that combination; otherwise the states
/// follow `event_step` and the result is its verdict.
pub open spec fn handled(
    before: StreamingController,
    after: StreamingController,
    event: StreamingEvent,
    now: u64,
    r: Result<(), String>,
) -> bool {
    if !valid_combination(before.streaming_state, before.playing_state) {
        after == before && (r matches Err(m) && m@ == invalid_state_text(before.streaming_state, before.playing_state))
    } else {
        let out = event_step(ctrl_state(before), before.sync_group_id is Some, event);
        &&& follows(before, after, now, out)
        &&& match out.1 {
            Ok(()) => r is Ok,
            Err(msg) => r matches Err(m) && m@ == msg,
        }
    }
}

fn streaming_name(s: StreamingState) -> (r: &'static str)
    ensures
        r@ == streaming_state_name(s),
{
    match s {
        StreamingState::Idle => "Idle",
        StreamingState::Streaming => "Streaming",
        StreamingState::StreamOut => "StreamOut",
        StreamingState::TrackWait => "TrackWait",
    }
}

fn playing_name(p: PlayingState) -> (r: &'static str)
    ensures
        r@ == playing_state_name(p),
{
    match p {
        PlayingState::Stopped => "Stopped",
        PlayingState::Buffering => "Buffering",
        PlayingState::WaitingToSync => "WaitingToSync",
        PlayingState::Playing => "Playing",
        PlayingState::Paused => "Paused",
    }
}

impl StreamingController {
    /// A controller for a player: idle, stopped, with nothing queued.
    pub fn new(master_id: u128, now: u64) -> (r: Self)
        ensures
            r.master_id == master_id,
            r.streaming_state == StreamingState::Idle,
            r.playing_state == PlayingState::Stopped,
            r.song_queue@.len() == 0,
            r.current_song is None,
            r.next_track is None,
            r.resume_time is None,
            r.frame_data@.len() == 0,
            r.last_state_change == now,
            !r.rebuffering,
            r.consecutive_errors == 0,
            r.sync_group_id is None,
    {
        Self {
            master_id,
            streaming_state: StreamingState::Idle,
            playing_state: PlayingState::Stopped,
            song_queue: VecDeque::new(),
            current_song: None,
            next_track: None,
            resume_time: None,
            frame_data: Vec::new(),
            last_state_change: now,
            rebuffering: false,
            consecutive_errors: 0,
            sync_group_id: None,
        }
    }

    /// Applies an event at time `now`. A controller found in an invalid
    /// pair of states is left alone and the event refused.
    pub fn handle_event(&mut self, event: StreamingEvent, now: u64) -> (r: Result<(), String>)
        ensures
            handled(*old(self), *final(self), event, now, r),
    {
        if !self.is_valid_state_combination() {
            let a = concat_str("Invalid state combination: streaming=", streaming_name(self.streaming_state));
            let b = concat_str(a.as_str(), ", playing=");
            return Err(concat_str(b.as_str(), playing_name(self.playing_state)));
        }
        match event {
            StreamingEvent::Stop => self.handle_stop(now),
            StreamingEvent::Play => self.handle_play(now),
            StreamingEvent::ContinuePlay => self.handle_continue_play(now),
            StreamingEvent::Pause => self.handle_pause(now),
            StreamingEvent::Resume => self.handle_resume(now),
            StreamingEvent::Skip => self.handle_skip(now),
            StreamingEvent::JumpToTime(_) => Ok(()),
            StreamingEvent::NextTrackReady => self.handle_next_track_ready(now),
            StreamingEvent::BufferReady => self.handle_buffer_ready(now),
            StreamingEvent::Started => self.handle_started(now),
            StreamingEvent::LocalEndOfStream => self.handle_end_of_stream(now),
            StreamingEvent::Underrun => self.handle_underrun(now),
            StreamingEvent::TrackDone => self.handle_track_done(now),
            StreamingEvent::Flush | StreamingEvent::NextTrackError => Ok(()),
        }
    }

    /// Whether the pair of states is one the controller may be in.
    pub fn is_valid_state_combination(&self) -> (r: bool)
        ensures
            r == valid_combination(self.streaming_state, self.playing_state),
    {
        match (self.streaming_state, self.playing_state) {
            (StreamingState::Idle, PlayingState::Stopped) => true,
            (StreamingState::Idle, PlayingState::Playing) => true,
            (StreamingState::Idle, PlayingState::Paused) => true,
            (StreamingState::Streaming, PlayingState::Buffering) => true,
            (StreamingState::Streaming, PlayingState::WaitingToSync) => true,
            (StreamingState::Streaming, PlayingState::Playing) => true,
            (StreamingState::Streaming, PlayingState::Paused) => true,
            (StreamingState::StreamOut, PlayingState::Buffering) => true,
            (StreamingState::StreamOut, PlayingState::WaitingToSync) => true,
            (StreamingState::StreamOut, PlayingState::Playing) => true,
            (StreamingState::StreamOut, PlayingState::Paused) => true,
            (StreamingState::TrackWait, PlayingState::Stopped) => true,
            (StreamingState::TrackWait, PlayingState::Playing) => true,
            (StreamingState::TrackWait, PlayingState::Paused) => true,
            _ => false,
        }
    }

    /// Sets the streaming state, recording the time.
    pub fn set_streaming_state(&mut self, state: StreamingState, now: u64)
        ensures
            final(self).streaming_state == state,
            final(self).last_state_change == now,
            final(self).playing_state == old(self).playing_state,
            final(self).song_queue@ == old(self).song_queue@,
            final(self).current_song == old(self).current_song,
            final(self).resume_time == old(self).resume_time,
            final(self).rebuffering == old(self).rebuffering,
            final(self).master_id == old(self).master_id,
            final(self).next_track == old(self).next_track,
            final(self).frame_data@ == old(self).frame_data@,
            final(self).consecutive_errors == old(self).consecutive_errors,
            final(self).sync_group_id == old(self).sync_group_id,
    {
        self.streaming_state = state;
        self.last_state_change = now;
    }

    /// Sets the playing state, recording the time.
    pub fn set_playing_state(&mut self, state: PlayingState, now: u64)
        ensures
            final(self).playing_state == state,
            final(self).last_state_change == now,
            final(self).streaming_state == old(self).streaming_state,
            final(self).song_queue@ == old(self).song_queue@,
            final(self).current_song == old(self).current_song,
            final(self).resume_time == old(self).resume_time,
            final(self).rebuffering == old(self).rebuffering,
            final(self).master_id == old(self).master_id,
            final(self).next_track == old(self).next_track,
            final(self).frame_data@ == old(self).frame_data@,
            final(self).consecutive_errors == old(self).consecutive_errors,
            final(self).sync_group_id == old(self).sync_group_id,
    {
        self.playing_state = state;
        self.last_state_change = now;
    }

    fn handle_stop(&mut self, now: u64) -> (r: Result<(), String>)
        ensures
            follows(*old(self), *final(self), now, event_step(ctrl_state(*old(self)), old(self).sync_group_id is Some, StreamingEvent::Stop)),
            r is Ok,
    {
        self.set_streaming_state(StreamingState::Idle, now);
        self.set_playing_state(PlayingState::Stopped, now);
        self.resume_time = None;
        Ok(())
    }

    fn handle_play(&mut self, now: u64) -> (r: Result<(), String>)
        ensures
            follows(*old(self), *final(self), now, play_step(ctrl_state(*old(self)))),
            match play_step(ctrl_state(*old(self))).1 {
                Ok(()) => r is Ok,
                Err(msg) => r matches Err(m) && m@ == msg,
            },
    {
        match self.song_queue.pop_front() {
            Some(song) => {
                self.current_song = Some(song);
                self.set_streaming_state(StreamingState::TrackWait, now);
                self.set_playing_state(PlayingState::Stopped, now);
                assert(old(self).song_queue@.subrange(1, old(self).song_queue@.len() as int) =~= old(
                    self,
                ).song_queue@.drop_first());
                Ok(())
            },
            None => Err(crate::text::string_of("No tracks in queue")),
        }
    }

    fn handle_continue_play(&mut self, now: u64) -> (r: Result<(), String>)
        ensures
            ({
                let out = event_step(ctrl_state(*old(self)), old(self).sync_group_id is Some, StreamingEvent::ContinuePlay);
                &&& follows(*old(self), *final(self), now, out)
                &&& match out.1 {
                    Ok(()) => r is Ok,
                    Err(msg) => r matches Err(m) && m@ == msg,
                }
            }),
    {
        match (self.streaming_state, self.playing_state) {
            (StreamingState::Idle, PlayingState::Playing)
            | (StreamingState::Streaming, PlayingState::Playing)
            | (StreamingState::StreamOut, PlayingState::Playing) => Ok(()),
            _ => self.handle_play(now),
        }
    }

    fn handle_pause(&mut self, now: u64) -> (r: Result<(), String>)
        ensures
            follows(*old(self), *final(self), now, event_step(ctrl_state(*old(self)), old(self).sync_group_id is Some, StreamingEvent::Pause)),
            r is Ok,
    {
        if self.playing_state == PlayingState::Playing {
            self.set_playing_state(PlayingState::Paused, now);
            self.resume_time = Some(0);
        }
        Ok(())
    }

    fn handle_resume(&mut self, now: u64) -> (r: Result<(), String>)
        ensures
            follows(*old(self), *final(self), now, event_step(ctrl_state(*old(self)), old(self).sync_group_id is Some, StreamingEvent::Resume)),
            r is Ok,
    {
        if self.playing_state == PlayingState::Paused {
            self.set_playing_state(PlayingState::Playing, now);
            self.resume_time = None;
        }
        Ok(())
    }

    fn handle_skip(&mut self, now: u64) -> (r: Result<(), String>)
        ensures
            ({
                let out = event_step(ctrl_state(*old(self)), old(self).sync_group_id is Some, StreamingEvent::Skip);
                &&& follows(*old(self), *final(self), now, out)
                &&& match out.1 {
                    Ok(()) => r is Ok,
                    Err(msg) => r matches Err(m) && m@ == msg,
                }
            }),
    {
        self.current_song = None;
        self.handle_play(now)
    }

    fn handle_next_track_ready(&mut self, now: u64) -> (r: Result<(), String>)
        ensures
            follows(*old(self), *final(self), now, event_step(ctrl_state(*old(self)), old(self).sync_group_id is Some, StreamingEvent::NextTrackReady)),
            r is Ok,
    {
        if self.streaming_state == StreamingState::TrackWait {
            self.set_streaming_state(StreamingState::Streaming, now);
            self.set_playing_state(PlayingState::Buffering, now);
        }
        Ok(())
    }

    fn handle_buffer_ready(&mut self, now: u64) -> (r: Result<(), String>)
        ensures
            follows(*old(self), *final(self), now, event_step(ctrl_state(*old(self)), old(self).sync_group_id is Some, StreamingEvent::BufferReady)),
            r is Ok,
    {
        if self.playing_state == PlayingState::Buffering {
            if self.sync_group_id.is_some() {
                self.set_playing_state(PlayingState::WaitingToSync, now);
            } else {
                self.set_playing_state(PlayingState::Playing, now);
            }
        }
        Ok(())
    }

    fn handle_started(&mut self, now: u64) -> (r: Result<(), String>)
        ensures
            follows(*old(self), *final(self), now, event_step(ctrl_state(*old(self)), old(self).sync_group_id is Some, StreamingEvent::Started)),
            r is Ok,
    {
        if self.playing_state == PlayingState::Buffering || self.playing_state == PlayingState::WaitingToSync {
            self.set_playing_state(PlayingState::Playing, now);
        }
        Ok(())
    }

    fn handle_end_of_stream(&mut self, now: u64) -> (r: Result<(), String>)
        ensures
            follows(*old(self), *final(self), now, event_step(ctrl_state(*old(self)), old(self).sync_group_id is Some, StreamingEvent::LocalEndOfStream)),
            r is Ok,
    {
        if self.streaming_state == StreamingState::Streaming {
            self.set_streaming_state(StreamingState::StreamOut, now);
        }
        Ok(())
    }

    fn handle_underrun(&mut self, now: u64) -> (r: Result<(), String>)
        ensures
            follows(*old(self), *final(self), now, event_step(ctrl_state(*old(self)), old(self).sync_group_id is Some, StreamingEvent::Underrun)),
            r is Ok,
    {
        if self.playing_state == PlayingState::Playing {
            self.set_playing_state(PlayingState::Buffering, now);
            self.rebuffering = true;
        }
        Ok(())
    }

    fn handle_track_done(&mut self, now: u64) -> (r: Result<(), String>)
        ensures
            ({
                let out = event_step(ctrl_state(*old(self)), old(self).sync_group_id is Some, StreamingEvent::TrackDone);
                &&& follows(*old(self), *final(self), now, out)
                &&& match out.1 {
                    Ok(()) => r is Ok,
                    Err(msg) => r matches Err(m) && m@ == msg,
                }
            }),
    {
        self.current_song = None;
        if self.song_queue.len() > 0 {
            self.handle_play(now)
        } else {
            self.set_streaming_state(StreamingState::Idle, now);
            self.set_playing_state(PlayingState::Stopped, now);
            Ok(())
        }
    }

    /// Appends a song to the queue.
    pub fn enqueue(&mut self, song: Song)
        ensures
            final(self).song_queue@ == old(self).song_queue@.push(song),
            *final(self) == (StreamingController { song_queue: final(self).song_queue, ..*old(self) }),
    {
        self.song_queue.push_back(song);
    }

    /// Empties the queue.
    pub fn clear_queue(&mut self)
        ensures
            final(self).song_queue@.len() == 0,
            *final(self) == (StreamingController { song_queue: final(self).song_queue, ..*old(self) }),
    {
        self.song_queue.clear();
    }

    /// The position in the current track, in milliseconds; not yet
    /// measured, so always zero.
    pub fn current_position(&self) -> (r: u64)
        ensures
            r == 0,
    {
        0
    }
}

/// From a valid pair of states, every event leads to a valid pair, except
/// an underrun while idle or waiting for a track.
pub proof fn lemma_events_keep_states_valid(c: CtrlState, synced: bool, e: StreamingEvent)
    requires
        valid_combination(c.streaming, c.playing),
        !(e == StreamingEvent::Underrun && c.playing == PlayingState::Playing && (c.streaming == StreamingState::Idle
            || c.streaming == StreamingState::TrackWait)),
    ensures
        valid_combination(event_step(c, synced, e).0.streaming, event_step(c, synced, e).0.playing),
{
}

/// Pausing a playing controller and resuming it gives back a playing
/// controller with nothing to resume from and the same queue and song.
pub proof fn lemma_pause_resume(c: CtrlState, synced: bool)
    requires
        c.playing == PlayingState::Playing,
    ensures
        ({
            let after = event_step(event_step(c, synced, StreamingEvent::Pause).0, synced, StreamingEvent::Resume).0;
            &&& after.playing == PlayingState::Playing
            &&& after.streaming == c.streaming
            &&& after.resume is None
            &&& after.queue == c.queue
            &&& after.current == c.current
        }),
{
}

/// Stopping always leaves the controller idle and stopped, with its queue
/// and current song kept.
pub proof fn lemma_stop(c: CtrlState, synced: bool)
    ensures
        event_step(c, synced, StreamingEvent::Stop).0.streaming == StreamingState::Idle,
        event_step(c, synced, StreamingEvent::Stop).0.playing == PlayingState::Stopped,
        event_step(c, synced, StreamingEvent::Stop).0.queue == c.queue,
        event_step(c, synced, StreamingEvent::Stop).1 is Ok,
{
}

/// Playing takes songs from the queue in order: the head becomes current
/// and the rest stays queued.
pub proof fn lemma_play_takes_head(c: CtrlState)
    requires
        c.queue.len() > 0,
    ensures
        play_step(c).0.current == Some(c.queue[0]),
        play_step(c).0.queue == c.queue.drop_first(),
        play_step(c).1 is Ok,
{
}

} // verus!
