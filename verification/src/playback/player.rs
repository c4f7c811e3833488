//! A player's own state: identity, the two state machines' states, its
//! song queue and volume. Times are in milliseconds.
use vstd::prelude::*;
use std::collections::VecDeque;
use crate::ids::random_id;

verus! {

/// Streaming states of a player.
#[derive(Debug, Clone, Copy, PartialEq, Eq, Structural)]
pub enum StreamingState {
    Idle,
    Streaming,
    TrackWait,
    StreamOut,
}

/// Playing states of a player.
#[derive(Debug, Clone, Copy, PartialEq, Eq, Structural)]
pub enum PlayingState {
    Stopped,
    Buffering,
    Playing,
    Paused,
}

/// A song in a queue; its duration in milliseconds, where known.
#[derive(Debug)]
pub struct Song {
    pub track_id: i64,
    pub url: String,
    pub duration: Option<u64>,
}

/// A byte offset in the stream and the time (in milliseconds) it was played.
#[derive(Debug, Clone, Copy)]
pub struct FrameData {
    pub byte_offset: u64,
    pub timestamp: u64,
}

/// A player.
pub struct Player {
    pub id: u128,
    pub name: String,
    pub mac_address: [u8; 6],
    pub streaming_state: StreamingState,
    pub playing_state: PlayingState,
    pub song_queue: VecDeque<Song>,
    pub frame_data: Vec<FrameData>,
    pub current_position: u64,
    pub volume: u8,
}

impl Player {
    /// A new idle, stopped player with a fresh random id, an empty queue,
    /// position zero and volume 50.
    pub fn new(mac_address: [u8; 6], name: String) -> (r: Self)
        ensures
            r.name@ == name@,
            r.mac_address == mac_address,
            r.streaming_state == StreamingState::Idle,
            r.playing_state == PlayingState::Stopped,
            r.song_queue@.len() == 0,
            r.frame_data@.len() == 0,
            r.current_position == 0,
            r.volume == 50,
    {
        Self {
            id: random_id(),
            name,
            mac_address,
            streaming_state: StreamingState::Idle,
            playing_state: PlayingState::Stopped,
            song_queue: VecDeque::new(),
            frame_data: Vec::new(),
            current_position: 0,
            volume: 50,
        }
    }

    /// Moves the streaming state machine to `state`.
    pub fn set_streaming_state(&mut self, state: StreamingState)
        ensures
            final(self).streaming_state == state,
            final(self).playing_state == old(self).playing_state,
            final(self).song_queue@ == old(self).song_queue@,
            final(self).id == old(self).id,
            final(self).volume == old(self).volume,
    {
        self.streaming_state = state;
    }

    /// Moves the playing state machine to `state`.
    pub fn set_playing_state(&mut self, state: PlayingState)
        ensures
            final(self).playing_state == state,
            final(self).streaming_state == old(self).streaming_state,
            final(self).song_queue@ == old(self).song_queue@,
            final(self).id == old(self).id,
            final(self).volume == old(self).volume,
    {
        self.playing_state = state;
    }

    /// Appends a song to the queue.
    pub fn enqueue(&mut self, song: Song)
        ensures
            final(self).song_queue@ == old(self).song_queue@.push(song),
            final(self).streaming_state == old(self).streaming_state,
            final(self).playing_state == old(self).playing_state,
    {
        self.song_queue.push_back(song);
    }

    /// The song at the head of the queue.
    pub fn current_song(&self) -> (r: Option<&Song>)
        ensures
            self.song_queue@.len() == 0 ==> r is None,
            self.song_queue@.len() > 0 ==> r == Some(&self.song_queue@[0]),
    {
        if self.song_queue.len() == 0 {
            None
        } else {
            Some(&self.song_queue[0])
        }
    }

    /// Takes the song at the head of the queue.
    pub fn skip(&mut self) -> (r: Option<Song>)
        ensures
            old(self).song_queue@.len() == 0 ==> r is None && final(self).song_queue@ == old(self).song_queue@,
            old(self).song_queue@.len() > 0 ==> r == Some(old(self).song_queue@[0]) && final(self).song_queue@
                == old(self).song_queue@.drop_first(),
            final(self).streaming_state == old(self).streaming_state,
            final(self).playing_state == old(self).playing_state,
    {
        let r = self.song_queue.pop_front();
        proof {
            if old(self).song_queue@.len() > 0 {
                assert(old(self).song_queue@.subrange(1, old(self).song_queue@.len() as int) =~= old(
                    self,
                ).song_queue@.drop_first());
            }
        }
        r
    }
}

} // verus!
