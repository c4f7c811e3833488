//! The streaming controllers of the connected players, one per player id.
use vstd::prelude::*;
use crate::assoc::{assoc_index, assoc_map, assoc_put, assoc_take, distinct_keys, lemma_assoc_map};
use crate::ids::{uuid_string, uuid_text};
use crate::playback::player::Song;
use crate::playback::streaming::{handled, StreamingController, StreamingEvent, PlayingState, StreamingState};
use crate::plugins::push_str_chars;
use crate::text::string_from_chars;

verus! {

/// The error for a player without a controller: "Player {id} not found".
pub open spec fn not_found_text(player: u128) -> Seq<char> {
    "Player "@ + uuid_text(player) + " not found"@
}

/// A controller as `StreamingController::new` makes it for `player` at `now`.
pub open spec fn fresh_controller(c: StreamingController, player: u128, now: u64) -> bool {
    &&& c.master_id == player
    &&& c.streaming_state == StreamingState::Idle
    &&& c.playing_state == PlayingState::Stopped
    &&& c.song_queue@.len() == 0
    &&& c.current_song is None
    &&& c.next_track is None
    &&& c.resume_time is None
    &&& c.frame_data@.len() == 0
    &&& c.last_state_change == now
    &&& !c.rebuffering
    &&& c.consecutive_errors == 0
    &&& c.sync_group_id is None
}

/// The streaming controllers of the players, by player id.
pub struct PlayerManager {
    controllers: Vec<(u128, StreamingController)>,
}

fn not_found(player: u128) -> (r: String)
    ensures
        r@ == not_found_text(player),
{
    let id = uuid_string(player);
    let mut v: Vec<char> = Vec::new();
    push_str_chars(&mut v, "Player ");
    push_str_chars(&mut v, id.as_str());
    push_str_chars(&mut v, " not found");
    string_from_chars(v.as_slice())
}

impl PlayerManager {
    /// Player id to controller.
    pub closed spec fn controllers(&self) -> Map<u128, StreamingController> {
        assoc_map(self.controllers@)
    }

    /// No player is held twice.
    pub closed spec fn wf(&self) -> bool {
        distinct_keys(self.controllers@)
    }

    /// A manager with no players.
    pub fn new() -> (r: Self)
        ensures
            r.wf(),
            r.controllers() == Map::<u128, StreamingController>::empty(),
    {
        Self { controllers: Vec::new() }
    }

    /// The controller of a player.
    pub fn get_controller(&self, player_id: u128) -> (r: Option<&StreamingController>)
        requires
            self.wf(),
        ensures
            match r {
                Some(c) => self.controllers().contains_key(player_id) && *c == self.controllers()[player_id],
                None => !self.controllers().contains_key(player_id),
            },
    {
        proof {
            lemma_assoc_map(self.controllers@);
        }
        match assoc_index(&self.controllers, player_id) {
            Some(i) => {
                assert(self.controllers@[i as int].0 == player_id);
                Some(&self.controllers[i].1)
            },
            None => None,
        }
    }

    /// Gives a player a new controller, replacing one it had.
    pub fn register_player(&mut self, player_id: u128, now: u64)
        requires
            old(self).wf(),
        ensures
            final(self).wf(),
            final(self).controllers().contains_key(player_id),
            fresh_controller(final(self).controllers()[player_id], player_id, now),
            final(self).controllers() == old(self).controllers().insert(player_id, final(self).controllers()[player_id]),
    {
        let c = StreamingController::new(player_id, now);
        assoc_put(&mut self.controllers, player_id, c);
    }

    /// Drops a player's controller.
    pub fn unregister_player(&mut self, player_id: u128)
        requires
            old(self).wf(),
        ensures
            final(self).wf(),
            final(self).controllers() == old(self).controllers().remove(player_id),
    {
        let _ = assoc_take(&mut self.controllers, player_id);
    }

    /// Hands an event to a player's controller; a player without one is
    /// "Player {id} not found".
    pub fn send_event(&mut self, player_id: u128, event: StreamingEvent, now: u64) -> (r: Result<(), String>)
        requires
            old(self).wf(),
        ensures
            final(self).wf(),
            !old(self).controllers().contains_key(player_id) ==> *final(self) == *old(self) && (r matches Err(m)
                && m@ == not_found_text(player_id)),
            old(self).controllers().contains_key(player_id) ==> {
                &&& final(self).controllers().contains_key(player_id)
                &&& final(self).controllers() == old(self).controllers().insert(
                    player_id,
                    final(self).controllers()[player_id],
                )
                &&& handled(old(self).controllers()[player_id], final(self).controllers()[player_id], event, now, r)
            },
    {
        match assoc_index(&self.controllers, player_id) {
            None => {
                proof {
                    crate::assoc::lemma_assoc_absent(self.controllers@, player_id);
                }
                return Err(not_found(player_id));
            },
            Some(i) => {
                proof {
                    crate::assoc::lemma_assoc_at(self.controllers@, i as int);
                }
            },
        }
        match assoc_take(&mut self.controllers, player_id) {
            None => Err(not_found(player_id)),
            Some(mut c) => {
                let r = c.handle_event(event, now);
                let ghost after = c;
                assoc_put(&mut self.controllers, player_id, c);
                assert(self.controllers() =~= old(self).controllers().insert(player_id, after));
                r
            },
        }
    }

    /// Queues a track on a player's controller and starts playing it; a
    /// player without one is "Player {id} not found".
    pub fn play_track(&mut self, player_id: u128, track_id: i64, url: String, now: u64) -> (r: Result<(), String>)
        requires
            old(self).wf(),
        ensures
            final(self).wf(),
            !old(self).controllers().contains_key(player_id) ==> *final(self) == *old(self) && (r matches Err(m)
                && m@ == not_found_text(player_id)),
            old(self).controllers().contains_key(player_id) ==> {
                let c = old(self).controllers()[player_id];
                let song = Song { track_id, url, duration: None };
                &&& final(self).controllers().contains_key(player_id)
                &&& final(self).controllers() == old(self).controllers().insert(
                    player_id,
                    final(self).controllers()[player_id],
                )
                &&& exists|q: StreamingController|
                    q.song_queue@ == c.song_queue@.push(song) && q.streaming_state == c.streaming_state
                        && q.playing_state == c.playing_state && q.current_song == c.current_song
                        && #[trigger] handled(q, final(self).controllers()[player_id], StreamingEvent::Play, now, r)
            },
    {
        match assoc_index(&self.controllers, player_id) {
            None => {
                proof {
                    crate::assoc::lemma_assoc_absent(self.controllers@, player_id);
                }
                return Err(not_found(player_id));
            },
            Some(i) => {
                proof {
                    crate::assoc::lemma_assoc_at(self.controllers@, i as int);
                }
            },
        }
        match assoc_take(&mut self.controllers, player_id) {
            None => Err(not_found(player_id)),
            Some(mut c) => {
                c.enqueue(Song { track_id, url, duration: None });
                let ghost q = c;
                let r = c.handle_event(StreamingEvent::Play, now);
                let ghost after = c;
                assoc_put(&mut self.controllers, player_id, c);
                assert(self.controllers() =~= old(self).controllers().insert(player_id, after));
                assert(handled(q, self.controllers()[player_id], StreamingEvent::Play, now, r));
                r
            },
        }
    }

    /// The ids of the players with a controller, each once.
    pub fn get_player_ids(&self) -> (r: Vec<u128>)
        requires
            self.wf(),
        ensures
            r@.no_duplicates(),
            forall|k: u128| #[trigger] self.controllers().contains_key(k) <==> r@.contains(k),
    {
        proof {
            lemma_assoc_map(self.controllers@);
        }
        let mut out: Vec<u128> = Vec::new();
        let mut i: usize = 0;
        while i < self.controllers.len()
            invariant
                distinct_keys(self.controllers@),
                i <= self.controllers@.len(),
                out@.len() == i,
                forall|j: int| 0 <= j < i ==> out@[j] == self.controllers@[j].0,
            decreases self.controllers@.len() - i,
        {
            out.push(self.controllers[i].0);
            i = i + 1;
        }
        assert forall|k: u128| #[trigger] self.controllers().contains_key(k) <==> out@.contains(k) by {
            if self.controllers().contains_key(k) {
                let j = choose|j: int| 0 <= j < self.controllers@.len() && self.controllers@[j].0 == k;
                assert(out@[j] == k);
            }
            if out@.contains(k) {
                let j = choose|j: int| 0 <= j < out@.len() && out@[j] == k;
                assert(self.controllers@[j].0 == k);
            }
        }
        out
    }
}

impl Default for PlayerManager {
    fn default() -> (r: Self)
        ensures
            r.wf(),
            r.controllers() == Map::<u128, StreamingController>::empty(),
    {
        Self::new()
    }
}

} // verus!
