//! Per-player playlists: the tracks, the current position, repeat and
//! shuffle modes and whether the player is playing; and the manager that
//! keeps one playlist per player id.
use vstd::prelude::*;
use crate::assoc::{assoc_map, distinct_keys, lemma_assoc_map, lemma_assoc_push, lemma_assoc_remove, lemma_assoc_update};
use crate::text::str_eq;

verus! {

/// A track in a playlist; its duration in milliseconds, where known.
#[derive(Debug)]
pub struct PlaylistTrack {
    pub id: i64,
    pub url: String,
    pub title: Option<String>,
    pub artist: Option<String>,
    pub album: Option<String>,
    pub duration: Option<u64>,
}

/// A track as plain values.
pub struct TrackView {
    pub id: i64,
    pub url: Seq<char>,
    pub title: Option<Seq<char>>,
    pub artist: Option<Seq<char>>,
    pub album: Option<Seq<char>>,
    pub duration: Option<u64>,
}

pub open spec fn opt_str(o: Option<String>) -> Option<Seq<char>> {
    match o {
        Some(s) => Some(s@),
        None => None,
    }
}

pub open spec fn track_view(t: PlaylistTrack) -> TrackView {
    TrackView {
        id: t.id,
        url: t.url@,
        title: opt_str(t.title),
        artist: opt_str(t.artist),
        album: opt_str(t.album),
        duration: t.duration,
    }
}

pub open spec fn tracks_view(v: Seq<PlaylistTrack>) -> Seq<TrackView> {
    v.map_values(|t: PlaylistTrack| track_view(t))
}

fn copy_opt(o: &Option<String>) -> (r: Option<String>)
    ensures
        opt_str(r) == opt_str(*o),
{
    match o {
        Some(s) => Some(s.clone()),
        None => None,
    }
}

impl PlaylistTrack {
    /// A copy of the track.
    pub fn copy(&self) -> (r: Self)
        ensures
            track_view(r) == track_view(*self),
    {
        PlaylistTrack {
            id: self.id,
            url: self.url.clone(),
            title: copy_opt(&self.title),
            artist: copy_opt(&self.artist),
            album: copy_opt(&self.album),
            duration: self.duration,
        }
    }
}

/// A player's playlist. Repeat: 0 off, 1 song, 2 playlist. Shuffle: 0
/// off, 1 songs, 2 albums.
#[derive(Debug)]
pub struct Playlist {
    pub tracks: Vec<PlaylistTrack>,
    pub current_index: Option<usize>,
    pub repeat: u8,
    pub shuffle: u8,
    pub playing: bool,
}

/// A playlist as plain values.
pub struct PlaylistView {
    pub tracks: Seq<TrackView>,
    pub current: Option<usize>,
    pub repeat: u8,
    pub shuffle: u8,
    pub playing: bool,
}

pub open spec fn playlist_view(p: Playlist) -> PlaylistView {
    PlaylistView {
        tracks: tracks_view(p.tracks@),
        current: p.current_index,
        repeat: p.repeat,
        shuffle: p.shuffle,
        playing: p.playing,
    }
}

/// An empty playlist with every mode off.
pub open spec fn empty_playlist() -> PlaylistView {
    PlaylistView { tracks: Seq::empty(), current: None, repeat: 0, shuffle: 0, playing: false }
}

/// A current position exactly when there are tracks, and inside them.
pub open spec fn wf_playlist(p: PlaylistView) -> bool {
    match p.current {
        Some(i) => i < p.tracks.len(),
        None => p.tracks.len() == 0,
    }
}

/// The track at a position, if there is one there.
pub open spec fn track_at(p: PlaylistView, i: Option<usize>) -> Option<TrackView> {
    match i {
        Some(k) => if k < p.tracks.len() {
            Some(p.tracks[k as int])
        } else {
            None
        },
        None => None,
    }
}

/// Where `next` moves: one on, or back to the start when repeating the
/// playlist, or staying on the last track; the first track from nowhere.
pub open spec fn next_index(p: PlaylistView) -> Option<usize> {
    match p.current {
        Some(c) => if c + 1 < p.tracks.len() {
            Some((c + 1) as usize)
        } else if p.repeat == 2 {
            Some(0)
        } else {
            Some(c)
        },
        None => Some(0),
    }
}

/// Where `previous` moves: one back, or to the end when repeating the
/// playlist, or staying on the first track; the first track from nowhere.
pub open spec fn previous_index(p: PlaylistView) -> Option<usize> {
    match p.current {
        Some(c) => if c > 0 {
            Some((c - 1) as usize)
        } else if p.repeat == 2 {
            Some((p.tracks.len() - 1) as usize)
        } else {
            Some(0)
        },
        None => Some(0),
    }
}

/// The current position after removing the track at `index`.
pub open spec fn index_after_remove(cur: Option<usize>, index: int, new_len: int) -> Option<usize> {
    match cur {
        Some(c) => if index == c {
            if new_len == 0 {
                None
            } else if c >= new_len {
                Some((new_len - 1) as usize)
            } else {
                Some(c)
            }
        } else if index < c {
            Some((c - 1) as usize)
        } else {
            Some(c)
        },
        None => None,
    }
}

impl Playlist {
    /// An empty playlist with every mode off.
    pub fn new() -> (r: Self)
        ensures
            playlist_view(r) == empty_playlist(),
    {
        let r = Self { tracks: Vec::new(), current_index: None, repeat: 0, shuffle: 0, playing: false };
        assert(tracks_view(r.tracks@) =~= Seq::empty());
        r
    }

    /// A copy of the playlist.
    pub fn copy(&self) -> (r: Self)
        ensures
            playlist_view(r) == playlist_view(*self),
    {
        let mut tracks: Vec<PlaylistTrack> = Vec::new();
        let mut i: usize = 0;
        while i < self.tracks.len()
            invariant
                i <= self.tracks@.len(),
                tracks_view(tracks@) == tracks_view(self.tracks@.take(i as int)),
            decreases self.tracks@.len() - i,
        {
            let ghost before = tracks@;
            let c = self.tracks[i].copy();
            tracks.push(c);
            assert(tracks_view(tracks@) =~= tracks_view(before).push(track_view(c)));
            assert(self.tracks@.take(i + 1) =~= self.tracks@.take(i as int).push(self.tracks@[i as int]));
            assert(tracks_view(self.tracks@.take(i + 1)) =~= tracks_view(self.tracks@.take(i as int)).push(
                track_view(self.tracks@[i as int]),
            ));
            i = i + 1;
        }
        assert(self.tracks@.take(self.tracks@.len() as int) =~= self.tracks@);
        Self {
            tracks,
            current_index: self.current_index,
            repeat: self.repeat,
            shuffle: self.shuffle,
            playing: self.playing,
        }
    }

    /// Appends a track; the first track becomes current.
    pub fn add_track(&mut self, track: PlaylistTrack)
        ensures
            playlist_view(*final(self)) == (PlaylistView {
                tracks: playlist_view(*old(self)).tracks.push(track_view(track)),
                current: if old(self).tracks@.len() == 0 {
                    Some(0)
                } else {
                    old(self).current_index
                },
                ..playlist_view(*old(self))
            }),
    {
        let ghost before = self.tracks@;
        self.tracks.push(track);
        assert(tracks_view(self.tracks@) =~= tracks_view(before).push(track_view(track)));
        if self.tracks.len() == 1 {
            self.current_index = Some(0);
        }
    }

    /// Appends tracks; if the playlist was empty and is not now, the first
    /// track becomes current.
    pub fn add_tracks(&mut self, tracks: Vec<PlaylistTrack>)
        ensures
            playlist_view(*final(self)) == (PlaylistView {
                tracks: playlist_view(*old(self)).tracks + tracks_view(tracks@),
                current: if old(self).tracks@.len() == 0 && tracks@.len() > 0 {
                    Some(0)
                } else {
                    old(self).current_index
                },
                ..playlist_view(*old(self))
            }),
    {
        let was_empty = self.tracks.len() == 0;
        let ghost before = self.tracks@;
        let mut rest = tracks;
        let ghost all = rest@;
        let mut i: usize = 0;
        let n = rest.len();
        let mut moved: Vec<PlaylistTrack> = Vec::new();
        std::mem::swap(&mut moved, &mut rest);
        let mut taken: Vec<PlaylistTrack> = Vec::new();
        while moved.len() > 0
            invariant
                tracks_view(taken@) + tracks_view(moved@).reverse() == tracks_view(all).reverse(),
            decreases moved@.len(),
        {
            let ghost m = moved@;
            let t = moved.pop().unwrap();
            assert(m =~= moved@.push(t));
            let ghost tb = taken@;
            taken.push(t);
            assert(tracks_view(m) =~= tracks_view(moved@).push(track_view(t)));
            assert(tracks_view(m).reverse() =~= seq![track_view(t)] + tracks_view(moved@).reverse());
            assert(tracks_view(taken@) =~= tracks_view(tb).push(track_view(t)));
        }
        assert(tracks_view(moved@).reverse() =~= Seq::empty());
        assert(tracks_view(taken@) =~= tracks_view(all).reverse());
        while taken.len() > 0
            invariant
                tracks_view(self.tracks@) + tracks_view(taken@).reverse() == tracks_view(before) + tracks_view(all),
                self.current_index == old(self).current_index,
                self.repeat == old(self).repeat,
                self.shuffle == old(self).shuffle,
                self.playing == old(self).playing,
            decreases taken@.len(),
        {
            let ghost m = taken@;
            let t = taken.pop().unwrap();
            assert(m =~= taken@.push(t));
            let ghost sb = self.tracks@;
            self.tracks.push(t);
            assert(tracks_view(m) =~= tracks_view(taken@).push(track_view(t)));
            assert(tracks_view(m).reverse() =~= seq![track_view(t)] + tracks_view(taken@).reverse());
            assert(tracks_view(self.tracks@) =~= tracks_view(sb).push(track_view(t)));
            assert(tracks_view(self.tracks@) + tracks_view(taken@).reverse() =~= tracks_view(sb) + tracks_view(
                m,
            ).reverse());
        }
        assert(tracks_view(taken@).reverse() =~= Seq::empty());
        assert(tracks_view(self.tracks@) =~= tracks_view(before) + tracks_view(all));
        if was_empty && self.tracks.len() > 0 {
            self.current_index = Some(0);
        }
    }

    /// Inserts a track at `index` (ignored past the end), keeping the
    /// current track current.
    pub fn insert_track(&mut self, index: usize, track: PlaylistTrack)
        requires
            old(self).current_index != Some(usize::MAX),
        ensures
            index > old(self).tracks@.len() ==> playlist_view(*final(self)) == playlist_view(*old(self)),
            index <= old(self).tracks@.len() ==> playlist_view(*final(self)) == (PlaylistView {
                tracks: playlist_view(*old(self)).tracks.insert(index as int, track_view(track)),
                current: match old(self).current_index {
                    Some(c) => if index <= c {
                        Some((c + 1) as usize)
                    } else {
                        Some(c)
                    },
                    None => if old(self).tracks@.len() == 0 {
                        Some(0)
                    } else {
                        None
                    },
                },
                ..playlist_view(*old(self))
            }),
    {
        if index <= self.tracks.len() {
            let ghost before = self.tracks@;
            self.tracks.insert(index, track);
            assert(tracks_view(self.tracks@) =~= tracks_view(before).insert(index as int, track_view(track)));
            match self.current_index {
                Some(current) => {
                    if index <= current {
                        self.current_index = Some(current + 1);
                    }
                },
                None => {
                    if self.tracks.len() == 1 {
                        self.current_index = Some(0);
                    }
                },
            }
        }
    }

    /// Removes the track at `index`, if there is one, and adjusts the
    /// current position.
    pub fn remove_track(&mut self, index: usize) -> (r: Option<PlaylistTrack>)
        ensures
            index >= old(self).tracks@.len() ==> r is None && playlist_view(*final(self)) == playlist_view(*old(self)),
            index < old(self).tracks@.len() ==> (r matches Some(t) && track_view(t) == track_view(
                old(self).tracks@[index as int],
            )) && playlist_view(*final(self)) == (PlaylistView {
                tracks: playlist_view(*old(self)).tracks.remove(index as int),
                current: index_after_remove(old(self).current_index, index as int, old(self).tracks@.len() - 1),
                ..playlist_view(*old(self))
            }),
    {
        if index < self.tracks.len() {
            let ghost before = self.tracks@;
            let track = self.tracks.remove(index);
            assert(tracks_view(self.tracks@) =~= tracks_view(before).remove(index as int));
            match self.current_index {
                Some(current) => {
                    if index == current {
                        if self.tracks.len() == 0 {
                            self.current_index = None;
                        } else if current >= self.tracks.len() {
                            self.current_index = Some(self.tracks.len() - 1);
                        }
                    } else if index < current {
                        self.current_index = Some(current - 1);
                    }
                },
                None => {},
            }
            Some(track)
        } else {
            None
        }
    }

    /// Removes every track.
    pub fn clear(&mut self)
        ensures
            playlist_view(*final(self)) == (PlaylistView {
                tracks: Seq::empty(),
                current: None,
                ..playlist_view(*old(self))
            }),
    {
        self.tracks.clear();
        self.current_index = None;
        assert(tracks_view(self.tracks@) =~= Seq::empty());
    }

    /// The current track.
    pub fn current_track(&self) -> (r: Option<&PlaylistTrack>)
        ensures
            match r {
                Some(t) => track_at(playlist_view(*self), self.current_index) == Some(track_view(*t)),
                None => track_at(playlist_view(*self), self.current_index) is None,
            },
    {
        match self.current_index {
            Some(i) => {
                if i < self.tracks.len() {
                    Some(&self.tracks[i])
                } else {
                    None
                }
            },
            None => None,
        }
    }

    /// Moves to the next track and returns it (a copy); an empty playlist
    /// stays as it is.
    pub fn next(&mut self) -> (r: Option<PlaylistTrack>)
        requires
            old(self).current_index != Some(usize::MAX),
        ensures
            old(self).tracks@.len() == 0 ==> r is None && playlist_view(*final(self)) == playlist_view(*old(self)),
            old(self).tracks@.len() > 0 ==> playlist_view(*final(self)) == (PlaylistView {
                current: next_index(playlist_view(*old(self))),
                ..playlist_view(*old(self))
            }) && match r {
                Some(t) => track_at(playlist_view(*old(self)), next_index(playlist_view(*old(self)))) == Some(
                    track_view(t),
                ),
                None => track_at(playlist_view(*old(self)), next_index(playlist_view(*old(self)))) is None,
            },
    {
        if self.tracks.len() == 0 {
            return None;
        }
        self.current_index = match self.current_index {
            Some(current) => {
                let next_index = current + 1;
                if next_index < self.tracks.len() {
                    Some(next_index)
                } else if self.repeat == 2 {
                    Some(0)
                } else {
                    Some(current)
                }
            },
            None => Some(0),
        };
        match self.current_track() {
            Some(t) => Some(t.copy()),
            None => None,
        }
    }

    /// Moves to the previous track and returns it (a copy); an empty
    /// playlist stays as it is.
    pub fn previous(&mut self) -> (r: Option<PlaylistTrack>)
        ensures
            old(self).tracks@.len() == 0 ==> r is None && playlist_view(*final(self)) == playlist_view(*old(self)),
            old(self).tracks@.len() > 0 ==> playlist_view(*final(self)) == (PlaylistView {
                current: previous_index(playlist_view(*old(self))),
                ..playlist_view(*old(self))
            }) && match r {
                Some(t) => track_at(playlist_view(*old(self)), previous_index(playlist_view(*old(self)))) == Some(
                    track_view(t),
                ),
                None => track_at(playlist_view(*old(self)), previous_index(playlist_view(*old(self)))) is None,
            },
    {
        if self.tracks.len() == 0 {
            return None;
        }
        self.current_index = match self.current_index {
            Some(current) => {
                if current > 0 {
                    Some(current - 1)
                } else if self.repeat == 2 {
                    Some(self.tracks.len() - 1)
                } else {
                    Some(0)
                }
            },
            None => Some(0),
        };
        match self.current_track() {
            Some(t) => Some(t.copy()),
            None => None,
        }
    }

    /// Makes the track at `index` current and returns it (a copy); an index
    /// past the end changes nothing.
    pub fn jump_to(&mut self, index: usize) -> (r: Option<PlaylistTrack>)
        ensures
            index >= old(self).tracks@.len() ==> r is None && playlist_view(*final(self)) == playlist_view(*old(self)),
            index < old(self).tracks@.len() ==> playlist_view(*final(self)) == (PlaylistView {
                current: Some(index),
                ..playlist_view(*old(self))
            }) && (r matches Some(t) && track_view(t) == track_view(old(self).tracks@[index as int])),
    {
        if index < self.tracks.len() {
            self.current_index = Some(index);
            Some(self.tracks[index].copy())
        } else {
            None
        }
    }

    /// The number of tracks.
    pub fn len(&self) -> (r: usize)
        ensures
            r == self.tracks@.len(),
    {
        self.tracks.len()
    }

    /// Whether there are no tracks.
    pub fn is_empty(&self) -> (r: bool)
        ensures
            r == (self.tracks@.len() == 0),
    {
        self.tracks.len() == 0
    }

    /// All the tracks, in order.
    pub fn all_tracks(&self) -> (r: &[PlaylistTrack])
        ensures
            r@ == self.tracks@,
    {
        self.tracks.as_slice()
    }
}

impl Default for Playlist {
    fn default() -> (r: Self)
        ensures
            playlist_view(r) == empty_playlist(),
    {
        Self::new()
    }
}

/// Adding, inserting, removing, clearing, moving and jumping keep a
/// well-formed playlist well formed.
pub proof fn lemma_playlist_ops_keep_wf(p: PlaylistView, t: TrackView, index: int)
    requires
        wf_playlist(p),
        p.tracks.len() < usize::MAX,
    ensures
        wf_playlist((PlaylistView {
            tracks: p.tracks.push(t),
            current: if p.tracks.len() == 0 {
                Some(0)
            } else {
                p.current
            },
            ..p
        })),
        0 <= index <= p.tracks.len() ==> wf_playlist((PlaylistView {
            tracks: p.tracks.insert(index, t),
            current: match p.current {
                Some(c) => if index <= c {
                    Some((c + 1) as usize)
                } else {
                    Some(c)
                },
                None => if p.tracks.len() == 0 {
                    Some(0)
                } else {
                    None
                },
            },
            ..p
        })),
        0 <= index < p.tracks.len() ==> wf_playlist((PlaylistView {
            tracks: p.tracks.remove(index),
            current: index_after_remove(p.current, index, p.tracks.len() - 1),
            ..p
        })),
        wf_playlist((PlaylistView { tracks: Seq::empty(), current: None, ..p })),
        p.tracks.len() > 0 ==> wf_playlist((PlaylistView { current: next_index(p), ..p })),
        p.tracks.len() > 0 ==> wf_playlist((PlaylistView { current: previous_index(p), ..p })),
        0 <= index < p.tracks.len() ==> wf_playlist((PlaylistView { current: Some(index as usize), ..p })),
{
}

/// Away from the ends of the playlist, moving on and then back returns to
/// the same track.
pub proof fn lemma_next_then_previous(p: PlaylistView)
    requires
        wf_playlist(p),
        p.tracks.len() <= usize::MAX,
        p.current matches Some(c) && c + 1 < p.tracks.len(),
    ensures
        previous_index((PlaylistView { current: next_index(p), ..p })) == p.current,
{
}

/// Repeating the whole playlist, moving on from the last track comes back
/// to the first.
pub proof fn lemma_next_wraps_when_repeating(p: PlaylistView)
    requires
        p.repeat == 2,
        0 < p.tracks.len() <= usize::MAX,
        p.current == Some((p.tracks.len() - 1) as usize),
    ensures
        next_index(p) == Some(0usize),
{
}

/// At the ends of the playlist only repeating the whole playlist (mode 2)
/// wraps round: from the last track `next` goes to the first, and from the
/// first `previous` goes to the last; in every other repeat mode each stays
/// where it is.
pub proof fn lemma_wrap_only_when_repeating_playlist(p: PlaylistView)
    requires
        0 < p.tracks.len() <= usize::MAX,
    ensures
        p.current == Some((p.tracks.len() - 1) as usize) ==> next_index(p) == if p.repeat == 2 {
            Some(0usize)
        } else {
            p.current
        },
        p.current == Some(0usize) ==> previous_index(p) == if p.repeat == 2 {
            Some((p.tracks.len() - 1) as usize)
        } else {
            p.current
        },
{
}

// ---------------------------------------------------------------------------
// Playlists of every player
// ---------------------------------------------------------------------------

/// One playlist per player id.
pub struct PlaylistManager {
    playlists: Vec<(String, Playlist)>,
}

pub open spec fn playlist_pairs(v: Seq<(String, Playlist)>) -> Seq<(Seq<char>, PlaylistView)> {
    v.map_values(|e: (String, Playlist)| (e.0@, playlist_view(e.1)))
}

/// The playlist kept for a player, an empty one where none is kept.
pub open spec fn playlist_of(m: Map<Seq<char>, PlaylistView>, player: Seq<char>) -> PlaylistView {
    if m.contains_key(player) {
        m[player]
    } else {
        empty_playlist()
    }
}

impl PlaylistManager {
    /// Player id to playlist.
    pub closed spec fn lists(&self) -> Map<Seq<char>, PlaylistView> {
        assoc_map(playlist_pairs(self.playlists@))
    }

    /// No player is held twice.
    pub closed spec fn wf(&self) -> bool {
        distinct_keys(playlist_pairs(self.playlists@))
    }

    /// A manager with no playlists.
    pub fn new() -> (r: Self)
        ensures
            r.wf(),
            r.lists() == Map::<Seq<char>, PlaylistView>::empty(),
    {
        let r = Self { playlists: Vec::new() };
        assert(playlist_pairs(r.playlists@) =~= Seq::empty());
        r
    }

    fn index_of(&self, player_id: &str) -> (r: Option<usize>)
        requires
            self.wf(),
        ensures
            r is Some <==> self.lists().contains_key(player_id@),
            r matches Some(i) ==> i < self.playlists@.len() && self.playlists@[i as int].0@ == player_id@
                && playlist_view(self.playlists@[i as int].1) == self.lists()[player_id@],
    {
        let ghost pairs = playlist_pairs(self.playlists@);
        let mut i: usize = 0;
        while i < self.playlists.len()
            invariant
                pairs == playlist_pairs(self.playlists@),
                distinct_keys(pairs),
                i <= self.playlists@.len(),
                forall|j: int| 0 <= j < i ==> (#[trigger] pairs[j]).0 != player_id@,
            decreases self.playlists@.len() - i,
        {
            if str_eq(self.playlists[i].0.as_str(), player_id) {
                proof {
                    lemma_assoc_map(pairs);
                    assert(pairs[i as int] == (self.playlists@[i as int].0@, playlist_view(self.playlists@[i as int].1)));
                }
                return Some(i);
            }
            assert(pairs[i as int] == (self.playlists@[i as int].0@, playlist_view(self.playlists@[i as int].1)));
            i = i + 1;
        }
        proof {
            lemma_assoc_map(pairs);
            if self.lists().contains_key(player_id@) {
                let j = choose|j: int| 0 <= j < pairs.len() && pairs[j].0 == player_id@;
                assert(pairs[j].0 != player_id@);
            }
        }
        None
    }

    /// A copy of a player's playlist, or an empty one.
    pub fn get_playlist(&self, player_id: &str) -> (r: Playlist)
        requires
            self.wf(),
        ensures
            playlist_view(r) == playlist_of(self.lists(), player_id@),
    {
        match self.index_of(player_id) {
            Some(i) => self.playlists[i].1.copy(),
            None => Playlist::new(),
        }
    }

    /// Stores a player's playlist.
    pub fn set_playlist(&mut self, player_id: &str, playlist: Playlist)
        requires
            old(self).wf(),
        ensures
            final(self).wf(),
            final(self).lists() == old(self).lists().insert(player_id@, playlist_view(playlist)),
    {
        let ghost pairs = playlist_pairs(self.playlists@);
        let ghost pv = playlist_view(playlist);
        match self.index_of(player_id) {
            Some(i) => {
                proof {
                    lemma_assoc_update(pairs, i as int, pv);
                }
                let key = crate::text::string_of(player_id);
                self.playlists.set(i, (key, playlist));
                assert(playlist_pairs(self.playlists@) =~= pairs.update(i as int, (pairs[i as int].0, pv)));
            },
            None => {
                proof {
                    lemma_assoc_push(pairs, player_id@, pv);
                }
                self.playlists.push((crate::text::string_of(player_id), playlist));
                assert(playlist_pairs(self.playlists@) =~= pairs.push((player_id@, pv)));
            },
        }
    }

    /// Appends a track to a player's playlist.
    pub fn add_track(&mut self, player_id: &str, track: PlaylistTrack)
        requires
            old(self).wf(),
        ensures
            final(self).wf(),
            final(self).lists() == old(self).lists().insert(
                player_id@,
                ({
                    let p = playlist_of(old(self).lists(), player_id@);
                    (PlaylistView {
                        tracks: p.tracks.push(track_view(track)),
                        current: if p.tracks.len() == 0 {
                            Some(0)
                        } else {
                            p.current
                        },
                        ..p
                    })
                }),
            ),
    {
        let mut playlist = self.get_playlist(player_id);
        playlist.add_track(track);
        self.set_playlist(player_id, playlist);
    }

    /// Drops a player's playlist.
    pub fn clear(&mut self, player_id: &str)
        requires
            old(self).wf(),
        ensures
            final(self).wf(),
            final(self).lists() == old(self).lists().remove(player_id@),
    {
        let ghost pairs = playlist_pairs(self.playlists@);
        match self.index_of(player_id) {
            Some(i) => {
                proof {
                    lemma_assoc_remove(pairs, i as int);
                }
                let _ = self.playlists.remove(i);
                assert(playlist_pairs(self.playlists@) =~= pairs.remove(i as int));
            },
            None => {
                assert(self.lists().remove(player_id@) =~= self.lists());
            },
        }
    }

    /// Moves a player's playlist on and returns the new current track.
    pub fn next(&mut self, player_id: &str) -> (r: Option<PlaylistTrack>)
        requires
            old(self).wf(),
            playlist_of(old(self).lists(), player_id@).current != Some(usize::MAX),
        ensures
            final(self).wf(),
            ({
                let p = playlist_of(old(self).lists(), player_id@);
                &&& p.tracks.len() == 0 ==> r is None && final(self).lists() == old(self).lists().insert(player_id@, p)
                &&& p.tracks.len() > 0 ==> final(self).lists() == old(self).lists().insert(
                    player_id@,
                    (PlaylistView { current: next_index(p), ..p }),
                ) && match r {
                    Some(t) => track_at(p, next_index(p)) == Some(track_view(t)),
                    None => track_at(p, next_index(p)) is None,
                }
            }),
    {
        let mut playlist = self.get_playlist(player_id);
        let track = playlist.next();
        self.set_playlist(player_id, playlist);
        track
    }

    /// Moves a player's playlist back and returns the new current track.
    pub fn previous(&mut self, player_id: &str) -> (r: Option<PlaylistTrack>)
        requires
            old(self).wf(),
        ensures
            final(self).wf(),
            ({
                let p = playlist_of(old(self).lists(), player_id@);
                &&& p.tracks.len() == 0 ==> r is None && final(self).lists() == old(self).lists().insert(player_id@, p)
                &&& p.tracks.len() > 0 ==> final(self).lists() == old(self).lists().insert(
                    player_id@,
                    (PlaylistView { current: previous_index(p), ..p }),
                ) && match r {
                    Some(t) => track_at(p, previous_index(p)) == Some(track_view(t)),
                    None => track_at(p, previous_index(p)) is None,
                }
            }),
    {
        let mut playlist = self.get_playlist(player_id);
        let track = playlist.previous();
        self.set_playlist(player_id, playlist);
        track
    }

    /// Makes a track of a player's playlist current and returns it.
    pub fn jump_to(&mut self, player_id: &str, index: usize) -> (r: Option<PlaylistTrack>)
        requires
            old(self).wf(),
        ensures
            final(self).wf(),
            ({
                let p = playlist_of(old(self).lists(), player_id@);
                &&& index >= p.tracks.len() ==> r is None && final(self).lists() == old(self).lists().insert(player_id@, p)
                &&& index < p.tracks.len() ==> final(self).lists() == old(self).lists().insert(
                    player_id@,
                    (PlaylistView { current: Some(index), ..p }),
                ) && (r matches Some(t) && track_view(t) == p.tracks[index as int])
            }),
    {
        let mut playlist = self.get_playlist(player_id);
        let track = playlist.jump_to(index);
        self.set_playlist(player_id, playlist);
        track
    }

    /// Sets a player's shuffle mode.
    pub fn set_shuffle(&mut self, player_id: &str, mode: u8)
        requires
            old(self).wf(),
        ensures
            final(self).wf(),
            final(self).lists() == old(self).lists().insert(
                player_id@,
                (PlaylistView { shuffle: mode, ..playlist_of(old(self).lists(), player_id@) }),
            ),
    {
        let mut playlist = self.get_playlist(player_id);
        playlist.shuffle = mode;
        self.set_playlist(player_id, playlist);
    }

    /// Sets a player's repeat mode.
    pub fn set_repeat(&mut self, player_id: &str, mode: u8)
        requires
            old(self).wf(),
        ensures
            final(self).wf(),
            final(self).lists() == old(self).lists().insert(
                player_id@,
                (PlaylistView { repeat: mode, ..playlist_of(old(self).lists(), player_id@) }),
            ),
    {
        let mut playlist = self.get_playlist(player_id);
        playlist.repeat = mode;
        self.set_playlist(player_id, playlist);
    }

    /// Sets whether a player is playing.
    pub fn set_playing(&mut self, player_id: &str, playing: bool)
        requires
            old(self).wf(),
        ensures
            final(self).wf(),
            final(self).lists() == old(self).lists().insert(
                player_id@,
                (PlaylistView { playing, ..playlist_of(old(self).lists(), player_id@) }),
            ),
    {
        let mut playlist = self.get_playlist(player_id);
        playlist.playing = playing;
        self.set_playlist(player_id, playlist);
    }

    /// Whether a player is playing.
    pub fn is_playing(&self, player_id: &str) -> (r: bool)
        requires
            self.wf(),
        ensures
            r == playlist_of(self.lists(), player_id@).playing,
    {
        let playlist = self.get_playlist(player_id);
        playlist.playing
    }
}

impl Default for PlaylistManager {
    fn default() -> (r: Self)
        ensures
            r.wf(),
            r.lists() == Map::<Seq<char>, PlaylistView>::empty(),
    {
        Self::new()
    }
}

/// What is stored for a player is what a later read gives back; other
/// players' playlists are untouched.
pub proof fn lemma_set_then_get(m: Map<Seq<char>, PlaylistView>, player: Seq<char>, other: Seq<char>, p: PlaylistView)
    ensures
        playlist_of(m.insert(player, p), player) == p,
        other != player ==> playlist_of(m.insert(player, p), other) == playlist_of(m, other),
        playlist_of(m.remove(player), player) == empty_playlist(),
{
}

} // verus!
