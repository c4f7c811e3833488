//! Multi-room synchronisation: sync groups of a master and its slaves, the
//! play points players report, and the periodic check that tells players
//! ahead of the group to skip forward. Identifiers are 128-bit UUIDs,
//! times are in milliseconds and stream positions in microseconds.
use vstd::prelude::*;
use crate::assoc::{assoc_index, assoc_map, assoc_put, assoc_take, distinct_keys, lemma_assoc_absent, lemma_assoc_at};
use crate::ids::{random_id, uuid_string, uuid_text};
use crate::plugins::concat_str;

verus! {

/// How often a group is checked, in milliseconds.
pub const CHECK_SYNC_INTERVAL: u64 = 950;

/// The smallest deviation worth adjusting, in microseconds (10 ms).
pub const MIN_DEVIATION_ADJUST: u64 = 10_000;

/// The largest deviation that is adjusted, in microseconds (10 s).
pub const MAX_DEVIATION_ADJUST: u64 = 10_000_000;

/// How old a play point may be and still count, in milliseconds.
pub const PLAYPOINT_RECENT_THRESHOLD: u64 = 3000;

/// A play point: when it was measured (ms) and the stream position (µs).
#[derive(Debug, Clone, Copy, PartialEq, Eq, Structural)]
pub struct PlayPoint {
    pub timestamp: u64,
    pub position: i64,
}

/// A master player and the slaves that follow it.
#[derive(Debug)]
pub struct SyncGroup {
    pub id: u128,
    pub master: u128,
    pub slaves: Vec<u128>,
    /// When the group is next due for a check, in milliseconds.
    pub next_check_sync_time: u64,
}

/// A group as plain values.
pub struct GroupView {
    pub id: u128,
    pub master: u128,
    pub slaves: Seq<u128>,
    pub next_check: u64,
}

/// The group with `player` among its slaves (added at the end when it is
/// not there yet).
pub open spec fn with_slave(g: GroupView, player: u128) -> GroupView {
    GroupView { slaves: if g.slaves.contains(player) { g.slaves } else { g.slaves.push(player) }, ..g }
}

pub open spec fn group_view(g: SyncGroup) -> GroupView {
    GroupView { id: g.id, master: g.master, slaves: g.slaves@, next_check: g.next_check_sync_time }
}

/// A copy of a list of identifiers.
fn copy_ids(v: &Vec<u128>) -> (r: Vec<u128>)
    ensures
        r@ == v@,
{
    let mut out: Vec<u128> = Vec::new();
    let mut i: usize = 0;
    while i < v.len()
        invariant
            i <= v@.len(),
            out@ == v@.take(i as int),
        decreases v@.len() - i,
    {
        out.push(v[i]);
        i = i + 1;
        assert(out@ =~= v@.take(i as int));
    }
    assert(v@.take(v@.len() as int) =~= v@);
    out
}

/// Whether `x` is in `v`.
fn contains_id(v: &Vec<u128>, x: u128) -> (r: bool)
    ensures
        r == v@.contains(x),
{
    let mut i: usize = 0;
    while i < v.len()
        invariant
            i <= v@.len(),
            forall|j: int| 0 <= j < i ==> v@[j] != x,
        decreases v@.len() - i,
    {
        if v[i] == x {
            assert(v@[i as int] == x);
            return true;
        }
        i = i + 1;
    }
    false
}

impl SyncGroup {
    /// A group with a fresh random id, led by `master`, with no slaves,
    /// due for a check at `now`.
    pub fn new(master: u128, now: u64) -> (r: Self)
        ensures
            r.master == master,
            r.slaves@.len() == 0,
            r.next_check_sync_time == now,
    {
        Self { id: random_id(), master, slaves: Vec::new(), next_check_sync_time: now }
    }

    /// A copy of the group.
    pub fn copy(&self) -> (r: Self)
        ensures
            group_view(r) == group_view(*self),
    {
        Self {
            id: self.id,
            master: self.master,
            slaves: copy_ids(&self.slaves),
            next_check_sync_time: self.next_check_sync_time,
        }
    }

    /// Adds a slave, unless it is one already.
    pub fn add_slave(&mut self, player: u128)
        ensures
            final(self).slaves@ == (if old(self).slaves@.contains(player) {
                old(self).slaves@
            } else {
                old(self).slaves@.push(player)
            }),
            final(self).id == old(self).id,
            final(self).master == old(self).master,
            final(self).next_check_sync_time == old(self).next_check_sync_time,
    {
        if !contains_id(&self.slaves, player) {
            self.slaves.push(player);
        }
    }

    /// Removes every occurrence of a slave.
    pub fn remove_slave(&mut self, player: u128)
        ensures
            final(self).slaves@ == old(self).slaves@.filter(|p: u128| p != player),
            final(self).id == old(self).id,
            final(self).master == old(self).master,
            final(self).next_check_sync_time == old(self).next_check_sync_time,
    {
        let mut kept: Vec<u128> = Vec::new();
        let mut i: usize = 0;
        while i < self.slaves.len()
            invariant
                i <= self.slaves@.len(),
                self.slaves@ == old(self).slaves@,
                kept@ == self.slaves@.take(i as int).filter(|p: u128| p != player),
            decreases self.slaves@.len() - i,
        {
            let p = self.slaves[i];
            assert(self.slaves@.take(i + 1).drop_last() =~= self.slaves@.take(i as int));
            proof {
                reveal_with_fuel(Seq::<u128>::filter, 1);
            }
            if p != player {
                kept.push(p);
            }
            i = i + 1;
        }
        assert(self.slaves@.take(self.slaves@.len() as int) =~= self.slaves@);
        self.slaves = kept;
    }

    /// The master followed by the slaves.
    pub fn all_players(&self) -> (r: Vec<u128>)
        ensures
            r@ == seq![self.master] + self.slaves@,
    {
        let mut players: Vec<u128> = Vec::new();
        players.push(self.master);
        let mut i: usize = 0;
        while i < self.slaves.len()
            invariant
                i <= self.slaves@.len(),
                players@ == seq![self.master] + self.slaves@.take(i as int),
            decreases self.slaves@.len() - i,
        {
            players.push(self.slaves[i]);
            i = i + 1;
            assert(players@ =~= seq![self.master] + self.slaves@.take(i as int));
        }
        assert(self.slaves@.take(self.slaves@.len() as int) =~= self.slaves@);
        players
    }

    /// Whether `player` is the master.
    pub fn is_master(&self, player: u128) -> (r: bool)
        ensures
            r == (self.master == player),
    {
        self.master == player
    }

    /// Whether `player` is a slave.
    pub fn is_slave(&self, player: u128) -> (r: bool)
        ensures
            r == self.slaves@.contains(player),
    {
        contains_id(&self.slaves, player)
    }

    /// The master and the slaves, counted.
    pub fn player_count(&self) -> (r: usize)
        requires
            self.slaves@.len() < usize::MAX,
        ensures
            r == 1 + self.slaves@.len(),
    {
        1 + self.slaves.len()
    }

    /// Whether the group has no slaves.
    pub fn is_empty(&self) -> (r: bool)
        ensures
            r == (self.slaves@.len() == 0),
    {
        self.slaves.len() == 0
    }
}

/// An instruction for one player of a group; the deviation is in microseconds.
#[derive(Debug, Clone, Copy, PartialEq, Eq, Structural)]
pub enum SyncAdjustment {
    /// The player is ahead: skip forward by `delta`.
    SkipAhead { player: u128, delta: u64 },
    /// The player is behind: pause for `delta`.
    PauseFor { player: u128, delta: u64 },
}

impl SyncAdjustment {
    /// The player an adjustment is for.
    pub open spec fn adjusted_player(self) -> u128 {
        match self {
            SyncAdjustment::SkipAhead { player, .. } => player,
            SyncAdjustment::PauseFor { player, .. } => player,
        }
    }
}

// ---------------------------------------------------------------------------
// The sync check, as values
// ---------------------------------------------------------------------------

/// The play delay of a player, zero where none was set.
pub open spec fn delay_of(delays: Map<u128, i32>, p: u128) -> int {
    if delays.contains_key(p) {
        delays[p] as int
    } else {
        0
    }
}

/// The players of `players` with a play point newer than the threshold,
/// in order, each with its position moved by its play delay.
pub open spec fn recent_points(
    players: Seq<u128>,
    points: Map<u128, PlayPoint>,
    delays: Map<u128, i32>,
    now: u64,
) -> Seq<(u128, int)>
    decreases players.len(),
{
    if players.len() == 0 {
        Seq::empty()
    } else {
        let rest = recent_points(players.drop_last(), points, delays, now);
        let p = players.last();
        if points.contains_key(p) && points[p].timestamp + PLAYPOINT_RECENT_THRESHOLD > now {
            rest.push((p, points[p].position + delay_of(delays, p) * 1000))
        } else {
            rest
        }
    }
}

/// `x` inserted into `s` after every element with a position at least
/// as far along.
pub open spec fn insert_desc(s: Seq<(u128, int)>, x: (u128, int)) -> Seq<(u128, int)>
    decreases s.len(),
{
    if s.len() == 0 {
        seq![x]
    } else if s.last().1 >= x.1 {
        s.push(x)
    } else {
        insert_desc(s.drop_last(), x).push(s.last())
    }
}

/// The points by decreasing position, points at the same position in
/// their original order.
pub open spec fn sort_desc(s: Seq<(u128, int)>) -> Seq<(u128, int)>
    decreases s.len(),
{
    if s.len() == 0 {
        Seq::empty()
    } else {
        insert_desc(sort_desc(s.drop_last()), s.last())
    }
}

/// The adjustments for sorted points: every point but the last (the one
/// furthest behind) whose lead over it is within the adjustment range
/// skips ahead by that lead, in order.
pub open spec fn adjustments_for(sorted: Seq<(u128, int)>) -> Seq<SyncAdjustment>
    recommends
        sorted.len() > 0,
{
    let r = sorted.last().1;
    sorted.drop_last().filter(
        |x: (u128, int)| MIN_DEVIATION_ADJUST <= x.1 - r <= MAX_DEVIATION_ADJUST,
    ).map_values(|x: (u128, int)| SyncAdjustment::SkipAhead { player: x.0, delta: (x.1 - r) as u64 })
}

/// Manages the sync groups, their members, the play points and play delays.
pub struct SyncManager {
    player_groups: Vec<(u128, u128)>,
    sync_groups: Vec<(u128, SyncGroup)>,
    play_points: Vec<(u128, PlayPoint)>,
    play_delays: Vec<(u128, i32)>,
}

pub open spec fn groups_view(v: Seq<(u128, SyncGroup)>) -> Seq<(u128, GroupView)> {
    v.map_values(|e: (u128, SyncGroup)| (e.0, group_view(e.1)))
}

impl SyncManager {
    /// Player to the group it belongs to.
    pub closed spec fn membership(&self) -> Map<u128, u128> {
        assoc_map(self.player_groups@)
    }

    /// Group id to group.
    pub closed spec fn groups(&self) -> Map<u128, GroupView> {
        assoc_map(groups_view(self.sync_groups@))
    }

    /// Player to its latest play point.
    pub closed spec fn points(&self) -> Map<u128, PlayPoint> {
        assoc_map(self.play_points@)
    }

    /// Player to its play delay in milliseconds.
    pub closed spec fn delays(&self) -> Map<u128, i32> {
        assoc_map(self.play_delays@)
    }

    /// No key is held twice and each group is stored under its own id.
    pub closed spec fn wf(&self) -> bool {
        &&& distinct_keys(self.player_groups@)
        &&& distinct_keys(self.sync_groups@)
        &&& distinct_keys(self.play_points@)
        &&& distinct_keys(self.play_delays@)
        &&& forall|i: int| 0 <= i < self.sync_groups@.len() ==> (#[trigger] self.sync_groups@[i]).1.id == self.sync_groups@[i].0
    }

    /// A manager with no groups, play points or delays.
    pub fn new() -> (r: Self)
        ensures
            r.wf(),
            r.membership() == Map::<u128, u128>::empty(),
            r.groups() == Map::<u128, GroupView>::empty(),
            r.points() == Map::<u128, PlayPoint>::empty(),
            r.delays() == Map::<u128, i32>::empty(),
    {
        let r = Self {
            player_groups: Vec::new(),
            sync_groups: Vec::new(),
            play_points: Vec::new(),
            play_delays: Vec::new(),
        };
        assert(groups_view(r.sync_groups@) =~= Seq::empty());
        r
    }

    proof fn lemma_groups_map(&self)
        requires
            self.wf(),
        ensures
            distinct_keys(groups_view(self.sync_groups@)),
            forall|i: int| 0 <= i < self.sync_groups@.len() ==> #[trigger] self.groups().contains_key(self.sync_groups@[i].0)
                && self.groups()[self.sync_groups@[i].0] == group_view(self.sync_groups@[i].1),
            forall|k: u128| #[trigger] self.groups().contains_key(k) ==> exists|i: int|
                0 <= i < self.sync_groups@.len() && self.sync_groups@[i].0 == k,
            forall|k: u128| #[trigger] self.groups().contains_key(k) ==> self.groups()[k].id == k,
    {
        let gv = groups_view(self.sync_groups@);
        assert(distinct_keys(gv)) by {
            assert forall|a: int, b: int| 0 <= a < gv.len() && 0 <= b < gv.len() && a != b implies #[trigger] gv[a].0
                != #[trigger] gv[b].0 by {
                assert(gv[a].0 == self.sync_groups@[a].0);
                assert(gv[b].0 == self.sync_groups@[b].0);
            }
        }
        crate::assoc::lemma_assoc_map(gv);
        assert forall|i: int| 0 <= i < self.sync_groups@.len() implies #[trigger] self.groups().contains_key(
            self.sync_groups@[i].0,
        ) && self.groups()[self.sync_groups@[i].0] == group_view(self.sync_groups@[i].1) by {
            assert(gv[i] == (self.sync_groups@[i].0, group_view(self.sync_groups@[i].1)));
        }
        assert forall|k: u128| #[trigger] self.groups().contains_key(k) implies exists|i: int|
            0 <= i < self.sync_groups@.len() && self.sync_groups@[i].0 == k by {
            let i = choose|i: int| 0 <= i < gv.len() && gv[i].0 == k;
            assert(gv[i].0 == self.sync_groups@[i].0);
        }
        assert forall|k: u128| #[trigger] self.groups().contains_key(k) implies self.groups()[k].id == k by {
            let i = choose|i: int| 0 <= i < gv.len() && gv[i].0 == k;
            assert(gv[i] == (self.sync_groups@[i].0, group_view(self.sync_groups@[i].1)));
        }
    }

    /// Stores a group under its id.
    fn put_group(&mut self, g: SyncGroup)
        requires
            old(self).wf(),
        ensures
            final(self).wf(),
            final(self).groups() == old(self).groups().insert(g.id, group_view(g)),
            final(self).membership() == old(self).membership(),
            final(self).points() == old(self).points(),
            final(self).delays() == old(self).delays(),
    {
        let ghost before = self.sync_groups@;
        let ghost gvb = groups_view(before);
        proof {
            self.lemma_groups_map();
        }
        let id = g.id;
        let ghost gv = group_view(g);
        match assoc_index(&self.sync_groups, id) {
            Some(i) => {
                proof {
                    crate::assoc::lemma_assoc_update(gvb, i as int, gv);
                }
                self.sync_groups.set(i, (id, g));
                assert(groups_view(self.sync_groups@) =~= gvb.update(i as int, (gvb[i as int].0, gv)));
            },
            None => {
                proof {
                    assert forall|j: int| 0 <= j < gvb.len() implies gvb[j].0 != id by {
                        assert(gvb[j].0 == before[j].0);
                    }
                    lemma_assoc_absent(gvb, id);
                    crate::assoc::lemma_assoc_push(gvb, id, gv);
                }
                self.sync_groups.push((id, g));
                assert(groups_view(self.sync_groups@) =~= gvb.push((id, gv)));
            },
        }
        assert forall|j: int| 0 <= j < self.sync_groups@.len() implies (#[trigger] self.sync_groups@[j]).1.id
            == self.sync_groups@[j].0 by {
            if j < before.len() && self.sync_groups@[j] == before[j] {
            }
        }
        assert(distinct_keys(self.sync_groups@)) by {
            let gn = groups_view(self.sync_groups@);
            assert forall|a: int, b: int|
                0 <= a < self.sync_groups@.len() && 0 <= b < self.sync_groups@.len() && a != b implies #[trigger] self.sync_groups@[a].0
                != #[trigger] self.sync_groups@[b].0 by {
                assert(gn[a].0 == self.sync_groups@[a].0);
                assert(gn[b].0 == self.sync_groups@[b].0);
            }
        }
    }

    /// Takes the group with id `id` out of the manager.
    fn take_group(&mut self, id: u128) -> (r: Option<SyncGroup>)
        requires
            old(self).wf(),
        ensures
            final(self).wf(),
            final(self).groups() == old(self).groups().remove(id),
            r is Some <==> old(self).groups().contains_key(id),
            r matches Some(g) ==> group_view(g) == old(self).groups()[id],
            final(self).membership() == old(self).membership(),
            final(self).points() == old(self).points(),
            final(self).delays() == old(self).delays(),
    {
        proof {
            self.lemma_groups_map();
        }
        let ghost before = self.sync_groups@;
        let ghost gvb = groups_view(before);
        match assoc_index(&self.sync_groups, id) {
            Some(i) => {
                proof {
                    crate::assoc::lemma_assoc_remove(gvb, i as int);
                }
                assert(self.groups().contains_key(self.sync_groups@[i as int].0));
                let (_, g) = self.sync_groups.remove(i);
                assert(groups_view(self.sync_groups@) =~= gvb.remove(i as int));
                assert forall|j: int| 0 <= j < self.sync_groups@.len() implies (#[trigger] self.sync_groups@[j]).1.id
                    == self.sync_groups@[j].0 by {
                    if j < i {
                        assert(self.sync_groups@[j] == before[j]);
                    } else {
                        assert(self.sync_groups@[j] == before[j + 1]);
                    }
                }
                assert(distinct_keys(self.sync_groups@)) by {
                    let gn = groups_view(self.sync_groups@);
                    assert forall|a: int, b: int|
                        0 <= a < self.sync_groups@.len() && 0 <= b < self.sync_groups@.len() && a != b implies #[trigger] self.sync_groups@[a].0
                        != #[trigger] self.sync_groups@[b].0 by {
                        assert(gn[a].0 == self.sync_groups@[a].0);
                        assert(gn[b].0 == self.sync_groups@[b].0);
                    }
                }
                Some(g)
            },
            None => {
                proof {
                    assert forall|j: int| 0 <= j < gvb.len() implies gvb[j].0 != id by {
                        assert(gvb[j].0 == before[j].0);
                    }
                    lemma_assoc_absent(gvb, id);
                    assert(self.groups().remove(id) =~= self.groups());
                }
                None
            },
        }
    }

    /// A copy of the group with id `id`.
    fn group_copy(&self, id: u128) -> (r: Option<SyncGroup>)
        requires
            self.wf(),
        ensures
            r is Some <==> self.groups().contains_key(id),
            r matches Some(g) ==> group_view(g) == self.groups()[id],
    {
        proof {
            self.lemma_groups_map();
        }
        match assoc_index(&self.sync_groups, id) {
            Some(i) => {
                assert(self.groups().contains_key(self.sync_groups@[i as int].0));
                Some(self.sync_groups[i].1.copy())
            },
            None => {
                proof {
                    if self.groups().contains_key(id) {
                        let j = choose|j: int| 0 <= j < self.sync_groups@.len() && self.sync_groups@[j].0 == id;
                        assert(self.sync_groups@[j].0 != id);
                    }
                }
                None
            },
        }
    }

    /// Creates a group led by `master` with a fresh random id, due for a
    /// check at `now`, and puts the master in it.
    pub fn create_group(&mut self, master: u128, now: u64) -> (r: u128)
        requires
            old(self).wf(),
        ensures
            final(self).wf(),
            final(self).groups() == old(self).groups().insert(
                r,
                GroupView { id: r, master, slaves: Seq::empty(), next_check: now },
            ),
            final(self).membership() == old(self).membership().insert(master, r),
            final(self).points() == old(self).points(),
            final(self).delays() == old(self).delays(),
    {
        let group = SyncGroup::new(master, now);
        let id = group.id;
        assert(group.slaves@ =~= Seq::<u128>::empty());
        assert(group_view(group) == GroupView { id, master, slaves: Seq::empty(), next_check: now });
        self.put_group(group);
        assoc_put(&mut self.player_groups, master, id);
        id
    }

    /// Adds `player` to the group `group_id` as a slave and records its
    /// membership; an unknown group is an error.
    pub fn add_to_group(&mut self, group_id: u128, player: u128) -> (r: Result<(), String>)
        requires
            old(self).wf(),
        ensures
            final(self).wf(),
            !old(self).groups().contains_key(group_id) ==> (r matches Err(m) && m@ == "Sync group "@ + uuid_text(
                group_id,
            ) + " not found"@) && final(self).groups() == old(self).groups() && final(self).membership() == old(
                self,
            ).membership(),
            old(self).groups().contains_key(group_id) ==> r is Ok && final(self).groups() == old(self).groups().insert(
                group_id,
                GroupView {
                    slaves: if old(self).groups()[group_id].slaves.contains(player) {
                        old(self).groups()[group_id].slaves
                    } else {
                        old(self).groups()[group_id].slaves.push(player)
                    },
                    ..old(self).groups()[group_id]
                },
            ) && final(self).membership() == old(self).membership().insert(player, group_id),
            final(self).points() == old(self).points(),
            final(self).delays() == old(self).delays(),
    {
        proof {
            self.lemma_groups_map();
        }
        match self.take_group(group_id) {
            Some(mut g) => {
                let ghost g0 = group_view(g);
                g.add_slave(player);
                assert(g.id == group_id);
                self.put_group(g);
                assert(self.groups() =~= old(self).groups().insert(group_id, group_view(g)));
                assoc_put(&mut self.player_groups, player, group_id);
                Ok(())
            },
            None => {
                assert(self.groups() =~= old(self).groups());
                let a = concat_str("Sync group ", uuid_string(group_id).as_str());
                Err(concat_str(a.as_str(), " not found"))
            },
        }
    }

    /// Syncs `player` to `target`: `player` joins the group `target`
    /// belongs to, or, where `target` is in no group, a new group with
    /// `target` as master (created at `now`). Returns the group's id.
    pub fn sync_to(&mut self, player: u128, target: u128, now: u64) -> (r: u128)
        requires
            old(self).wf(),
        ensures
            final(self).wf(),
            ({
                let m0 = old(self).membership();
                let g0 = old(self).groups();
                if m0.contains_key(target) && g0.contains_key(m0[target]) {
                    &&& r == m0[target]
                    &&& final(self).groups() == g0.insert(r, with_slave(g0[r], player))
                    &&& final(self).membership() == m0.insert(player, r)
                } else {
                    &&& final(self).groups() == g0.insert(
                        r,
                        GroupView { id: r, master: target, slaves: seq![player], next_check: now },
                    )
                    &&& final(self).membership() == m0.insert(target, r).insert(player, r)
                }
            }),
            final(self).points() == old(self).points(),
            final(self).delays() == old(self).delays(),
    {
        proof {
            self.lemma_groups_map();
        }
        let group_id = match self.get_group(target) {
            Some(group) => group.id,
            None => self.create_group(target, now),
        };
        let ghost mid = self.groups();
        let added = self.add_to_group(group_id, player);
        proof {
            assert(mid.contains_key(group_id));
            if !(old(self).membership().contains_key(target) && old(self).groups().contains_key(
                old(self).membership()[target],
            )) {
                assert(!Seq::<u128>::empty().contains(player));
                assert(Seq::<u128>::empty().push(player) =~= seq![player]);
                assert(mid.insert(group_id, with_slave(mid[group_id], player)) =~= old(self).groups().insert(
                    group_id,
                    GroupView { id: group_id, master: target, slaves: seq![player], next_check: now },
                ));
            }
        }
        group_id
    }

    /// The group of a player, copied.
    pub fn get_group(&self, player: u128) -> (r: Option<SyncGroup>)
        requires
            self.wf(),
        ensures
            match r {
                Some(g) => self.membership().contains_key(player) && self.groups().contains_key(
                    self.membership()[player],
                ) && group_view(g) == self.groups()[self.membership()[player]],
                None => !self.membership().contains_key(player) || !self.groups().contains_key(
                    self.membership()[player],
                ),
            },
    {
        match assoc_index(&self.player_groups, player) {
            Some(i) => {
                proof {
                    lemma_assoc_at(self.player_groups@, i as int);
                }
                self.group_copy(self.player_groups[i].1)
            },
            None => {
                proof {
                    lemma_assoc_absent(self.player_groups@, player);
                }
                None
            },
        }
    }

    /// Whether a player belongs to a group.
    pub fn is_synced(&self, player: u128) -> (r: bool)
        requires
            self.wf(),
        ensures
            r == self.membership().contains_key(player),
    {
        match assoc_index(&self.player_groups, player) {
            Some(i) => {
                proof {
                    lemma_assoc_at(self.player_groups@, i as int);
                }
                true
            },
            None => {
                proof {
                    lemma_assoc_absent(self.player_groups@, player);
                }
                false
            },
        }
    }

    /// Records a player's position (µs) as measured at `now`.
    pub fn update_play_point(&mut self, player: u128, position: i64, now: u64)
        requires
            old(self).wf(),
        ensures
            final(self).wf(),
            final(self).points() == old(self).points().insert(player, PlayPoint { timestamp: now, position }),
            final(self).groups() == old(self).groups(),
            final(self).membership() == old(self).membership(),
            final(self).delays() == old(self).delays(),
    {
        assoc_put(&mut self.play_points, player, PlayPoint { timestamp: now, position });
    }

    /// Sets a player's play delay in milliseconds.
    pub fn set_play_delay(&mut self, player: u128, delay_ms: i32)
        requires
            old(self).wf(),
        ensures
            final(self).wf(),
            final(self).delays() == old(self).delays().insert(player, delay_ms),
            final(self).groups() == old(self).groups(),
            final(self).membership() == old(self).membership(),
            final(self).points() == old(self).points(),
    {
        assoc_put(&mut self.play_delays, player, delay_ms);
    }

    /// Takes a player out of its group. A master leaving dissolves the
    /// group; the last slave leaving dissolves it too. A player in no group,
    /// or whose group is gone, is an error (the membership is dropped first).
    pub fn remove_from_group(&mut self, player: u128) -> (r: Result<(), String>)
        requires
            old(self).wf(),
        ensures
            final(self).wf(),
            final(self).points() == old(self).points(),
            final(self).delays() == old(self).delays(),
            !old(self).membership().contains_key(player) ==> (r matches Err(m) && m@ == "Player "@ + uuid_text(player)
                + " not in any sync group"@) && final(self).membership() == old(self).membership()
                && final(self).groups() == old(self).groups(),
            old(self).membership().contains_key(player) ==> ({
                let gid = old(self).membership()[player];
                let m = old(self).membership().remove(player);
                if !old(self).groups().contains_key(gid) {
                    &&& (r matches Err(e) && e@ == "Sync group "@ + uuid_text(gid) + " not found"@)
                    &&& final(self).membership() == m
                    &&& final(self).groups() == old(self).groups()
                } else {
                    let g = old(self).groups()[gid];
                    let rest = g.slaves.filter(|p: u128| p != player);
                    &&& r is Ok
                    &&& if g.master == player {
                        &&& final(self).membership() == m.remove_keys(g.slaves.to_set())
                        &&& final(self).groups() == old(self).groups().remove(gid)
                    } else if rest.len() == 0 {
                        &&& final(self).membership() == m.remove(g.master)
                        &&& final(self).groups() == old(self).groups().remove(gid)
                    } else {
                        &&& final(self).membership() == m
                        &&& final(self).groups() == old(self).groups().insert(gid, GroupView { slaves: rest, ..g })
                    }
                }
            }),
    {
        let group_id = match assoc_take(&mut self.player_groups, player) {
            Some(g) => g,
            None => {
                assert(self.membership() =~= old(self).membership());
                let a = concat_str("Player ", uuid_string(player).as_str());
                return Err(concat_str(a.as_str(), " not in any sync group"));
            },
        };
        proof {
            self.lemma_groups_map();
        }
        let mut g = match self.take_group(group_id) {
            Some(g) => g,
            None => {
                assert(self.groups() =~= old(self).groups().remove(group_id));
                assert(self.groups() =~= old(self).groups());
                let a = concat_str("Sync group ", uuid_string(group_id).as_str());
                return Err(concat_str(a.as_str(), " not found"));
            },
        };
        let ghost m0 = self.membership();
        if g.master == player {
            let mut i: usize = 0;
            while i < g.slaves.len()
                invariant
                    self.wf(),
                    self.points() == old(self).points(),
                    self.delays() == old(self).delays(),
                    self.groups() == old(self).groups().remove(group_id),
                    i <= g.slaves@.len(),
                    self.membership() == m0.remove_keys(g.slaves@.take(i as int).to_set()),
                decreases g.slaves@.len() - i,
            {
                let slave = g.slaves[i];
                let _ = assoc_take(&mut self.player_groups, slave);
                proof {
                    let t1 = g.slaves@.take(i + 1);
                    let t0 = g.slaves@.take(i as int);
                    assert forall|a: u128| #[trigger] t1.to_set().contains(a) == t0.to_set().insert(slave).contains(a) by {
                        if t1.contains(a) {
                            let k = choose|k: int| 0 <= k < t1.len() && #[trigger] t1[k] == a;
                            if k < i {
                                assert(t0[k] == a);
                            }
                        }
                        if t0.contains(a) {
                            let k = choose|k: int| 0 <= k < t0.len() && #[trigger] t0[k] == a;
                            assert(t1[k] == a);
                        }
                        if a == slave {
                            assert(t1[i as int] == a);
                        }
                    }
                }
                assert(g.slaves@.take(i + 1).to_set() =~= g.slaves@.take(i as int).to_set().insert(slave));
                assert(self.membership() =~= m0.remove_keys(g.slaves@.take(i + 1).to_set()));
                i = i + 1;
            }
            assert(g.slaves@.take(g.slaves@.len() as int) =~= g.slaves@);
        } else {
            g.remove_slave(player);
            if g.slaves.len() == 0 {
                let _ = assoc_take(&mut self.player_groups, g.master);
            } else {
                assert(g.id == group_id);
                self.put_group(g);
                assert(self.groups() =~= old(self).groups().insert(group_id, group_view(g)));
            }
        }
        Ok(())
    }

    /// The players of `players` with a recent play point, each with its
    /// position moved by its play delay.
    fn collect_recent(&self, players: &Vec<u128>, now: u64) -> (r: Vec<(u128, i128)>)
        requires
            self.wf(),
        ensures
            points_view(r@) == recent_points(players@, self.points(), self.delays(), now),
            bounded_points(r@),
    {
        let mut out: Vec<(u128, i128)> = Vec::new();
        let mut i: usize = 0;
        while i < players.len()
            invariant
                self.wf(),
                i <= players@.len(),
                points_view(out@) == recent_points(players@.take(i as int), self.points(), self.delays(), now),
                bounded_points(out@),
            decreases players@.len() - i,
        {
            let p = players[i];
            assert(players@.take(i + 1).drop_last() =~= players@.take(i as int));
            assert(players@.take(i + 1).last() == p);
            let ghost before = out@;
            match assoc_index(&self.play_points, p) {
                Some(k) => {
                    proof {
                        lemma_assoc_at(self.play_points@, k as int);
                    }
                    let pp = self.play_points[k].1;
                    if (pp.timestamp as u128) + 3000 > now as u128 {
                        let delay: i32 = match assoc_index(&self.play_delays, p) {
                            Some(d) => {
                                proof {
                                    lemma_assoc_at(self.play_delays@, d as int);
                                }
                                self.play_delays[d].1
                            },
                            None => {
                                proof {
                                    lemma_assoc_absent(self.play_delays@, p);
                                }
                                0
                            },
                        };
                        let pos = (pp.position as i128) + (delay as i128) * 1000;
                        out.push((p, pos));
                        assert(points_view(out@) =~= points_view(before).push((p, pos as int)));
                    }
                },
                None => {
                    proof {
                        lemma_assoc_absent(self.play_points@, p);
                    }
                },
            }
            i = i + 1;
        }
        assert(players@.take(players@.len() as int) =~= players@);
        out
    }

    /// Checks a group at time `now`: if it is due, schedules the next
    /// check and, when every player has a recent play point, tells each
    /// player ahead of the one furthest behind by a deviation within the
    /// adjustment range to skip ahead by it.
    pub fn check_sync(&mut self, group_id: u128, now: u64) -> (r: Vec<SyncAdjustment>)
        requires
            old(self).wf(),
            now + CHECK_SYNC_INTERVAL <= u64::MAX,
        ensures
            final(self).wf(),
            final(self).membership() == old(self).membership(),
            final(self).points() == old(self).points(),
            final(self).delays() == old(self).delays(),
            !old(self).groups().contains_key(group_id) || now < old(self).groups()[group_id].next_check ==> r@.len()
                == 0 && final(self).groups() == old(self).groups(),
            old(self).groups().contains_key(group_id) && now >= old(self).groups()[group_id].next_check ==> ({
                let g = old(self).groups()[group_id];
                &&& final(self).groups() == old(self).groups().insert(
                    group_id,
                    GroupView { next_check: (now + CHECK_SYNC_INTERVAL) as u64, ..g },
                )
                &&& r@ == check_result(g, old(self).points(), old(self).delays(), now)
            }),
            old(self).groups().contains_key(group_id) && now >= old(self).groups()[group_id].next_check
                && group_players(old(self).groups()[group_id]).no_duplicates() ==> sync_law(
                old(self).groups()[group_id],
                old(self).points(),
                old(self).delays(),
                now,
                r@,
            ),
    {
        proof {
            self.lemma_groups_map();
            if self.groups().contains_key(group_id) && group_players(self.groups()[group_id]).no_duplicates() {
                lemma_check_sync_law(self.groups()[group_id], self.points(), self.delays(), now);
            }
        }
        let mut g = match self.take_group(group_id) {
            Some(g) => g,
            None => {
                assert(self.groups() =~= old(self).groups());
                return Vec::new();
            },
        };
        if now < g.next_check_sync_time {
            assert(g.id == group_id);
            self.put_group(g);
            assert(self.groups() =~= old(self).groups());
            return Vec::new();
        }
        g.next_check_sync_time = now + 950;
        let players = g.all_players();
        let ghost gv = group_view(g);
        assert(g.id == group_id);
        let has_slaves = g.slaves.len() > 0;
        self.put_group(g);
        if !has_slaves {
            return Vec::new();
        }
        let pts = self.collect_recent(&players, now);
        if pts.len() < players.len() {
            return Vec::new();
        }
        let sorted = sort_points_desc(&pts);
        adjustments_exec(&sorted)
    }

    /// Every group, copied, each once.
    pub fn get_all_groups(&self) -> (r: Vec<SyncGroup>)
        requires
            self.wf(),
        ensures
            forall|i: int| 0 <= i < r@.len() ==> #[trigger] self.groups().contains_key(r@[i].id)
                && self.groups()[r@[i].id] == group_view(r@[i]),
            forall|k: u128| #[trigger] self.groups().contains_key(k) ==> exists|i: int|
                0 <= i < r@.len() && r@[i].id == k,
            forall|i: int, j: int| 0 <= i < r@.len() && 0 <= j < r@.len() && i != j ==> #[trigger] r@[i].id != #[trigger] r@[j].id,
    {
        proof {
            self.lemma_groups_map();
        }
        let mut out: Vec<SyncGroup> = Vec::new();
        let mut i: usize = 0;
        while i < self.sync_groups.len()
            invariant
                self.wf(),
                i <= self.sync_groups@.len(),
                out@.len() == i,
                forall|t: int| 0 <= t < i ==> group_view(#[trigger] out@[t]) == group_view(self.sync_groups@[t].1),
                forall|t: int| 0 <= t < self.sync_groups@.len() ==> (#[trigger] self.sync_groups@[t]).1.id == self.sync_groups@[t].0,
            decreases self.sync_groups@.len() - i,
        {
            out.push(self.sync_groups[i].1.copy());
            i = i + 1;
        }
        proof {
            self.lemma_groups_map();
            assert forall|t: int| 0 <= t < out@.len() implies #[trigger] self.groups().contains_key(out@[t].id)
                && self.groups()[out@[t].id] == group_view(out@[t]) by {
                assert(group_view(out@[t]) == group_view(self.sync_groups@[t].1));
                assert(out@[t].id == self.sync_groups@[t].0);
            }
            assert forall|k: u128| #[trigger] self.groups().contains_key(k) implies exists|t: int|
                0 <= t < out@.len() && out@[t].id == k by {
                let t = choose|t: int| 0 <= t < self.sync_groups@.len() && self.sync_groups@[t].0 == k;
                assert(group_view(out@[t]) == group_view(self.sync_groups@[t].1));
            }
            assert forall|a: int, b: int| 0 <= a < out@.len() && 0 <= b < out@.len() && a != b implies #[trigger] out@[a].id
                != #[trigger] out@[b].id by {
                assert(group_view(out@[a]) == group_view(self.sync_groups@[a].1));
                assert(group_view(out@[b]) == group_view(self.sync_groups@[b].1));
            }
        }
        out
    }
}

impl Default for SyncManager {
    fn default() -> (r: Self)
        ensures
            r.wf(),
            r.membership() == Map::<u128, u128>::empty(),
            r.groups() == Map::<u128, GroupView>::empty(),
    {
        Self::new()
    }
}

/// Points with positions as integers.
pub open spec fn points_view(v: Seq<(u128, i128)>) -> Seq<(u128, int)> {
    v.map_values(|e: (u128, i128)| (e.0, e.1 as int))
}

/// What a due check of a group reports.
pub open spec fn check_result(
    g: GroupView,
    points: Map<u128, PlayPoint>,
    delays: Map<u128, i32>,
    now: u64,
) -> Seq<SyncAdjustment> {
    let players = seq![g.master] + g.slaves;
    let pts = recent_points(players, points, delays, now);
    if g.slaves.len() == 0 || pts.len() < players.len() {
        Seq::empty()
    } else {
        adjustments_for(sort_desc(pts))
    }
}

/// Positions small enough that differences of two cannot overflow.
pub open spec fn bounded_points(s: Seq<(u128, i128)>) -> bool {
    forall|k: int| 0 <= k < s.len() ==> -0x1_0000_0000_0000_0000_0000 <= #[trigger] s[k].1 <= 0x1_0000_0000_0000_0000_0000
}

/// Inserts a point after every point at least as far along.
fn insert_desc_exec(v: &mut Vec<(u128, i128)>, x: (u128, i128))
    requires
        bounded_points(old(v)@),
        -0x1_0000_0000_0000_0000_0000 <= x.1 <= 0x1_0000_0000_0000_0000_0000,
    ensures
        points_view(final(v)@) == insert_desc(points_view(old(v)@), (x.0, x.1 as int)),
        bounded_points(final(v)@),
        final(v)@.len() == old(v)@.len() + 1,
{
    let ghost s = points_view(v@);
    let ghost xv = (x.0, x.1 as int);
    let mut j = v.len();
    assert(s.take(j as int) =~= s);
    assert(s.skip(j as int) =~= Seq::<(u128, int)>::empty());
    while j > 0 && v[j - 1].1 < x.1
        invariant
            j <= v@.len(),
            s == points_view(v@),
            xv == (x.0, x.1 as int),
            v@ == old(v)@,
            insert_desc(s, xv) == insert_desc(s.take(j as int), xv) + s.skip(j as int),
        decreases j,
    {
        let ghost t = s.take(j as int);
        assert(s[j - 1] == (v@[j - 1].0, v@[j - 1].1 as int));
        assert(t.drop_last() =~= s.take(j - 1));
        assert(t.last() == s[j - 1]);
        assert(t.last().1 < xv.1);
        assert(insert_desc(t, xv) == insert_desc(s.take(j - 1), xv).push(s[j - 1]));
        assert(s.skip(j - 1) =~= seq![s[j - 1]] + s.skip(j as int));
        assert(insert_desc(s.take(j - 1), xv).push(s[j - 1]) + s.skip(j as int) =~= insert_desc(s.take(j - 1), xv)
            + s.skip(j - 1));
        j = j - 1;
    }
    assert(insert_desc(s.take(j as int), xv) == s.take(j as int).push(xv));
    let ghost before = v@;
    v.insert(j, x);
    assert(points_view(v@) =~= s.take(j as int).push(xv) + s.skip(j as int));
    assert forall|k: int| 0 <= k < v@.len() implies -0x1_0000_0000_0000_0000_0000 <= #[trigger] v@[k].1
        <= 0x1_0000_0000_0000_0000_0000 by {
        if k < j {
            assert(v@[k] == before[k]);
        } else if k > j {
            assert(v@[k] == before[k - 1]);
        }
    }
}

/// The points by decreasing position, ties in their original order.
fn sort_points_desc(v: &Vec<(u128, i128)>) -> (r: Vec<(u128, i128)>)
    requires
        bounded_points(v@),
    ensures
        points_view(r@) == sort_desc(points_view(v@)),
        bounded_points(r@),
        r@.len() == v@.len(),
{
    let mut out: Vec<(u128, i128)> = Vec::new();
    let mut i: usize = 0;
    while i < v.len()
        invariant
            i <= v@.len(),
            bounded_points(v@),
            bounded_points(out@),
            out@.len() == i,
            points_view(out@) == sort_desc(points_view(v@.take(i as int))),
        decreases v@.len() - i,
    {
        assert(points_view(v@.take(i + 1)).drop_last() =~= points_view(v@.take(i as int)));
        assert(points_view(v@.take(i + 1)).last() == (v@[i as int].0, v@[i as int].1 as int));
        insert_desc_exec(&mut out, v[i]);
        i = i + 1;
    }
    assert(v@.take(v@.len() as int) =~= v@);
    out
}

/// The adjustments for sorted points.
fn adjustments_exec(sorted: &Vec<(u128, i128)>) -> (r: Vec<SyncAdjustment>)
    requires
        sorted@.len() > 0,
        bounded_points(sorted@),
    ensures
        r@ == adjustments_for(points_view(sorted@)),
{
    let ghost sv = points_view(sorted@);
    let n = sorted.len();
    let reference = sorted[n - 1].1;
    assert(-0x1_0000_0000_0000_0000_0000 <= sorted@[n - 1].1 <= 0x1_0000_0000_0000_0000_0000);
    assert(sv.last().1 == reference as int);
    let ghost keep = |x: (u128, int)| MIN_DEVIATION_ADJUST <= x.1 - sv.last().1 <= MAX_DEVIATION_ADJUST;
    let ghost make = |x: (u128, int)| SyncAdjustment::SkipAhead { player: x.0, delta: (x.1 - sv.last().1) as u64 };
    let mut out: Vec<SyncAdjustment> = Vec::new();
    let mut i: usize = 0;
    while i < n - 1
        invariant
            n == sorted@.len(),
            n > 0,
            i <= n - 1,
            sv == points_view(sorted@),
            bounded_points(sorted@),
            reference as int == sv.last().1,
            -0x1_0000_0000_0000_0000_0000 <= reference <= 0x1_0000_0000_0000_0000_0000,
            keep == (|x: (u128, int)| MIN_DEVIATION_ADJUST <= x.1 - sv.last().1 <= MAX_DEVIATION_ADJUST),
            make == (|x: (u128, int)| SyncAdjustment::SkipAhead { player: x.0, delta: (x.1 - sv.last().1) as u64 }),
            out@ == sv.drop_last().take(i as int).filter(keep).map_values(make),
        decreases n - 1 - i,
    {
        let (p, pos) = sorted[i];
        assert(-0x1_0000_0000_0000_0000_0000 <= sorted@[i as int].1 <= 0x1_0000_0000_0000_0000_0000);
        assert(sv.drop_last().take(i + 1).drop_last() =~= sv.drop_last().take(i as int));
        assert(sv.drop_last().take(i + 1).last() == (p, pos as int));
        proof {
            reveal_with_fuel(Seq::<(u128, int)>::filter, 1);
        }
        let ghost before = out@;
        let d: i128 = pos - reference;
        if 10_000 <= d && d <= 10_000_000 {
            out.push(SyncAdjustment::SkipAhead { player: p, delta: d as u64 });
            assert(out@ =~= sv.drop_last().take(i + 1).filter(keep).map_values(make));
        } else {
            assert(out@ =~= sv.drop_last().take(i + 1).filter(keep).map_values(make));
        }
        i = i + 1;
    }
    assert(sv.drop_last().take((n - 1) as int) =~= sv.drop_last());
    out
}

/// Points in non-increasing order of position.
pub open spec fn sorted_desc(s: Seq<(u128, int)>) -> bool {
    forall|i: int, j: int| 0 <= i < j < s.len() ==> #[trigger] s[i].1 >= #[trigger] s[j].1
}

proof fn lemma_insert_desc(s: Seq<(u128, int)>, x: (u128, int))
    requires
        sorted_desc(s),
    ensures
        sorted_desc(insert_desc(s, x)),
        insert_desc(s, x).len() == s.len() + 1,
        forall|k: int| 0 <= k < insert_desc(s, x).len() ==> #[trigger] insert_desc(s, x)[k] == x || s.contains(
            insert_desc(s, x)[k],
        ),
    decreases s.len(),
{
    if s.len() > 0 && s.last().1 < x.1 {
        let t = s.drop_last();
        assert(sorted_desc(t)) by {
            assert forall|i: int, j: int| 0 <= i < j < t.len() implies #[trigger] t[i].1 >= #[trigger] t[j].1 by {
                assert(t[i] == s[i]);
                assert(t[j] == s[j]);
            }
        }
        lemma_insert_desc(t, x);
        let u = insert_desc(t, x);
        let w = u.push(s.last());
        assert forall|k: int| 0 <= k < u.len() implies #[trigger] u[k].1 >= s.last().1 by {
            if u[k] != x {
                let m = choose|m: int| 0 <= m < t.len() && t[m] == u[k];
                assert(s[m] == t[m]);
                assert(s[m].1 >= s[s.len() - 1].1);
            }
        }
        assert forall|i: int, j: int| 0 <= i < j < w.len() implies #[trigger] w[i].1 >= #[trigger] w[j].1 by {
            if j == w.len() - 1 {
                assert(w[i] == u[i]);
            } else {
                assert(w[i] == u[i]);
                assert(w[j] == u[j]);
            }
        }
        assert forall|k: int| 0 <= k < w.len() implies #[trigger] w[k] == x || s.contains(w[k]) by {
            if k < u.len() {
                assert(w[k] == u[k]);
                if u[k] != x {
                    let m = choose|m: int| 0 <= m < t.len() && t[m] == u[k];
                    assert(s[m] == t[m]);
                }
            } else {
                assert(s[s.len() - 1] == w[k]);
            }
        }
    } else if s.len() > 0 {
        let w = s.push(x);
        assert forall|i: int, j: int| 0 <= i < j < w.len() implies #[trigger] w[i].1 >= #[trigger] w[j].1 by {
            if j == w.len() - 1 {
                assert(s[i].1 >= s[s.len() - 1].1);
            }
        }
        assert forall|k: int| 0 <= k < w.len() implies #[trigger] w[k] == x || s.contains(w[k]) by {
            if k < s.len() {
                assert(s[k] == w[k]);
            }
        }
    }
}

/// The order in which a sync check looks at play points puts every point
/// at or before the points behind it, and keeps their number.
pub proof fn lemma_sort_desc_sorted(s: Seq<(u128, int)>)
    ensures
        sorted_desc(sort_desc(s)),
        sort_desc(s).len() == s.len(),
    decreases s.len(),
{
    if s.len() > 0 {
        lemma_sort_desc_sorted(s.drop_last());
        lemma_insert_desc(sort_desc(s.drop_last()), s.last());
    }
}

/// A sync check only ever tells players to skip ahead, by a deviation
/// within the adjustment range, and never tells more players than all but one.
pub proof fn lemma_check_result_in_range(
    g: GroupView,
    points: Map<u128, PlayPoint>,
    delays: Map<u128, i32>,
    now: u64,
)
    ensures
        forall|i: int| 0 <= i < check_result(g, points, delays, now).len() ==> (#[trigger] check_result(g, points, delays, now)[i]
            matches SyncAdjustment::SkipAhead { delta, .. } && MIN_DEVIATION_ADJUST <= delta <= MAX_DEVIATION_ADJUST),
        check_result(g, points, delays, now).len() <= g.slaves.len(),
{
    let players = seq![g.master] + g.slaves;
    let pts = recent_points(players, points, delays, now);
    if !(g.slaves.len() == 0 || pts.len() < players.len()) {
        let sorted = sort_desc(pts);
        lemma_sort_desc_sorted(pts);
        lemma_recent_points_len(players, points, delays, now);
        let r = sorted.last().1;
        let keep = |x: (u128, int)| MIN_DEVIATION_ADJUST <= x.1 - r <= MAX_DEVIATION_ADJUST;
        let f = sorted.drop_last().filter(keep);
        sorted.drop_last().filter_lemma(keep);
        assert forall|i: int| 0 <= i < f.len() implies MIN_DEVIATION_ADJUST <= (#[trigger] f[i]).1 - r
            <= MAX_DEVIATION_ADJUST by {
            assert(keep(f[i]));
        }
    }
}

proof fn lemma_recent_points_len(players: Seq<u128>, points: Map<u128, PlayPoint>, delays: Map<u128, i32>, now: u64)
    ensures
        recent_points(players, points, delays, now).len() <= players.len(),
    decreases players.len(),
{
    if players.len() > 0 {
        lemma_recent_points_len(players.drop_last(), points, delays, now);
    }
}


/// The members of a group: the master, then the slaves.
pub open spec fn group_players(g: GroupView) -> Seq<u128> {
    seq![g.master] + g.slaves
}

/// A player's play point is newer than the threshold at `now`.
pub open spec fn is_recent(points: Map<u128, PlayPoint>, p: u128, now: u64) -> bool {
    points.contains_key(p) && points[p].timestamp + PLAYPOINT_RECENT_THRESHOLD > now
}

/// A player's position (µs) moved by its play delay (ms).
pub open spec fn played_at(points: Map<u128, PlayPoint>, delays: Map<u128, i32>, p: u128) -> int {
    points[p].position + delay_of(delays, p) * 1000
}

/// No two entries are about the same player.
pub open spec fn distinct_players(s: Seq<(u128, int)>) -> bool {
    forall|i: int, j: int| 0 <= i < s.len() && 0 <= j < s.len() && i != j ==> #[trigger] s[i].0 != #[trigger] s[j].0
}

proof fn lemma_recent_points_all(players: Seq<u128>, points: Map<u128, PlayPoint>, delays: Map<u128, i32>, now: u64)
    ensures
        recent_points(players, points, delays, now).len() <= players.len(),
        recent_points(players, points, delays, now).len() == players.len() <==> (forall|k: int|
            0 <= k < players.len() ==> is_recent(points, #[trigger] players[k], now)),
        recent_points(players, points, delays, now).len() == players.len() ==> (forall|k: int|
            0 <= k < players.len() ==> #[trigger] recent_points(players, points, delays, now)[k] == (
                players[k],
                played_at(points, delays, players[k]),
            )),
    decreases players.len(),
{
    if players.len() > 0 {
        let t = players.drop_last();
        lemma_recent_points_all(t, points, delays, now);
        let rest = recent_points(t, points, delays, now);
        let pts = recent_points(players, points, delays, now);
        let last = players.last();
        if is_recent(points, last, now) {
            assert(pts == rest.push((last, played_at(points, delays, last))));
            if (forall|k: int| 0 <= k < players.len() ==> is_recent(points, #[trigger] players[k], now)) {
                assert forall|k: int| 0 <= k < t.len() implies is_recent(points, #[trigger] t[k], now) by {
                    assert(t[k] == players[k]);
                }
            }
            if pts.len() == players.len() {
                assert forall|k: int| 0 <= k < players.len() implies is_recent(points, #[trigger] players[k], now) by {
                    if k < t.len() {
                        assert(t[k] == players[k]);
                    }
                }
                assert forall|k: int| 0 <= k < players.len() implies #[trigger] pts[k] == (
                    players[k],
                    played_at(points, delays, players[k]),
                ) by {
                    if k < t.len() {
                        assert(t[k] == players[k]);
                        assert(pts[k] == rest[k]);
                    }
                }
            }
        } else {
            assert(!is_recent(points, players[players.len() - 1], now));
        }
    }
}

proof fn lemma_insert_desc_elems(s: Seq<(u128, int)>, x: (u128, int))
    ensures
        forall|e: (u128, int)| #[trigger] insert_desc(s, x).contains(e) <==> (s.contains(e) || e == x),
        distinct_players(s) && (forall|k: int| 0 <= k < s.len() ==> (#[trigger] s[k]).0 != x.0) ==> distinct_players(
            insert_desc(s, x),
        ),
    decreases s.len(),
{
    if s.len() == 0 {
        assert(insert_desc(s, x) == seq![x]);
        assert forall|e: (u128, int)| #[trigger] insert_desc(s, x).contains(e) <==> (s.contains(e) || e == x) by {
            if e == x {
                assert(seq![x][0] == x);
            }
        }
    } else if s.last().1 >= x.1 {
        let w = s.push(x);
        assert(insert_desc(s, x) == w);
        assert forall|e: (u128, int)| #[trigger] w.contains(e) <==> (s.contains(e) || e == x) by {
            if s.contains(e) {
                let k = choose|k: int| 0 <= k < s.len() && s[k] == e;
                assert(w[k] == e);
            }
            if e == x {
                assert(w[s.len() as int] == x);
            }
            if w.contains(e) {
                let k = choose|k: int| 0 <= k < w.len() && w[k] == e;
                if k < s.len() {
                    assert(s[k] == e);
                }
            }
        }
        if distinct_players(s) && (forall|k: int| 0 <= k < s.len() ==> (#[trigger] s[k]).0 != x.0) {
            assert forall|i: int, j: int| 0 <= i < w.len() && 0 <= j < w.len() && i != j implies #[trigger] w[i].0
                != #[trigger] w[j].0 by {
                if i < s.len() && j < s.len() {
                    assert(w[i] == s[i] && w[j] == s[j]);
                } else if i < s.len() {
                    assert(w[i] == s[i]);
                } else {
                    assert(w[j] == s[j]);
                }
            }
        }
    } else {
        let t = s.drop_last();
        let last = s.last();
        lemma_insert_desc_elems(t, x);
        let u = insert_desc(t, x);
        let w = u.push(last);
        assert(insert_desc(s, x) == w);
        assert(s =~= t.push(last));
        assert forall|e: (u128, int)| #[trigger] w.contains(e) <==> (s.contains(e) || e == x) by {
            if w.contains(e) {
                let k = choose|k: int| 0 <= k < w.len() && w[k] == e;
                if k < u.len() {
                    assert(u[k] == e);
                    assert(u.contains(e));
                    if t.contains(e) {
                        let m = choose|m: int| 0 <= m < t.len() && t[m] == e;
                        assert(s[m] == e);
                    }
                } else {
                    assert(s[s.len() - 1] == e);
                }
            }
            if s.contains(e) {
                let k = choose|k: int| 0 <= k < s.len() && s[k] == e;
                if k < t.len() {
                    assert(t[k] == e);
                    assert(t.contains(e));
                    assert(u.contains(e));
                    let m = choose|m: int| 0 <= m < u.len() && u[m] == e;
                    assert(w[m] == e);
                } else {
                    assert(w[u.len() as int] == e);
                }
            }
            if e == x {
                assert(u.contains(x));
                let m = choose|m: int| 0 <= m < u.len() && u[m] == x;
                assert(w[m] == x);
            }
        }
        if distinct_players(s) && (forall|k: int| 0 <= k < s.len() ==> (#[trigger] s[k]).0 != x.0) {
            assert(distinct_players(t)) by {
                assert forall|i: int, j: int| 0 <= i < t.len() && 0 <= j < t.len() && i != j implies #[trigger] t[i].0
                    != #[trigger] t[j].0 by {
                    assert(t[i] == s[i] && t[j] == s[j]);
                }
            }
            assert forall|k: int| 0 <= k < t.len() implies (#[trigger] t[k]).0 != x.0 by {
                assert(t[k] == s[k]);
            }
            assert forall|k: int| 0 <= k < u.len() implies (#[trigger] u[k]).0 != last.0 by {
                assert(u.contains(u[k]));
                if u[k] != x {
                    assert(t.contains(u[k]));
                    let m = choose|m: int| 0 <= m < t.len() && t[m] == u[k];
                    assert(s[m] == t[m]);
                    assert(s[m].0 != s[s.len() - 1].0);
                } else {
                    assert(s[s.len() - 1].0 != x.0);
                }
            }
            assert forall|i: int, j: int| 0 <= i < w.len() && 0 <= j < w.len() && i != j implies #[trigger] w[i].0
                != #[trigger] w[j].0 by {
                if i < u.len() && j < u.len() {
                    assert(w[i] == u[i] && w[j] == u[j]);
                } else if i < u.len() {
                    assert(w[i] == u[i]);
                } else {
                    assert(w[j] == u[j]);
                }
            }
        }
    }
}

proof fn lemma_sort_desc_elems(s: Seq<(u128, int)>)
    ensures
        forall|e: (u128, int)| #[trigger] sort_desc(s).contains(e) <==> s.contains(e),
        distinct_players(s) ==> distinct_players(sort_desc(s)),
    decreases s.len(),
{
    if s.len() > 0 {
        let t = s.drop_last();
        let x = s.last();
        lemma_sort_desc_elems(t);
        let st = sort_desc(t);
        lemma_insert_desc_elems(st, x);
        assert(s =~= t.push(x));
        assert forall|e: (u128, int)| #[trigger] sort_desc(s).contains(e) <==> s.contains(e) by {
            assert(st.contains(e) <==> t.contains(e));
            if t.contains(e) {
                let k = choose|k: int| 0 <= k < t.len() && t[k] == e;
                assert(s[k] == e);
            }
            if e == x {
                assert(s[s.len() - 1] == e);
            }
            if s.contains(e) {
                let k = choose|k: int| 0 <= k < s.len() && s[k] == e;
                if k < t.len() {
                    assert(t[k] == e);
                }
            }
        }
        if distinct_players(s) {
            assert(distinct_players(t)) by {
                assert forall|i: int, j: int| 0 <= i < t.len() && 0 <= j < t.len() && i != j implies #[trigger] t[i].0
                    != #[trigger] t[j].0 by {
                    assert(t[i] == s[i] && t[j] == s[j]);
                }
            }
            assert forall|k: int| 0 <= k < st.len() implies (#[trigger] st[k]).0 != x.0 by {
                assert(st.contains(st[k]));
                assert(t.contains(st[k]));
                let m = choose|m: int| 0 <= m < t.len() && t[m] == st[k];
                assert(s[m] == t[m]);
                assert(s[m].0 != s[s.len() - 1].0);
            }
        }
    }
}

proof fn lemma_filter_players(s: Seq<(u128, int)>, keep: spec_fn((u128, int)) -> bool)
    ensures
        distinct_players(s) ==> distinct_players(s.filter(keep)),
        forall|i: int| 0 <= i < s.filter(keep).len() ==> s.contains(#[trigger] s.filter(keep)[i]),
    decreases s.len(),
{
    reveal(Seq::filter);
    let f = s.filter(keep);
    if s.len() > 0 {
        let t = s.drop_last();
        lemma_filter_players(t, keep);
        let ft = t.filter(keep);
        assert forall|i: int| 0 <= i < f.len() implies s.contains(#[trigger] f[i]) by {
            if i < ft.len() {
                assert(f[i] == ft[i]);
                let m = choose|m: int| 0 <= m < t.len() && t[m] == ft[i];
                assert(s[m] == t[m]);
            } else {
                assert(f[i] == s[s.len() - 1]);
            }
        }
        if distinct_players(s) {
            assert(distinct_players(t)) by {
                assert forall|i: int, j: int| 0 <= i < t.len() && 0 <= j < t.len() && i != j implies #[trigger] t[i].0
                    != #[trigger] t[j].0 by {
                    assert(t[i] == s[i] && t[j] == s[j]);
                }
            }
            if keep(s.last()) {
                assert forall|i: int, j: int| 0 <= i < f.len() && 0 <= j < f.len() && i != j implies #[trigger] f[i].0
                    != #[trigger] f[j].0 by {
                    if i < ft.len() && j < ft.len() {
                        assert(f[i] == ft[i] && f[j] == ft[j]);
                    } else {
                        let k = if i < ft.len() { i } else { j };
                        assert(f[k] == ft[k]);
                        assert(t.contains(ft[k]));
                        let m = choose|m: int| 0 <= m < t.len() && t[m] == ft[k];
                        assert(s[m] == t[m]);
                        assert(s[m].0 != s[s.len() - 1].0);
                    }
                }
            } else {
                assert(f == ft);
            }
        }
    }
}

/// The sync check law for the adjustments `res` of a due check of a
/// group: nothing when the group has no slave or a member has no recent
/// play point; otherwise there is a member furthest behind (by position
/// moved by play delay), every adjustment tells a different member, never
/// that one, to skip ahead by exactly its lead over it, a lead within the
/// adjustment range, and every other member whose lead is within that range
/// gets one.
pub open spec fn sync_law(
    g: GroupView,
    points: Map<u128, PlayPoint>,
    delays: Map<u128, i32>,
    now: u64,
    res: Seq<SyncAdjustment>,
) -> bool {
    &&& g.slaves.len() == 0 || (exists|x: u128| group_players(g).contains(x) && !is_recent(points, x, now))
        ==> res.len() == 0
    &&& !(g.slaves.len() == 0 || (exists|x: u128| group_players(g).contains(x) && !is_recent(points, x, now)))
        ==> exists|lag: u128|
            #![trigger group_players(g).contains(lag)]
            {
                &&& group_players(g).contains(lag)
                &&& forall|x: u128| #[trigger] group_players(g).contains(x) ==> played_at(points, delays, x)
                    >= played_at(points, delays, lag)
                &&& forall|i: int| 0 <= i < res.len() ==> (#[trigger] res[i] matches SyncAdjustment::SkipAhead {
                    player,
                    delta,
                } && group_players(g).contains(player) && player != lag && delta == played_at(points, delays, player)
                    - played_at(points, delays, lag) && MIN_DEVIATION_ADJUST <= delta <= MAX_DEVIATION_ADJUST)
                &&& forall|i: int, j: int| 0 <= i < j < res.len() ==> (#[trigger] res[i]).adjusted_player() != (#[trigger] res[j]).adjusted_player()
                &&& forall|x: u128| #[trigger] group_players(g).contains(x) && x != lag && MIN_DEVIATION_ADJUST <= played_at(
                    points,
                    delays,
                    x,
                ) - played_at(points, delays, lag) <= MAX_DEVIATION_ADJUST ==> exists|i: int|
                    0 <= i < res.len() && (#[trigger] res[i]).adjusted_player() == x
            }
}

/// The sync check law holds of what a due check of a group whose members
/// are all different reports.
pub proof fn lemma_check_sync_law(g: GroupView, points: Map<u128, PlayPoint>, delays: Map<u128, i32>, now: u64)
    requires
        group_players(g).no_duplicates(),
    ensures
        sync_law(g, points, delays, now, check_result(g, points, delays, now)),
{
    let players = group_players(g);
    let pts = recent_points(players, points, delays, now);
    lemma_recent_points_all(players, points, delays, now);
    let res = check_result(g, points, delays, now);
    if g.slaves.len() == 0 || (exists|x: u128| players.contains(x) && !is_recent(points, x, now)) {
        if g.slaves.len() != 0 {
            let x = choose|x: u128| players.contains(x) && !is_recent(points, x, now);
            let k = choose|k: int| 0 <= k < players.len() && players[k] == x;
            assert(!is_recent(points, players[k], now));
            assert(pts.len() < players.len());
        }
    } else {
        assert forall|k: int| 0 <= k < players.len() implies is_recent(points, #[trigger] players[k], now) by {
            assert(players.contains(players[k]));
        }
        assert(pts.len() == players.len());
        assert(distinct_players(pts)) by {
            assert forall|i: int, j: int| 0 <= i < pts.len() && 0 <= j < pts.len() && i != j implies #[trigger] pts[i].0
                != #[trigger] pts[j].0 by {
                assert(pts[i] == (players[i], played_at(points, delays, players[i])));
                assert(pts[j] == (players[j], played_at(points, delays, players[j])));
            }
        }
        let sorted = sort_desc(pts);
        lemma_sort_desc_sorted(pts);
        lemma_sort_desc_elems(pts);
        let n = sorted.len();
        assert(n == players.len() && n >= 2);
        let lastp = sorted[n - 1];
        assert(sorted.contains(lastp));
        assert(pts.contains(lastp));
        let kl = choose|k: int| 0 <= k < pts.len() && pts[k] == lastp;
        assert(pts[kl] == (players[kl], played_at(points, delays, players[kl])));
        let lag = lastp.0;
        let r = lastp.1;
        assert(players.contains(lag));
        assert(r == played_at(points, delays, lag));
        // every member sits in `sorted`, at an index no further than the last
        assert forall|x: u128| #[trigger] players.contains(x) implies exists|m: int|
            0 <= m < n && sorted[m] == (x, played_at(points, delays, x)) by {
            let k = choose|k: int| 0 <= k < players.len() && players[k] == x;
            assert(pts[k] == (players[k], played_at(points, delays, players[k])));
            assert(pts.contains(pts[k]));
            assert(sorted.contains(pts[k]));
        }
        assert forall|x: u128| #[trigger] players.contains(x) implies played_at(points, delays, x) >= played_at(
            points,
            delays,
            lag,
        ) by {
            let m = choose|m: int| 0 <= m < n && sorted[m] == (x, played_at(points, delays, x));
            if m < n - 1 {
                assert(sorted[m].1 >= sorted[n - 1].1);
            }
        }
        let keep = |x: (u128, int)| MIN_DEVIATION_ADJUST <= x.1 - r <= MAX_DEVIATION_ADJUST;
        let front = sorted.drop_last();
        let f = front.filter(keep);
        assert(distinct_players(front)) by {
            assert forall|i: int, j: int| 0 <= i < front.len() && 0 <= j < front.len() && i != j implies #[trigger] front[i].0
                != #[trigger] front[j].0 by {
                assert(front[i] == sorted[i] && front[j] == sorted[j]);
            }
        }
        lemma_filter_players(front, keep);
        front.filter_lemma(keep);
        let mk = |x: (u128, int)| SyncAdjustment::SkipAhead { player: x.0, delta: (x.1 - r) as u64 };
        assert(res == f.map_values(mk));
        assert forall|i: int| 0 <= i < res.len() implies (#[trigger] res[i] matches SyncAdjustment::SkipAhead {
            player,
            delta,
        } && players.contains(player) && player != lag && delta == played_at(points, delays, player) - played_at(
            points,
            delays,
            lag,
        ) && MIN_DEVIATION_ADJUST <= delta <= MAX_DEVIATION_ADJUST) by {
            let e = f[i];
            assert(res[i] == mk(e));
            assert(keep(e));
            assert(front.contains(e));
            let m = choose|m: int| 0 <= m < front.len() && front[m] == e;
            assert(sorted[m] == e);
            assert(sorted.contains(e));
            assert(pts.contains(e));
            let k = choose|k: int| 0 <= k < pts.len() && pts[k] == e;
            assert(pts[k] == (players[k], played_at(points, delays, players[k])));
            assert(players.contains(e.0));
            assert(sorted[m].0 != sorted[n - 1].0);
        }
        assert forall|i: int, j: int| 0 <= i < j < res.len() implies (#[trigger] res[i]).adjusted_player() != (
        #[trigger] res[j]).adjusted_player() by {
            assert(res[i] == mk(f[i]) && res[j] == mk(f[j]));
            assert(f[i].0 != f[j].0);
        }
        assert forall|x: u128| #[trigger] players.contains(x) && x != lag && MIN_DEVIATION_ADJUST <= played_at(
            points,
            delays,
            x,
        ) - played_at(points, delays, lag) <= MAX_DEVIATION_ADJUST implies exists|i: int|
            0 <= i < res.len() && (#[trigger] res[i]).adjusted_player() == x by {
            let e = (x, played_at(points, delays, x));
            let m = choose|m: int| 0 <= m < n && sorted[m] == e;
            assert(m != n - 1);
            assert(front[m] == e);
            assert(keep(front[m]));
            assert(f.contains(e));
            let i = choose|i: int| 0 <= i < f.len() && f[i] == e;
            assert(res[i] == mk(f[i]));
        }
    }
}

} // verus!
