//! Client-side reconciliation of world snapshots: every remote pawn keeps the
//! snapshot with the highest sequence number that arrived, whatever the order
//! of arrival, and stale or repeated snapshots change nothing.
use vstd::prelude::*;
use std::collections::HashMap;
use crate::protocol::{MapObjectUpdate, PawnUpdate, Transform};

verus! {

broadcast use vstd::std_specs::hash::group_hash_axioms;

/// The sequence number of the last snapshot applied to one entity.
#[derive(Debug, Clone, Copy, PartialEq, Eq, Structural)]
pub struct UniqueLastTickCount(pub u64);

impl UniqueLastTickCount {
    pub fn new(tick: u64) -> (r: UniqueLastTickCount)
        ensures
            r.0 == tick,
    {
        UniqueLastTickCount(tick)
    }

    pub fn with_tick(&mut self, new_tick: u64)
        ensures
            final(self).0 == new_tick,
    {
        self.0 = new_tick;
    }

    pub fn get_inner(&self) -> (r: u64)
        ensures
            r == self.0,
    {
        self.0
    }
}

/// What applying one pawn snapshot did.
#[derive(Debug, Clone, Copy, PartialEq, Eq, Structural)]
pub enum TickOutcome {
    /// The pawn was unknown: a shadow entity was made from the snapshot.
    Spawned,
    /// The snapshot was newer: it replaced the shadow's state, and the
    /// shadow is marked as moved this frame.
    Moved,
    /// The snapshot was not newer than the last one applied: nothing changed.
    Discarded,
}

/// The snapshot `u` is taken by a receiver whose shadows are `m`.
pub open spec fn accepts(m: Map<u128, PawnUpdate>, u: PawnUpdate) -> bool {
    !m.contains_key(u.player.uuid) || m[u.player.uuid].tick_count < u.tick_count
}

/// What applying the snapshot `u` to the shadows `m` does.
pub open spec fn tick_outcome(m: Map<u128, PawnUpdate>, u: PawnUpdate) -> TickOutcome {
    if !m.contains_key(u.player.uuid) {
        TickOutcome::Spawned
    } else if m[u.player.uuid].tick_count < u.tick_count {
        TickOutcome::Moved
    } else {
        TickOutcome::Discarded
    }
}

/// The shadows after the snapshot `u` arrived.
pub open spec fn after_tick(m: Map<u128, PawnUpdate>, u: PawnUpdate) -> Map<u128, PawnUpdate> {
    if accepts(m, u) {
        m.insert(u.player.uuid, u)
    } else {
        m
    }
}

/// The shadows after the snapshots `ts` arrived, in that order.
pub open spec fn after_ticks(m: Map<u128, PawnUpdate>, ts: Seq<PawnUpdate>) -> Map<
    u128,
    PawnUpdate,
>
    decreases ts.len(),
{
    if ts.len() == 0 {
        m
    } else {
        after_tick(after_ticks(m, ts.drop_last()), ts.last())
    }
}

/// No two different snapshots of one entity carry the same sequence number
/// (the same snapshot may arrive any number of times).
pub open spec fn sequence_labels_snapshot(ts: Seq<PawnUpdate>) -> bool {
    forall|j: int, k: int|
        0 <= j < ts.len() && 0 <= k < ts.len() && #[trigger] ts[j].player.uuid
            == #[trigger] ts[k].player.uuid && ts[j].tick_count == ts[k].tick_count ==> ts[j]
            == ts[k]
}

proof fn lemma_prefix(ts: Seq<PawnUpdate>, id: u128, n: int)
    requires
        0 <= n <= ts.len(),
    ensures
        ({
            let m = after_ticks(Map::empty(), ts.take(n));
            &&& m.contains_key(id) <==> exists|j: int| 0 <= j < n && ts[j].player.uuid == id
            &&& m.contains_key(id) ==> {
                &&& m[id].player.uuid == id
                &&& exists|j: int| 0 <= j < n && ts[j] == m[id]
                &&& forall|j: int|
                    0 <= j < n && ts[j].player.uuid == id ==> ts[j].tick_count
                        <= m[id].tick_count
            }
        }),
    decreases n,
{
    if n > 0 {
        lemma_prefix(ts, id, n - 1);
        assert(ts.take(n).drop_last() =~= ts.take(n - 1));
        assert(ts.take(n).last() == ts[n - 1]);
        let prev = after_ticks(Map::empty(), ts.take(n - 1));
        let m = after_ticks(Map::empty(), ts.take(n));
        assert(m == after_tick(prev, ts[n - 1]));
        if m.contains_key(id) {
            if prev.contains_key(id) {
                let w = choose|j: int| 0 <= j < n - 1 && ts[j] == prev[id];
                if accepts(prev, ts[n - 1]) && ts[n - 1].player.uuid == id {
                    assert(ts[n - 1] == m[id]);
                } else {
                    assert(ts[w] == m[id]);
                }
            } else {
                assert(ts[n - 1] == m[id]);
            }
        }
        if exists|j: int| 0 <= j < n && ts[j].player.uuid == id {
            let j = choose|j: int| 0 <= j < n && ts[j].player.uuid == id;
            if j < n - 1 {
                assert(prev.contains_key(id));
            }
        }
    }
}

/// Sequence-based last-writer-wins does not depend on the order of arrival:
/// whatever order the snapshots `ts` arrive in, starting with no shadows, the
/// entity `id` ends with the snapshot of greatest sequence number among its own.
pub proof fn lemma_last_writer_wins(ts: Seq<PawnUpdate>, id: u128, i: int)
    requires
        0 <= i < ts.len(),
        ts[i].player.uuid == id,
        forall|j: int|
            0 <= j < ts.len() && ts[j].player.uuid == id ==> ts[j].tick_count
                <= ts[i].tick_count,
        sequence_labels_snapshot(ts),
    ensures
        after_ticks(Map::empty(), ts).contains_key(id),
        after_ticks(Map::empty(), ts)[id] == ts[i],
{
    lemma_prefix(ts, id, ts.len() as int);
    assert(ts.take(ts.len() as int) =~= ts);
    let m = after_ticks(Map::empty(), ts);
    let w = choose|j: int| 0 <= j < ts.len() && ts[j] == m[id];
    assert(ts[w].tick_count == ts[i].tick_count);
    assert(ts[w] == ts[i]);
}

proof fn lemma_latest_of(ts: Seq<PawnUpdate>, id: u128) -> (i: int)
    requires
        exists|j: int| 0 <= j < ts.len() && ts[j].player.uuid == id,
    ensures
        0 <= i < ts.len(),
        ts[i].player.uuid == id,
        forall|j: int|
            0 <= j < ts.len() && ts[j].player.uuid == id ==> ts[j].tick_count <= ts[i].tick_count,
    decreases ts.len(),
{
    let last = ts.len() - 1;
    if exists|j: int| 0 <= j < last && ts[j].player.uuid == id {
        let j0 = choose|j: int| 0 <= j < last && ts[j].player.uuid == id;
        assert(ts.drop_last()[j0] == ts[j0]);
        let k = lemma_latest_of(ts.drop_last(), id);
        assert(ts.drop_last()[k] == ts[k]);
        if ts[last].player.uuid == id && ts[last].tick_count > ts[k].tick_count {
            assert forall|j: int|
                0 <= j < ts.len() && ts[j].player.uuid == id implies ts[j].tick_count
                <= ts[last].tick_count by {
                if j < last {
                    assert(ts.drop_last()[j] == ts[j]);
                }
            }
            last
        } else {
            assert forall|j: int|
                0 <= j < ts.len() && ts[j].player.uuid == id implies ts[j].tick_count
                <= ts[k].tick_count by {
                if j < last {
                    assert(ts.drop_last()[j] == ts[j]);
                }
            }
            k
        }
    } else {
        last
    }
}

/// The order in which snapshots arrive, and how often each arrives, does
/// not matter: two deliveries of the same snapshots leave the same shadows.
pub proof fn lemma_arrival_order_irrelevant(ts1: Seq<PawnUpdate>, ts2: Seq<PawnUpdate>)
    requires
        forall|u: PawnUpdate| ts1.contains(u) <==> ts2.contains(u),
        sequence_labels_snapshot(ts1),
        sequence_labels_snapshot(ts2),
    ensures
        after_ticks(Map::empty(), ts1) == after_ticks(Map::empty(), ts2),
{
    let m1 = after_ticks(Map::empty(), ts1);
    let m2 = after_ticks(Map::empty(), ts2);
    assert(ts1.take(ts1.len() as int) =~= ts1);
    assert(ts2.take(ts2.len() as int) =~= ts2);
    assert forall|id: u128| #[trigger] m1.contains_key(id) == m2.contains_key(id) && (m1.contains_key(id) ==> m1[id] == m2[id]) by {
        lemma_prefix(ts1, id, ts1.len() as int);
        lemma_prefix(ts2, id, ts2.len() as int);
        if exists|j: int| 0 <= j < ts1.len() && ts1[j].player.uuid == id {
            let i = lemma_latest_of(ts1, id);
            assert(ts1.contains(ts1[i]));
            let k = choose|k: int| 0 <= k < ts2.len() && ts2[k] == ts1[i];
            assert forall|j: int|
                0 <= j < ts2.len() && ts2[j].player.uuid == id implies ts2[j].tick_count
                <= ts2[k].tick_count by {
                assert(ts2.contains(ts2[j]));
                let l = choose|l: int| 0 <= l < ts1.len() && ts1[l] == ts2[j];
            }
            lemma_last_writer_wins(ts1, id, i);
            lemma_last_writer_wins(ts2, id, k);
        } else if exists|j: int| 0 <= j < ts2.len() && ts2[j].player.uuid == id {
            let j = choose|j: int| 0 <= j < ts2.len() && ts2[j].player.uuid == id;
            assert(ts2.contains(ts2[j]));
            let l = choose|l: int| 0 <= l < ts1.len() && ts1[l] == ts2[j];
        }
    }
    assert(m1 =~= m2);
}

/// A snapshot that is not newer than the last applied one changes nothing,
/// and applying the same snapshot a second time is a no-op.
pub proof fn lemma_stale_tick_is_ignored(m: Map<u128, PawnUpdate>, u: PawnUpdate)
    ensures
        !accepts(m, u) ==> after_tick(m, u) == m,
        after_tick(after_tick(m, u), u) == after_tick(m, u),
{
}

/// The client's shadows of remote pawns and the positions of the animated
/// map elements it knows.
pub struct ShadowStore {
    pawns: HashMap<u128, PawnUpdate>,
    map_objects: HashMap<u128, Transform>,
}

impl ShadowStore {
    /// The last snapshot applied to each remote pawn, by pawn id.
    pub closed spec fn pawns(&self) -> Map<u128, PawnUpdate> {
        self.pawns@
    }

    /// The position of each known map element, by element id.
    pub closed spec fn map_objects(&self) -> Map<u128, Transform> {
        self.map_objects@
    }

    /// Each shadow is filed under its own pawn's id.
    pub closed spec fn wf(&self) -> bool {
        forall|k: u128| #[trigger] self.pawns@.contains_key(k) ==> self.pawns@[k].player.uuid == k
    }

    pub fn new() -> (r: ShadowStore)
        ensures
            r.wf(),
            r.pawns() == Map::<u128, PawnUpdate>::empty(),
            r.map_objects() == Map::<u128, Transform>::empty(),
    {
        ShadowStore { pawns: HashMap::new(), map_objects: HashMap::new() }
    }

    /// Applies one pawn snapshot: spawns the shadow of an unknown pawn,
    /// overwrites a known one with a newer snapshot and marks it moved,
    /// discards a stale one.
    pub fn apply_pawn_update(&mut self, u: PawnUpdate) -> (r: TickOutcome)
        requires
            old(self).wf(),
        ensures
            final(self).wf(),
            final(self).pawns() == after_tick(old(self).pawns(), u),
            final(self).map_objects() == old(self).map_objects(),
            r == tick_outcome(old(self).pawns(), u),
    {
        let id = u.player.uuid;
        match self.pawns.get(&id) {
            None => {
                self.pawns.insert(id, u);
                TickOutcome::Spawned
            },
            Some(prev) => {
                let prev: PawnUpdate = *prev;
                if prev.tick_count < u.tick_count {
                    self.pawns.insert(id, u);
                    TickOutcome::Moved
                } else {
                    TickOutcome::Discarded
                }
            },
        }
    }

    /// Applies the snapshots `ts` in order.
    pub fn apply_pawn_updates(&mut self, ts: &Vec<PawnUpdate>)
        requires
            old(self).wf(),
        ensures
            final(self).wf(),
            final(self).pawns() == after_ticks(old(self).pawns(), ts@),
            final(self).map_objects() == old(self).map_objects(),
    {
        let ghost start = self.pawns();
        let mut i: usize = 0;
        while i < ts.len()
            invariant
                0 <= i <= ts@.len(),
                self.wf(),
                self.pawns() == after_ticks(start, ts@.take(i as int)),
                self.map_objects() == old(self).map_objects(),
            decreases ts@.len() - i,
        {
            self.apply_pawn_update(ts[i]);
            assert(ts@.take(i + 1).drop_last() =~= ts@.take(i as int));
            i = i + 1;
        }
        assert(ts@.take(ts@.len() as int) =~= ts@);
    }

    /// The last snapshot applied to the pawn `id`.
    pub fn pawn(&self, id: u128) -> (r: Option<PawnUpdate>)
        ensures
            r == (if self.pawns().contains_key(id) {
                Some(self.pawns()[id])
            } else {
                None
            }),
    {
        match self.pawns.get(&id) {
            Some(p) => Some(*p),
            None => None,
        }
    }

    /// The sequence number last applied to the pawn `id`.
    pub fn last_tick(&self, id: u128) -> (r: Option<UniqueLastTickCount>)
        ensures
            r == (if self.pawns().contains_key(id) {
                Some(UniqueLastTickCount(self.pawns()[id].tick_count))
            } else {
                None
            }),
    {
        match self.pawns.get(&id) {
            Some(p) => Some(UniqueLastTickCount::new(p.tick_count)),
            None => None,
        }
    }

    /// Tears down the shadow of the pawn `id`, as when its player left.
    pub fn remove_pawn(&mut self, id: u128) -> (r: bool)
        requires
            old(self).wf(),
        ensures
            final(self).wf(),
            r == old(self).pawns().contains_key(id),
            final(self).pawns() == old(self).pawns().remove(id),
            final(self).map_objects() == old(self).map_objects(),
    {
        self.pawns.remove(&id).is_some()
    }

    /// Forgets every remote pawn, as when a new connection starts.
    pub fn clear_pawns(&mut self)
        ensures
            final(self).wf(),
            final(self).pawns() == Map::<u128, PawnUpdate>::empty(),
            final(self).map_objects() == old(self).map_objects(),
    {
        self.pawns = HashMap::new();
    }

    /// Records a map element of the loaded map at its starting position.
    pub fn track_map_object(&mut self, id: u128, at: Transform)
        requires
            old(self).wf(),
        ensures
            final(self).wf(),
            final(self).pawns() == old(self).pawns(),
            final(self).map_objects() == old(self).map_objects().insert(id, at),
    {
        self.map_objects.insert(id, at);
    }

    /// Moves a known map element to where the snapshot puts it; an update of
    /// an element that is not known is dropped. Returns whether it applied.
    pub fn apply_map_object_update(&mut self, u: MapObjectUpdate) -> (r: bool)
        requires
            old(self).wf(),
        ensures
            final(self).wf(),
            r == old(self).map_objects().contains_key(u.id),
            final(self).pawns() == old(self).pawns(),
            final(self).map_objects() == (if r {
                old(self).map_objects().insert(u.id, u.transform)
            } else {
                old(self).map_objects()
            }),
    {
        if self.map_objects.contains_key(&u.id) {
            self.map_objects.insert(u.id, u.transform);
            true
        } else {
            false
        }
    }
}

} // verus!
