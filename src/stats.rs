//! Per-client statistics and the leaderboard that keeps them ordered by
//! score, then kills, then deaths, then id.
use vstd::prelude::*;
use std::collections::{BTreeSet, HashMap};
use vstd::laws_cmp::obeys_cmp;
use vstd::std_specs::btree::{increasing_seq, spec_btree_keys_iter};
use vstd::std_specs::cmp::OrdSpec;
use vstd::std_specs::iter::IteratorSpec;

verus! {

broadcast use vstd::std_specs::btree::group_btree_axioms, vstd::std_specs::hash::group_hash_axioms,
    vstd::laws_cmp::group_laws_cmp;

/// The kills, deaths and score of one client.
#[derive(Debug, Clone, PartialEq, Eq)]
pub struct ClientStatistics {
    pub uuid: u128,
    pub username: String,
    pub kills: u32,
    pub deaths: u32,
    pub score: u32,
}

/// The value of a [`ClientStatistics`].
pub struct StatisticsView {
    pub uuid: u128,
    pub username: Seq<char>,
    pub kills: u32,
    pub deaths: u32,
    pub score: u32,
}

impl ClientStatistics {
    pub open spec fn view(&self) -> StatisticsView {
        StatisticsView {
            uuid: self.uuid,
            username: self.username@,
            kills: self.kills,
            deaths: self.deaths,
            score: self.score,
        }
    }

    /// The statistics of a client that just joined: all counts at zero.
    pub fn new(uuid: u128, username: String) -> (r: ClientStatistics)
        ensures
            r.uuid == uuid,
            r.username@ == username@,
            r.kills == 0,
            r.deaths == 0,
            r.score == 0,
    {
        ClientStatistics { uuid, username, kills: 0, deaths: 0, score: 0 }
    }

    /// A copy of these statistics.
    pub fn duplicate(&self) -> (r: ClientStatistics)
        ensures
            r@ == self@,
    {
        ClientStatistics {
            uuid: self.uuid,
            username: self.username.clone(),
            kills: self.kills,
            deaths: self.deaths,
            score: self.score,
        }
    }

    /// Whether these statistics rank strictly below `other`.
    pub fn ranks_below(&self, other: &ClientStatistics) -> (r: bool)
        ensures
            r == ranks_below(self@, other@),
    {
        if self.score != other.score {
            self.score < other.score
        } else if self.kills != other.kills {
            self.kills < other.kills
        } else if self.deaths != other.deaths {
            self.deaths < other.deaths
        } else {
            self.uuid < other.uuid
        }
    }
}

/// The leaderboard's order: by score, then kills, then deaths, then id.
pub open spec fn ranks_below(a: StatisticsView, b: StatisticsView) -> bool {
    if a.score != b.score {
        a.score < b.score
    } else if a.kills != b.kills {
        a.kills < b.kills
    } else if a.deaths != b.deaths {
        a.deaths < b.deaths
    } else {
        a.uuid < b.uuid
    }
}

/// The key under which statistics are ordered: score, kills, deaths, id.
pub open spec fn rank_key(v: StatisticsView) -> (u32, u32, u32, u128) {
    (v.score, v.kills, v.deaths, v.uuid)
}

/// The values of a sequence of statistics.
pub open spec fn views(s: Seq<ClientStatistics>) -> Seq<StatisticsView> {
    s.map_values(|e: ClientStatistics| e@)
}

/// The statistics of every connected client: each client's entry, and an
/// ordered index of the entries that the leaderboard is read from.
pub struct Leaderboard {
    entries: HashMap<u128, ClientStatistics>,
    ranks: BTreeSet<(u32, u32, u32, u128)>,
}

impl Leaderboard {
    /// Each client's statistics, by client id.
    pub closed spec fn view(&self) -> Map<u128, StatisticsView> {
        self.entries@.map_values(|e: ClientStatistics| e@)
    }

    /// Every entry is filed under its own id, and the index holds exactly
    /// the keys of the entries.
    pub closed spec fn wf(&self) -> bool {
        &&& forall|u: u128| #[trigger] self.entries@.contains_key(u) ==> self.entries@[u].uuid == u
        &&& forall|k: (u32, u32, u32, u128)|
            #[trigger] self.ranks@.contains(k) <==> (self.entries@.contains_key(k.3) && rank_key(
                self.entries@[k.3]@,
            ) == k)
    }

    pub fn new() -> (r: Leaderboard)
        ensures
            r.wf(),
            r@.dom() == Set::<u128>::empty(),
    {
        let r = Leaderboard { entries: HashMap::new(), ranks: BTreeSet::new() };
        assert(r@.dom() =~= Set::<u128>::empty());
        r
    }

    /// Number of entries.
    pub fn len(&self) -> (r: usize)
        ensures
            r == self@.len(),
    {
        assert(self@.dom() =~= self.entries@.dom());
        self.entries.len()
    }

    /// The entry of the client `uuid`.
    pub fn get(&self, uuid: u128) -> (r: Option<ClientStatistics>)
        ensures
            match r {
                Some(s) => self@.contains_key(uuid) && s@ == self@[uuid],
                None => !self@.contains_key(uuid),
            },
    {
        match self.entries.get(&uuid) {
            Some(s) => Some(s.duplicate()),
            None => None,
        }
    }

    fn key_of(s: &ClientStatistics) -> (k: (u32, u32, u32, u128))
        ensures
            k == rank_key(s@),
    {
        (s.score, s.kills, s.deaths, s.uuid)
    }

    /// Takes out the entry of the client `uuid`; returns whether there was one.
    pub fn remove(&mut self, uuid: u128) -> (r: bool)
        requires
            old(self).wf(),
        ensures
            final(self).wf(),
            final(self)@ == old(self)@.remove(uuid),
            r == old(self)@.contains_key(uuid),
    {
        match self.entries.remove(&uuid) {
            Some(old_entry) => {
                let k = Leaderboard::key_of(&old_entry);
                self.ranks.remove(&k);
                assert(self@ =~= old(self)@.remove(uuid));
                true
            },
            None => {
                assert(self@ =~= old(self)@.remove(uuid));
                false
            },
        }
    }

    /// Replaces the entry of `stat`'s client by `stat`, or adds it; the
    /// index takes the entry out and puts it back where it now ranks.
    pub fn upsert(&mut self, stat: ClientStatistics)
        requires
            old(self).wf(),
        ensures
            final(self).wf(),
            final(self)@ == old(self)@.insert(stat.uuid, stat@),
    {
        let ghost sv = stat@;
        self.remove(stat.uuid);
        assert(self@.dom() =~= self.entries@.dom());
        assert(!self@.contains_key(stat.uuid));
        let ghost mid_view = self@;
        let ghost mid_entries = self.entries@;
        let ghost mid_ranks = self.ranks@;
        let k = Leaderboard::key_of(&stat);
        self.ranks.insert(k);
        let uuid = stat.uuid;
        self.entries.insert(uuid, stat);
        assert(self.entries@ == mid_entries.insert(uuid, stat));
        assert(self.ranks@ == mid_ranks.insert(k));
        assert(!mid_entries.contains_key(uuid));
        assert forall|k2: (u32, u32, u32, u128)|
            #[trigger] self.ranks@.contains(k2) <==> (self.entries@.contains_key(k2.3) && rank_key(
                self.entries@[k2.3]@,
            ) == k2) by {
            if k2.3 == uuid && mid_ranks.contains(k2) {
                assert(mid_entries.contains_key(k2.3));
            }
        }
        assert(self.entries@[uuid]@ == sv);
        assert(self@.dom() =~= self.entries@.dom());
        assert forall|u: u128| #[trigger] self@.contains_key(u) implies self@[u] == old(self)@.insert(uuid, sv)[u] by {
            if u != uuid {
                assert(mid_entries.contains_key(u));
                assert(mid_view[u] == mid_entries[u]@);
            }
        }
        assert(self@ =~= old(self)@.insert(uuid, sv));
    }

    /// Copies of the entries, lowest rank first.
    pub fn entries(&self) -> (r: Vec<ClientStatistics>)
        requires
            self.wf(),
        ensures
            r@.len() == self@.len(),
            forall|i: int| 0 <= i < r@.len() ==> self@.contains_key(#[trigger] r@[i].uuid) && r@[i]@ == self@[r@[i].uuid],
            forall|u: u128| self@.contains_key(u) ==> exists|i: int| 0 <= i < r@.len() && #[trigger] r@[i].uuid == u,
            forall|i: int, j: int| 0 <= i < j < r@.len() ==> ranks_below(#[trigger] r@[i]@, #[trigger] r@[j]@),
    {
        let ghost sq = spec_btree_keys_iter(&self.ranks).remaining();
        let mut keys: Vec<(u32, u32, u32, u128)> = Vec::new();
        for k in it: self.ranks.iter()
            invariant
                it.seq() == sq,
                keys@.len() == it.index(),
                forall|j: int| 0 <= j < keys@.len() ==> keys@[j] == *sq[j],
        {
            keys.push(*k);
        }
        assert(keys@.len() == sq.len());
        assert(sq.unref().to_set() == self.ranks@);
        let mut r: Vec<ClientStatistics> = Vec::new();
        let mut i: usize = 0;
        while i < keys.len()
            invariant
                0 <= i <= keys@.len(),
                keys@.len() == sq.len(),
                sq.unref().to_set() == self.ranks@,
                forall|j: int| 0 <= j < keys@.len() ==> keys@[j] == *sq[j],
                r@.len() == i,
                self.wf(),
                forall|j: int|
                    0 <= j < i ==> self.entries@.contains_key((#[trigger] sq[j]).3) && r@[j]@
                        == self.entries@[sq[j].3]@,
            decreases keys@.len() - i,
        {
            let k = keys[i];
            proof {
                assert(sq.unref()[i as int] == *sq[i as int]);
                assert(sq.unref().to_set().contains(k));
            }
            let s = self.entries.get(&k.3).unwrap();
            assert(*s == self.entries@[k.3]);
            let ghost prev = r@;
            let d = s.duplicate();
            r.push(d);
            assert(r@[i as int] == d);
            assert(d@ == self.entries@[sq[i as int].3]@);
            assert forall|j: int|
                0 <= j < i + 1 implies self.entries@.contains_key((#[trigger] sq[j]).3) && r@[j]@
                    == self.entries@[sq[j].3]@ by {
                if j < i {
                    assert(r@[j] == prev[j]);
                    assert(self.entries@.contains_key(sq[j].3) && prev[j]@ == self.entries@[sq[j].3]@);
                }
            }
            i = i + 1;
        }
        proof {
            assert(r@.len() == sq.len());
            assert(sq.len() == self.ranks@.len());
            assert forall|j: int| 0 <= j < sq.len() implies self.ranks@.contains(#[trigger] *sq[j]) by {
                assert(sq.unref()[j] == *sq[j]);
                assert(sq.unref().to_set().contains(*sq[j]));
            }
            assert forall|i: int| 0 <= i < r@.len() implies self@.contains_key(#[trigger] r@[i].uuid) && r@[i]@ == self@[r@[i].uuid] by {
                assert(self.entries@.contains_key(sq[i].3));
                assert(self.entries@[sq[i].3].uuid == sq[i].3);
                assert(r@[i].uuid == sq[i].3);
            }
            assert(obeys_cmp::<(u32, u32, u32, u128)>());
            assert(obeys_cmp::<&(u32, u32, u32, u128)>());
            assert(increasing_seq(sq));
            vstd::std_specs::btree::axiom_increasing_seq_meaning::<&(u32, u32, u32, u128)>(sq);
            assert forall|i: int, j: int| 0 <= i < j < r@.len() implies ranks_below(#[trigger] r@[i]@, #[trigger] r@[j]@) by {
                assert(<&(u32, u32, u32, u128) as OrdSpec>::cmp_spec(&sq[i], &sq[j]) is Less);
                assert(<(u32, u32, u32, u128) as OrdSpec>::cmp_spec(sq[i], sq[j]) is Less);
                assert(self.ranks@.contains(*sq[i]));
                assert(self.ranks@.contains(*sq[j]));
            }
            assert forall|u: u128| self@.contains_key(u) implies exists|i: int| 0 <= i < r@.len() && #[trigger] r@[i].uuid == u by {
                let k = rank_key(self.entries@[u]@);
                assert(self.ranks@.contains(k));
                assert(sq.unref().to_set().contains(k));
                let i = choose|i: int| 0 <= i < sq.unref().len() && sq.unref()[i] == k;
                assert(r@[i]@ == self.entries@[u]@);
            }
            assert(self@.dom() =~= self.entries@.dom());
            assert(self.ranks@.len() == self@.len()) by {
                assert(self.ranks@ =~= self@.dom().map(|u: u128| rank_key(self@[u])));
                assert(self@.dom().finite());
                vstd::set_lib::lemma_map_size(self@.dom(), self.ranks@, |u: u128| rank_key(self@[u]));
            }
        }
        r
    }
}

} // verus!
