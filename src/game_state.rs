//! The server's game state machine: rounds, intermissions and map voting.
//! Times are milliseconds since the Unix epoch.
use vstd::prelude::*;
use crate::protocol::MapName;

verus! {

/// How long a round lasts.
pub const ROUND_LENGTH_MS: i64 = 480000;

/// How long an intermission lasts at most.
pub const INTERMISSION_LENGTH_MS: i64 = 30000;

/// The votes one map has received during an intermission.
#[derive(Debug, Clone, Copy, PartialEq, Eq, Structural)]
pub struct MapTally {
    pub map: MapName,
    pub votes: u64,
    /// The number of the vote that brought `votes` to its present value;
    /// 0 while the map has no vote.
    pub reached_at: u64,
}

/// The intermission that clients vote in.
#[derive(Debug, Clone, PartialEq, Eq)]
pub struct IntermissionData {
    /// The maps that can be voted for, in catalog order.
    pub selectable_maps: Vec<MapTally>,
    /// The number of votes counted so far.
    pub votes_cast: u64,
    pub intermission_end_date: i64,
}

/// The round being played.
#[derive(Debug, Clone, Copy, PartialEq, Eq, Structural)]
pub struct OngoingGameData {
    pub current_map: MapName,
    pub round_end_date: i64,
}

/// The authoritative state of the server's game.
#[derive(Debug, Clone, PartialEq, Eq)]
pub enum ServerGameState {
    /// Administrative pause; not reached in normal play.
    Pause,
    Intermission(IntermissionData),
    OngoingGame(OngoingGameData),
}

/// The value of an [`IntermissionData`].
pub struct IntermissionView {
    pub selectable_maps: Seq<MapTally>,
    pub votes_cast: u64,
    pub intermission_end_date: i64,
}

/// The value of a [`ServerGameState`].
pub enum GameStateView {
    Pause,
    Intermission(IntermissionView),
    OngoingGame(OngoingGameData),
}

impl IntermissionData {
    pub open spec fn view(&self) -> IntermissionView {
        IntermissionView {
            selectable_maps: self.selectable_maps@,
            votes_cast: self.votes_cast,
            intermission_end_date: self.intermission_end_date,
        }
    }
}

impl ServerGameState {
    pub open spec fn view(&self) -> GameStateView {
        match self {
            ServerGameState::Pause => GameStateView::Pause,
            ServerGameState::Intermission(d) => GameStateView::Intermission(d@),
            ServerGameState::OngoingGame(g) => GameStateView::OngoingGame(*g),
        }
    }
}

/// The intermission after the vote for `map` was counted on its tally at `i`.
pub open spec fn after_vote(d: IntermissionView, map: MapName, i: int) -> IntermissionView {
    IntermissionView {
        selectable_maps: d.selectable_maps.update(
            i,
            MapTally {
                map,
                votes: (d.selectable_maps[i].votes + 1) as u64,
                reached_at: (d.votes_cast + 1) as u64,
            },
        ),
        votes_cast: (d.votes_cast + 1) as u64,
        intermission_end_date: d.intermission_end_date,
    }
}

/// A vote for `map` can be counted in `d`: the map is on the ballot and
/// no count is at its numeric limit.
pub open spec fn vote_countable(d: IntermissionView, map: MapName) -> bool {
    (exists|i: int| is_first_of(d.selectable_maps, map, i) && d.selectable_maps[i].votes < u64::MAX)
        && d.votes_cast < u64::MAX
}

impl OngoingGameData {
    pub fn new(current_map: MapName, round_end_date: i64) -> (r: OngoingGameData)
        ensures
            r.current_map == current_map,
            r.round_end_date == round_end_date,
    {
        OngoingGameData { current_map, round_end_date }
    }
}

/// Every map that can be played, in catalog order.
pub open spec fn catalog() -> Seq<MapName> {
    seq![MapName::FlatGround, MapName::Islands]
}

/// The maps that can be played, in catalog order.
pub fn all_maps() -> (r: Vec<MapName>)
    ensures
        r@ == catalog(),
{
    let r = vec![MapName::FlatGround, MapName::Islands];
    assert(r@ =~= catalog());
    r
}

/// `ts` lists the maps `maps`, in order, each without a vote.
pub open spec fn fresh_tallies(ts: Seq<MapTally>, maps: Seq<MapName>) -> bool {
    ts.len() == maps.len() && forall|k: int|
        0 <= k < ts.len() ==> #[trigger] ts[k] == (MapTally { map: maps[k], votes: 0, reached_at: 0 })
}

/// The tally at `w` wins: no other has more votes; of those with as many,
/// none reached that count earlier; of those that reached it at the same
/// moment (only possible without votes), none comes earlier in the list.
pub open spec fn is_winner(ts: Seq<MapTally>, w: int) -> bool {
    &&& 0 <= w < ts.len()
    &&& forall|k: int|
        0 <= k < ts.len() ==> {
            ||| #[trigger] ts[k].votes < ts[w].votes
            ||| (ts[k].votes == ts[w].votes && ts[k].reached_at > ts[w].reached_at)
            ||| (ts[k].votes == ts[w].votes && ts[k].reached_at == ts[w].reached_at && k >= w)
        }
}

/// The first tally in `ts` of the map `map`.
pub open spec fn is_first_of(ts: Seq<MapTally>, map: MapName, i: int) -> bool {
    0 <= i < ts.len() && ts[i].map == map && forall|k: int| 0 <= k < i ==> #[trigger] ts[k].map != map
}

/// Map-vote resolution is deterministic: there is one winner at most, and of
/// two maps with the same, highest count, the one that reached that count
/// first wins over the other.
pub proof fn lemma_tie_goes_to_first_to_reach(ts: Seq<MapTally>, a: int, b: int, w: int)
    requires
        is_winner(ts, w),
        0 <= a < ts.len(),
        0 <= b < ts.len(),
        ts[a].votes == ts[b].votes,
        forall|k: int| 0 <= k < ts.len() ==> #[trigger] ts[k].votes <= ts[a].votes,
        ts[a].reached_at < ts[b].reached_at,
    ensures
        w != b,
        forall|v: int| is_winner(ts, v) ==> v == w,
{
    if w == b {
        assert(ts[a].votes == ts[w].votes);
    }
    assert forall|v: int| is_winner(ts, v) implies v == w by {
        assert(ts[v].votes <= ts[w].votes || ts[w].votes <= ts[v].votes);
        if ts[w].votes < ts[v].votes {
            assert(false);
        }
    }
}

/// The map that reached the highest count first wins: if every other map
/// with that count reached it later, the winner is that map.
pub proof fn lemma_first_to_reach_top_wins(ts: Seq<MapTally>, a: int, w: int)
    requires
        is_winner(ts, w),
        0 <= a < ts.len(),
        forall|k: int| 0 <= k < ts.len() ==> #[trigger] ts[k].votes <= ts[a].votes,
        forall|k: int|
            0 <= k < ts.len() && k != a && #[trigger] ts[k].votes == ts[a].votes ==> ts[a].reached_at
                < ts[k].reached_at,
    ensures
        w == a,
        ts[w].map == ts[a].map,
{
    if w != a {
        assert(ts[a].votes <= ts[w].votes);
        assert(ts[w].votes == ts[a].votes);
        assert(ts[a].reached_at < ts[w].reached_at);
    }
}

/// The index of the winning tally: the most votes, ties going to the map
/// that reached that count first. `None` only for an empty list.
pub fn winning_index(ts: &Vec<MapTally>) -> (r: Option<usize>)
    ensures
        r is None <==> ts@.len() == 0,
        r matches Some(w) ==> is_winner(ts@, w as int),
{
    if ts.len() == 0 {
        return None;
    }
    let mut best: usize = 0;
    let mut i: usize = 1;
    while i < ts.len()
        invariant
            1 <= i <= ts@.len(),
            best < i,
            forall|k: int|
                0 <= k < i ==> {
                    ||| #[trigger] ts@[k].votes < ts@[best as int].votes
                    ||| (ts@[k].votes == ts@[best as int].votes && ts@[k].reached_at
                        > ts@[best as int].reached_at)
                    ||| (ts@[k].votes == ts@[best as int].votes && ts@[k].reached_at
                        == ts@[best as int].reached_at && k >= best)
                },
        decreases ts@.len() - i,
    {
        let c = ts[i];
        let b = ts[best];
        if c.votes > b.votes || (c.votes == b.votes && c.reached_at < b.reached_at) {
            best = i;
        }
        i = i + 1;
    }
    Some(best)
}

impl IntermissionData {
    pub fn new(selectable_maps: Vec<MapTally>, intermission_end_date: i64) -> (r: IntermissionData)
        ensures
            r.selectable_maps@ == selectable_maps@,
            r.votes_cast == 0,
            r.intermission_end_date == intermission_end_date,
    {
        IntermissionData { selectable_maps, votes_cast: 0, intermission_end_date }
    }

    /// A copy of this intermission.
    pub fn duplicate(&self) -> (r: IntermissionData)
        ensures
            r.selectable_maps@ == self.selectable_maps@,
            r.votes_cast == self.votes_cast,
            r.intermission_end_date == self.intermission_end_date,
    {
        let mut maps: Vec<MapTally> = Vec::new();
        let mut i: usize = 0;
        while i < self.selectable_maps.len()
            invariant
                0 <= i <= self.selectable_maps@.len(),
                maps@ == self.selectable_maps@.subrange(0, i as int),
            decreases self.selectable_maps@.len() - i,
        {
            maps.push(self.selectable_maps[i]);
            i = i + 1;
            assert(maps@ =~= self.selectable_maps@.subrange(0, i as int));
        }
        assert(self.selectable_maps@.subrange(0, i as int) =~= self.selectable_maps@);
        IntermissionData {
            selectable_maps: maps,
            votes_cast: self.votes_cast,
            intermission_end_date: self.intermission_end_date,
        }
    }

    /// Counts one vote for `map`: its first tally gains a vote and records
    /// that it reached the new count with this vote. Every message counts,
    /// a repeated vote of the same client too. A map that is not listed, or
    /// a count at its numeric limit, leaves everything as it was.
    pub fn register_vote(&mut self, map: MapName) -> (r: Option<usize>)
        ensures
            r is Some <==> vote_countable(old(self)@, map),
            r matches Some(i) ==> is_first_of(old(self).selectable_maps@, map, i as int)
                && final(self)@ == after_vote(old(self)@, map, i as int),
            r is None ==> final(self)@ == old(self)@,
    {
        let mut i: usize = 0;
        while i < self.selectable_maps.len()
            invariant
                0 <= i <= self.selectable_maps@.len(),
                self.selectable_maps@ == old(self).selectable_maps@,
                self.votes_cast == old(self).votes_cast,
                self.intermission_end_date == old(self).intermission_end_date,
                forall|k: int| 0 <= k < i ==> #[trigger] self.selectable_maps@[k].map != map,
            decreases self.selectable_maps@.len() - i,
        {
            let t = self.selectable_maps[i];
            if t.map == map {
                if t.votes == u64::MAX || self.votes_cast == u64::MAX {
                    proof {
                        assert forall|j: int| is_first_of(old(self).selectable_maps@, map, j) implies j == i by {
                            if j < i {
                            } else if j > i {
                                assert(old(self).selectable_maps@[i as int].map != map);
                            }
                        }
                    }
                    return None;
                }
                self.votes_cast = self.votes_cast + 1;
                self.selectable_maps.set(
                    i,
                    MapTally { map, votes: t.votes + 1, reached_at: self.votes_cast },
                );
                assert(is_first_of(old(self).selectable_maps@, map, i as int));
                return Some(i);
            }
            i = i + 1;
        }
        None
    }
}

/// The intermission that opens at `now`: every map of the catalog without a
/// vote, closing after the intermission length.
pub fn create_intermission_data_all(now_ms: i64) -> (r: IntermissionData)
    requires
        now_ms <= i64::MAX - INTERMISSION_LENGTH_MS,
    ensures
        fresh_tallies(r.selectable_maps@, catalog()),
        r.votes_cast == 0,
        r.intermission_end_date == now_ms + INTERMISSION_LENGTH_MS,
{
    let maps = all_maps();
    let mut ts: Vec<MapTally> = Vec::new();
    let mut i: usize = 0;
    while i < maps.len()
        invariant
            0 <= i <= maps@.len(),
            maps@ == catalog(),
            fresh_tallies(ts@, maps@.subrange(0, i as int)),
        decreases maps@.len() - i,
    {
        ts.push(MapTally { map: maps[i], votes: 0, reached_at: 0 });
        i = i + 1;
        assert(fresh_tallies(ts@, maps@.subrange(0, i as int)));
    }
    assert(maps@.subrange(0, i as int) =~= catalog());
    IntermissionData::new(ts, now_ms + INTERMISSION_LENGTH_MS)
}

/// What a vote message led to.
#[derive(Debug, Clone, Copy, PartialEq, Eq, Structural)]
pub enum VoteOutcome {
    /// The vote was counted for the intermission under way.
    Counted,
    /// A round is being played: the voter is sent its state to catch up.
    Resync(OngoingGameData),
    /// Nothing to do: the game is paused, or the map is not on the ballot.
    Ignored,
}

/// A change of state that must be broadcast.
#[derive(Debug, Clone, Copy, PartialEq, Eq, Structural)]
pub enum Transition {
    /// The round ended and an intermission began.
    IntermissionStarted,
    /// The intermission ended and a round began on the winning map.
    RoundStarted(MapName),
}

/// The server's state and the number of votes counted in the present
/// intermission.
pub struct GameStateMachine {
    pub state: ServerGameState,
    pub intermission_total_votes: usize,
}

/// The intermission `d` is over at `now`: its countdown elapsed, or every
/// connected client voted.
pub open spec fn intermission_over(d: IntermissionView, votes: usize, now: i64, connected: usize) -> bool {
    now >= d.intermission_end_date || (votes == connected && connected > 0)
}

impl GameStateMachine {
    /// The state on start-up: a round on `map`, ending one round length from `now`.
    pub fn new(now_ms: i64, map: MapName) -> (r: GameStateMachine)
        requires
            now_ms <= i64::MAX - ROUND_LENGTH_MS,
        ensures
            r.state == ServerGameState::OngoingGame(
                OngoingGameData { current_map: map, round_end_date: (now_ms + ROUND_LENGTH_MS) as i64 },
            ),
            r.intermission_total_votes == 0,
    {
        GameStateMachine {
            state: ServerGameState::OngoingGame(OngoingGameData::new(map, now_ms + ROUND_LENGTH_MS)),
            intermission_total_votes: 0,
        }
    }

    /// Takes one vote message for `map`.
    pub fn vote(&mut self, map: MapName) -> (r: VoteOutcome)
        ensures
            match old(self).state@ {
                GameStateView::Pause => r == VoteOutcome::Ignored,
                GameStateView::OngoingGame(g) => r == VoteOutcome::Resync(g),
                GameStateView::Intermission(d) => r == VoteOutcome::Counted || r
                    == VoteOutcome::Ignored,
            },
            r == VoteOutcome::Counted <==> (old(self).state@ matches GameStateView::Intermission(d)
                && vote_countable(d, map) && old(self).intermission_total_votes < usize::MAX),
            r == VoteOutcome::Counted ==> (old(self).state@ matches GameStateView::Intermission(d)
                && exists|i: int|
                #![auto]
                is_first_of(d.selectable_maps, map, i) && final(self).state@
                    == GameStateView::Intermission(after_vote(d, map, i)))
                && final(self).intermission_total_votes == old(self).intermission_total_votes + 1,
            r != VoteOutcome::Counted ==> final(self).state@ == old(self).state@
                && final(self).intermission_total_votes == old(self).intermission_total_votes,
    {
        let ghost before = self.state@;
        let ghost mut w: int = 0;
        let r = match &mut self.state {
            ServerGameState::Pause => VoteOutcome::Ignored,
            ServerGameState::OngoingGame(g) => VoteOutcome::Resync(*g),
            ServerGameState::Intermission(d) => {
                if self.intermission_total_votes == usize::MAX {
                    VoteOutcome::Ignored
                } else {
                    match d.register_vote(map) {
                        Some(i) => {
                            proof {
                                w = i as int;
                            }
                            self.intermission_total_votes = self.intermission_total_votes + 1;
                            VoteOutcome::Counted
                        },
                        None => VoteOutcome::Ignored,
                    }
                }
            },
        };
        proof {
            if r == VoteOutcome::Counted {
                if let GameStateView::Intermission(d) = before {
                    assert(is_first_of(d.selectable_maps, map, w));
                    assert(self.state@ == GameStateView::Intermission(after_vote(d, map, w)));
                }
            }
        }
        r
    }

    /// Moves the clock to `now` with `connected` clients: a round whose time
    /// is up gives way to an intermission with a fresh ballot; an
    /// intermission whose countdown elapsed, or in which every connected
    /// client voted, gives way to a round on the winning map. Both reset the
    /// vote count.
    pub fn advance(&mut self, now_ms: i64, connected: usize) -> (r: Option<Transition>)
        requires
            now_ms <= i64::MAX - ROUND_LENGTH_MS,
        ensures
            match old(self).state@ {
                GameStateView::Pause => r is None,
                GameStateView::OngoingGame(g) => if now_ms >= g.round_end_date {
                    &&& r == Some(Transition::IntermissionStarted)
                    &&& final(self).state@ matches GameStateView::Intermission(d)
                    &&& fresh_tallies(d.selectable_maps, catalog())
                    &&& d.votes_cast == 0
                    &&& d.intermission_end_date == now_ms + INTERMISSION_LENGTH_MS
                    &&& final(self).intermission_total_votes == 0
                } else {
                    r is None
                },
                GameStateView::Intermission(d) => if intermission_over(
                    d,
                    old(self).intermission_total_votes,
                    now_ms,
                    connected,
                ) && d.selectable_maps.len() > 0 {
                    exists|w: int|
                        #![auto]
                        is_winner(d.selectable_maps, w) && r == Some(
                            Transition::RoundStarted(d.selectable_maps[w].map),
                        ) && final(self).state@ == GameStateView::OngoingGame(
                            OngoingGameData {
                                current_map: d.selectable_maps[w].map,
                                round_end_date: (now_ms + ROUND_LENGTH_MS) as i64,
                            },
                        ) && final(self).intermission_total_votes == 0
                } else {
                    r is None
                },
            },
            r is None ==> final(self).state@ == old(self).state@
                && final(self).intermission_total_votes == old(self).intermission_total_votes,
    {
        match &self.state {
            ServerGameState::Pause => None,
            ServerGameState::OngoingGame(g) => {
                if now_ms >= g.round_end_date {
                    self.state = ServerGameState::Intermission(create_intermission_data_all(now_ms));
                    self.intermission_total_votes = 0;
                    Some(Transition::IntermissionStarted)
                } else {
                    None
                }
            },
            ServerGameState::Intermission(d) => {
                let over = now_ms >= d.intermission_end_date || (self.intermission_total_votes
                    == connected && connected > 0);
                if !over {
                    return None;
                }
                match winning_index(&d.selectable_maps) {
                    None => None,
                    Some(w) => {
                        let map = d.selectable_maps[w].map;
                        self.state = ServerGameState::OngoingGame(
                            OngoingGameData::new(map, now_ms + ROUND_LENGTH_MS),
                        );
                        self.intermission_total_votes = 0;
                        Some(Transition::RoundStarted(map))
                    },
                }
            },
        }
    }

    /// The message that carries the present state to the clients.
    pub fn state_message(&self) -> (r: ServerGameState)
        ensures
            r@ == self.state@,
    {
        match &self.state {
            ServerGameState::Pause => ServerGameState::Pause,
            ServerGameState::Intermission(d) => ServerGameState::Intermission(d.duplicate()),
            ServerGameState::OngoingGame(g) => ServerGameState::OngoingGame(*g),
        }
    }
}

} // verus!
