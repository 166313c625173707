//! The server's decisions: admitting clients after the handshake,
//! authenticating and routing their inputs, answering control messages,
//! dropping clients whose channel failed, and driving the game clock. The
//! caller performs the I/O and hands the results back.
use vstd::prelude::*;
use crate::game_state::{GameStateMachine, GameStateView, OngoingGameData, intermission_over, ROUND_LENGTH_MS, INTERMISSION_LENGTH_MS, vote_countable, is_first_of, after_vote, is_winner, fresh_tallies, catalog, ServerGameState, Transition, VoteOutcome};
use crate::protocol::{ClientMetadata, ClientRequest, ConnectionMetadata, GameInput, MapName, RemoteClientGameRequest, RemoteClientRequest, ServerMetadata, ServerRequest};
use crate::registry::{Endpoint, SessionEntry, SessionRegistry};
use crate::stats::{ClientStatistics, Leaderboard, StatisticsView};

verus! {

/// Relies on uuid::Uuid::new_v4 and Uuid::as_u128: a random id whose
/// version is 4 and whose variant is the RFC 4122 one.
#[verifier::external_body]
fn fresh_uuid() -> (r: u128)
    ensures
        (r & 0xF000C000000000000000u128) == 0x40008000000000000000u128,
{
    uuid::Uuid::new_v4().as_u128()
}

/// Relies on std::time::SystemTime::now and SystemTime::duration_since:
/// the milliseconds elapsed since the Unix epoch, or `None` when the system
/// clock reads an earlier time. It never panics.
#[verifier::external_body]
fn unix_time_millis() -> (r: Option<u128>) {
    std::time::SystemTime::now().duration_since(std::time::UNIX_EPOCH).ok().map(|d| d.as_millis())
}

/// A client that left, and whom to tell.
#[derive(Debug, Clone, PartialEq, Eq)]
pub struct Disconnect {
    pub client_uuid: u128,
    /// Every client still connected, each once.
    pub notify: Vec<Endpoint>,
    /// The notice they are sent.
    pub notice: ServerRequest,
}

/// What to do with a batch of inputs that arrived on the tick channel.
#[derive(Debug, Clone, PartialEq, Eq)]
pub enum InputDecision {
    /// The sender is not a connected client, or claims another's id: the
    /// datagram is dropped and nothing changes.
    Rejected,
    /// Hand these inputs to the sender's pawn.
    Apply(Vec<GameInput>),
    /// Hand these inputs to the sender's pawn, then tear it down: the
    /// client asked to leave and its session is gone.
    ApplyThenDisconnect(Vec<GameInput>, Disconnect),
}

/// What to send after a control message.
#[derive(Debug, Clone, PartialEq, Eq)]
pub enum ControlAction {
    Nothing,
    /// Send this to the client that sent the message.
    Reply(ServerRequest),
    /// Send this to every connected client.
    Broadcast(ServerRequest),
    /// Send the sender the full state of every pawn, which the simulation holds.
    SyncPawns,
}

/// A client admitted after its handshake.
#[derive(Debug, PartialEq, Eq)]
pub struct Admission {
    /// Where its tick socket listens.
    pub endpoint: Endpoint,
    /// A stale session that was under the same address.
    pub replaced: Option<SessionEntry>,
    /// The state the client is sent at once, to catch up.
    pub game_state: ServerGameState,
    /// Its statistics, sent to every client.
    pub new_statistics: ClientStatistics,
}

/// Clients dropped after their control channel failed.
#[derive(Debug, Clone, PartialEq, Eq)]
pub struct FailedDelivery {
    /// The ids of the clients removed.
    pub removed: Vec<u128>,
    /// Every client still connected, each once, to be told.
    pub notify: Vec<Endpoint>,
}

/// The inputs `s` hold an exit first at `k`.
pub open spec fn first_exit(s: Seq<GameInput>, k: int) -> bool {
    0 <= k < s.len() && s[k] == GameInput::Exit && forall|j: int| 0 <= j < k ==> #[trigger] s[j] != GameInput::Exit
}

/// The addresses that `targets` lists with a failed delivery.
pub open spec fn failed_targets(targets: Seq<Endpoint>, delivered: Seq<bool>) -> Set<Endpoint> {
    Set::new(|e: Endpoint| exists|i: int| 0 <= i < targets.len() && targets[i] == e && !delivered[i])
}

/// The authoritative server: its tick port, who is connected, the
/// statistics board and the game state.
pub struct ServerCore {
    pub metadata: ConnectionMetadata,
    pub registry: SessionRegistry,
    pub stats: Leaderboard,
    pub game: GameStateMachine,
    /// The number of the last simulation step.
    pub tick_count: u64,
}

impl ServerCore {
    pub open spec fn wf(&self) -> bool {
        self.stats.wf()
    }

    /// Neither the sessions, the statistics nor the game changed.
    pub open spec fn unchanged_from(&self, other: &ServerCore) -> bool {
        &&& self.registry@ == other.registry@
        &&& self.stats@ == other.stats@
        &&& self.game.state@ == other.game.state@
        &&& self.game.intermission_total_votes == other.game.intermission_total_votes
        &&& self.metadata == other.metadata
        &&& self.tick_count == other.tick_count
    }

    /// A server whose tick socket listens on `game_socket_port`, with nobody
    /// connected and a round on the default map starting at `now`.
    pub fn new(game_socket_port: u16, now_ms: i64) -> (r: ServerCore)
        requires
            now_ms <= i64::MAX - ROUND_LENGTH_MS,
        ensures
            r.wf(),
            r.metadata.game_socket_port == game_socket_port,
            r.registry@.dom() == Set::<Endpoint>::empty(),
            r.stats@.dom() == Set::<u128>::empty(),
            r.game.state@ == GameStateView::OngoingGame(
                OngoingGameData { current_map: MapName::FlatGround, round_end_date: (now_ms + ROUND_LENGTH_MS) as i64 },
            ),
            r.game.intermission_total_votes == 0,
            r.tick_count == 0,
    {
        ServerCore {
            metadata: ConnectionMetadata::new(game_socket_port),
            registry: SessionRegistry::new(),
            stats: Leaderboard::new(),
            game: GameStateMachine::new(now_ms, MapName::FlatGround),
            tick_count: 0,
        }
    }

    /// A server as `new` makes it at `now`; `None` where `now` is too late
    /// for a round to end within the range the game counts time in.
    pub fn start_at(game_socket_port: u16, now_ms: i64) -> (r: Option<ServerCore>)
        ensures
            r is None <==> now_ms > i64::MAX - ROUND_LENGTH_MS,
            r matches Some(s) ==> {
                &&& s.wf()
                &&& s.metadata.game_socket_port == game_socket_port
                &&& s.registry@.dom() == Set::<Endpoint>::empty()
                &&& s.stats@.dom() == Set::<u128>::empty()
                &&& s.game.state@ == GameStateView::OngoingGame(
                    OngoingGameData { current_map: MapName::FlatGround, round_end_date: (now_ms + ROUND_LENGTH_MS) as i64 },
                )
                &&& s.game.intermission_total_votes == 0
                &&& s.tick_count == 0
            },
    {
        if now_ms > i64::MAX - ROUND_LENGTH_MS {
            None
        } else {
            Some(ServerCore::new(game_socket_port, now_ms))
        }
    }

    /// A server as `start_at` makes it at the present time; `None` where
    /// the system clock reads before the Unix epoch or too late.
    pub fn start_now(game_socket_port: u16) -> (r: Option<ServerCore>)
        ensures
            r matches Some(s) ==> {
                &&& s.wf()
                &&& s.metadata.game_socket_port == game_socket_port
                &&& s.registry@.dom() == Set::<Endpoint>::empty()
                &&& s.stats@.dom() == Set::<u128>::empty()
                &&& s.game.state@ matches GameStateView::OngoingGame(g)
                &&& g.current_map == MapName::FlatGround
                &&& g.round_end_date >= ROUND_LENGTH_MS
                &&& s.game.intermission_total_votes == 0
                &&& s.tick_count == 0
            },
    {
        match unix_time_millis() {
            None => None,
            Some(ms) => {
                if ms > i64::MAX as u128 {
                    None
                } else {
                    ServerCore::start_at(game_socket_port, ms as i64)
                }
            },
        }
    }

    /// Whether some connected client was given the id `id`.
    pub open spec fn id_in_use(&self, id: u128) -> bool {
        exists|e: Endpoint| #[trigger] self.registry@.contains_key(e) && self.registry@[e].0 == id
    }

    /// The first step of the handshake: a fresh id for the client that just
    /// connected, and the reply that tells it the id and the tick port.
    /// `None`, and the connection attempt is aborted, in the unlikely case
    /// that the random id drawn is already in use.
    pub fn begin_handshake(&self) -> (r: Option<(u128, ServerMetadata)>)
        ensures
            r matches Some((id, m)) ==> {
                &&& m.client_uuid == id
                &&& m.game_socket_port == self.metadata.game_socket_port
                &&& (id & 0xF000C000000000000000u128) == 0x40008000000000000000u128
                &&& !self.id_in_use(id)
            },
    {
        let id = fresh_uuid();
        if self.registry.has_client(id) {
            None
        } else {
            Some((id, self.metadata.into_server_metadata(id)))
        }
    }

    /// The last step of the handshake: records the session of the client
    /// `client_uuid`, whose tick socket is at `client_ip` and the port it
    /// sent, and gives it statistics at zero. An id that a connected client
    /// already has is refused, and nothing changes.
    pub fn admit_client(
        &mut self,
        client_uuid: u128,
        client_ip: u128,
        hello: &ClientMetadata,
        handle: u64,
    ) -> (r: Option<Admission>)
        requires
            old(self).wf(),
        ensures
            final(self).wf(),
            r is None <==> old(self).id_in_use(client_uuid),
            r is None ==> final(self).unchanged_from(old(self)),
            r matches Some(a) ==> {
                &&& a.endpoint == (client_ip, hello.game_socket_port)
                &&& final(self).registry@ == old(self).registry@.insert(a.endpoint, (client_uuid, handle))
                &&& a.replaced == (if old(self).registry@.contains_key(a.endpoint) {
                    Some(old(self).registry@[a.endpoint])
                } else {
                    None
                })
                &&& a.game_state@ == old(self).game.state@
                &&& a.new_statistics@ == (StatisticsView { uuid: client_uuid, username: hello.username@, kills: 0, deaths: 0, score: 0 })
                &&& final(self).stats@ == old(self).stats@.insert(client_uuid, a.new_statistics@)
            },
            final(self).game.state@ == old(self).game.state@,
            final(self).game.intermission_total_votes == old(self).game.intermission_total_votes,
            final(self).metadata == old(self).metadata,
            final(self).tick_count == old(self).tick_count,
    {
        if self.registry.has_client(client_uuid) {
            return None;
        }
        let endpoint: Endpoint = (client_ip, hello.game_socket_port);
        let replaced = self.registry.register(endpoint, client_uuid, handle);
        let stat = ClientStatistics::new(client_uuid, hello.username.clone());
        self.stats.upsert(stat.duplicate());
        Some(Admission { endpoint, replaced, game_state: self.game.state_message(), new_statistics: stat })
    }

    /// Removes the session under `endpoint` and its statistics.
    pub fn disconnect(&mut self, endpoint: Endpoint) -> (r: Option<Disconnect>)
        requires
            old(self).wf(),
        ensures
            final(self).wf(),
            final(self).registry@ == old(self).registry@.remove(endpoint),
            r is Some <==> old(self).registry@.contains_key(endpoint),
            r matches Some(d) ==> {
                &&& d.client_uuid == old(self).registry@[endpoint].0
                &&& d.notice == ServerRequest::PlayerDisconnect(d.client_uuid)
                &&& d.notify@.no_duplicates()
                &&& d.notify@.to_set() == final(self).registry@.dom()
                &&& final(self).stats@ == old(self).stats@.remove(d.client_uuid)
            },
            r is None ==> final(self).stats@ == old(self).stats@,
            final(self).game.state@ == old(self).game.state@,
            final(self).game.intermission_total_votes == old(self).game.intermission_total_votes,
            final(self).metadata == old(self).metadata,
            final(self).tick_count == old(self).tick_count,
    {
        match self.registry.remove(endpoint) {
            None => None,
            Some((client_uuid, _)) => {
                self.stats.remove(client_uuid);
                Some(Disconnect {
                    client_uuid,
                    notify: self.registry.endpoints(),
                    notice: ServerRequest::PlayerDisconnect(client_uuid),
                })
            },
        }
    }

    /// Drops every client whose delivery failed during a broadcast to
    /// `targets`; `delivered[i]` says whether the write to `targets[i]`
    /// went through. The others are untouched.
    pub fn drop_failed(&mut self, targets: &Vec<Endpoint>, delivered: &Vec<bool>) -> (r:
        FailedDelivery)
        requires
            old(self).wf(),
            targets@.len() == delivered@.len(),
        ensures
            final(self).wf(),
            final(self).registry@ == old(self).registry@.remove_keys(
                failed_targets(targets@, delivered@),
            ),
            r.notify@.no_duplicates(),
            r.notify@.to_set() == final(self).registry@.dom(),
            forall|id: u128|
                r.removed@.contains(id) ==> exists|e: Endpoint|
                    failed_targets(targets@, delivered@).contains(e)
                        && old(self).registry@.contains_key(e) && #[trigger] old(
                        self,
                    ).registry@[e].0 == id,
            forall|e: Endpoint|
                failed_targets(targets@, delivered@).contains(e) && old(
                    self,
                ).registry@.contains_key(e) ==> r.removed@.contains(#[trigger] old(self).registry@[e].0),
            forall|u: u128|
                #[trigger] final(self).stats@.contains_key(u) <==> (old(self).stats@.contains_key(u)
                    && !r.removed@.contains(u)),
            forall|u: u128|
                #[trigger] final(self).stats@.contains_key(u) ==> final(self).stats@[u] == old(self).stats@[u],
            final(self).game.state@ == old(self).game.state@,
            final(self).game.intermission_total_votes == old(self).game.intermission_total_votes,
    {
        let mut removed: Vec<u128> = Vec::new();
        let mut i: usize = 0;
        while i < targets.len()
            invariant
                0 <= i <= targets@.len(),
                targets@.len() == delivered@.len(),
                self.wf(),
                self.registry@ == old(self).registry@.remove_keys(
                    failed_targets(targets@.take(i as int), delivered@.take(i as int)),
                ),
                forall|id: u128|
                    removed@.contains(id) ==> exists|e: Endpoint|
                        failed_targets(targets@.take(i as int), delivered@.take(i as int)).contains(e)
                            && old(self).registry@.contains_key(e) && #[trigger] old(
                            self,
                        ).registry@[e].0 == id,
                forall|e: Endpoint|
                    failed_targets(targets@.take(i as int), delivered@.take(i as int)).contains(e)
                        && old(self).registry@.contains_key(e) ==> removed@.contains(
                        #[trigger] old(self).registry@[e].0,
                    ),
                forall|u: u128|
                    #[trigger] self.stats@.contains_key(u) <==> (old(self).stats@.contains_key(u)
                        && !removed@.contains(u)),
                forall|u: u128|
                    #[trigger] self.stats@.contains_key(u) ==> self.stats@[u] == old(self).stats@[u],
                self.game.state@ == old(self).game.state@,
                self.game.intermission_total_votes == old(self).game.intermission_total_votes,
            decreases targets@.len() - i,
        {
            let ghost prev_failed = failed_targets(targets@.take(i as int), delivered@.take(i as int));
            let ghost next_failed = failed_targets(targets@.take(i + 1), delivered@.take(i + 1));
            let ghost prev_removed = removed@;
            let ghost prev_stats = self.stats@;
            let t = targets[i];
            if !delivered[i] {
                assert(next_failed =~= prev_failed.insert(t)) by {
                    assert forall|e: Endpoint| next_failed.contains(e) implies prev_failed.insert(t).contains(e) by {
                        let j = choose|j: int| 0 <= j < i + 1 && #[trigger] targets@.take(i + 1)[j] == e && !delivered@.take(i + 1)[j];
                        if j < i {
                            assert(targets@.take(i as int)[j] == e && !delivered@.take(i as int)[j]);
                        }
                    }
                    assert forall|e: Endpoint| prev_failed.insert(t).contains(e) implies next_failed.contains(e) by {
                        if e == t {
                            assert(targets@.take(i + 1)[i as int] == e && !delivered@.take(i + 1)[i as int]);
                        } else {
                            let j = choose|j: int| 0 <= j < i && #[trigger] targets@.take(i as int)[j] == e && !delivered@.take(i as int)[j];
                            assert(targets@.take(i + 1)[j] == e && !delivered@.take(i + 1)[j]);
                        }
                    }
                }
                match self.disconnect(t) {
                    Some(d) => {
                        removed.push(d.client_uuid);
                        proof {
                            assert(removed@ == prev_removed.push(d.client_uuid));
                            assert forall|u: u128| removed@.contains(u) <==> (prev_removed.contains(u) || u == d.client_uuid) by {
                                if removed@.contains(u) {
                                    let j = choose|j: int| 0 <= j < removed@.len() && removed@[j] == u;
                                    if j < prev_removed.len() {
                                        assert(prev_removed[j] == u);
                                    }
                                }
                                if prev_removed.contains(u) {
                                    let j = choose|j: int| 0 <= j < prev_removed.len() && prev_removed[j] == u;
                                    assert(removed@[j] == u);
                                }
                                if u == d.client_uuid {
                                    assert(removed@[removed@.len() - 1] == u);
                                }
                            }
                            assert forall|id: u128| removed@.contains(id) implies exists|e: Endpoint|
                                next_failed.contains(e) && old(self).registry@.contains_key(e)
                                    && #[trigger] old(self).registry@[e].0 == id by {
                                let j = choose|j: int| 0 <= j < removed@.len() && removed@[j] == id;
                                if j < prev_removed.len() {
                                    assert(prev_removed.contains(id));
                                } else {
                                    assert(next_failed.contains(t) && old(self).registry@.contains_key(t)
                                        && old(self).registry@[t].0 == id);
                                }
                            }
                            assert forall|e: Endpoint| next_failed.contains(e) && old(self).registry@.contains_key(e)
                                implies removed@.contains(#[trigger] old(self).registry@[e].0) by {
                                if e == t {
                                    assert(removed@[removed@.len() - 1] == old(self).registry@[e].0);
                                } else {
                                    assert(prev_removed.contains(old(self).registry@[e].0));
                                    let j = choose|j: int| 0 <= j < prev_removed.len() && prev_removed[j] == old(self).registry@[e].0;
                                    assert(removed@[j] == old(self).registry@[e].0);
                                }
                            }
                        }
                    },
                    None => {
                        proof {
                            assert forall|e: Endpoint| next_failed.contains(e) && old(self).registry@.contains_key(e)
                                implies removed@.contains(#[trigger] old(self).registry@[e].0) by {
                                if e == t {
                                    assert(prev_failed.contains(t));
                                }
                            }
                            assert forall|id: u128| removed@.contains(id) implies exists|e: Endpoint|
                                next_failed.contains(e) && old(self).registry@.contains_key(e)
                                    && #[trigger] old(self).registry@[e].0 == id by {
                                let e = choose|e: Endpoint| prev_failed.contains(e) && old(self).registry@.contains_key(e)
                                    && #[trigger] old(self).registry@[e].0 == id;
                                assert(next_failed.contains(e));
                            }
                        }
                    },
                }
                assert(self.registry@ =~= old(self).registry@.remove_keys(next_failed));
            } else {
                assert(next_failed =~= prev_failed) by {
                    assert forall|e: Endpoint| next_failed.contains(e) implies prev_failed.contains(e) by {
                        let j = choose|j: int| 0 <= j < i + 1 && #[trigger] targets@.take(i + 1)[j] == e && !delivered@.take(i + 1)[j];
                        assert(j < i);
                        assert(targets@.take(i as int)[j] == e && !delivered@.take(i as int)[j]);
                    }
                    assert forall|e: Endpoint| prev_failed.contains(e) implies next_failed.contains(e) by {
                        let j = choose|j: int| 0 <= j < i && #[trigger] targets@.take(i as int)[j] == e && !delivered@.take(i as int)[j];
                        assert(targets@.take(i + 1)[j] == e && !delivered@.take(i + 1)[j]);
                    }
                }
            }
            i = i + 1;
        }
        assert(targets@.take(i as int) =~= targets@);
        assert(delivered@.take(i as int) =~= delivered@);
        FailedDelivery { removed, notify: self.registry.endpoints() }
    }

    /// Decides on a batch of inputs that arrived from `from`. Only a
    /// connected client, under its own id, reaches the simulation; an exit
    /// ends its session after the inputs that came before it.
    pub fn handle_game_request(&mut self, from: Endpoint, req: &RemoteClientGameRequest) -> (r:
        InputDecision)
        requires
            old(self).wf(),
        ensures
            final(self).wf(),
            r is Rejected <==> !(old(self).registry@.contains_key(from) && old(self).registry@[from].0
                == req.id),
            r is Rejected ==> final(self).unchanged_from(old(self)),
            r matches InputDecision::Apply(v) ==> v@ == req.inputs@ && !req.inputs@.contains(
                GameInput::Exit,
            ) && final(self).unchanged_from(old(self)),
            r matches InputDecision::ApplyThenDisconnect(v, d) ==> {
                &&& exists|k: int| first_exit(req.inputs@, k) && v@ == req.inputs@.take(k)
                &&& d.client_uuid == req.id
                &&& d.notice == ServerRequest::PlayerDisconnect(req.id)
                &&& final(self).registry@ == old(self).registry@.remove(from)
                &&& d.notify@.no_duplicates()
                &&& d.notify@.to_set() == final(self).registry@.dom()
                &&& final(self).stats@ == old(self).stats@.remove(req.id)
                &&& final(self).game.state@ == old(self).game.state@
            },
    {
        if !self.registry.authenticate(from, req.id) {
            return InputDecision::Rejected;
        }
        let mut before_exit: Vec<GameInput> = Vec::new();
        let mut i: usize = 0;
        while i < req.inputs.len()
            invariant
                0 <= i <= req.inputs@.len(),
                before_exit@ == req.inputs@.take(i as int),
                forall|j: int| 0 <= j < i ==> #[trigger] req.inputs@[j] != GameInput::Exit,
                *self == *old(self),
                self.wf(),
                self.registry@.contains_key(from) && self.registry@[from].0 == req.id,
            decreases req.inputs@.len() - i,
        {
            let input = req.inputs[i];
            if input == GameInput::Exit {
                assert(first_exit(req.inputs@, i as int));
                match self.disconnect(from) {
                    Some(d) => {
                        return InputDecision::ApplyThenDisconnect(before_exit, d);
                    },
                    None => {
                        return InputDecision::Rejected;
                    },
                }
            }
            before_exit.push(input);
            i = i + 1;
            assert(before_exit@ =~= req.inputs@.take(i as int));
        }
        assert(req.inputs@.take(i as int) =~= req.inputs@);
        assert(!req.inputs@.contains(GameInput::Exit));
        InputDecision::Apply(before_exit)
    }

    /// Decides on a control message from the client whose tick socket is
    /// at `from`. Votes count only during an intermission and are announced
    /// to everybody; a vote during a round is answered with the round's
    /// state; a probe is echoed; a change of character is announced.
    pub fn handle_control_request(&mut self, from: Endpoint, req: RemoteClientRequest) -> (r:
        ControlAction)
        requires
            old(self).wf(),
        ensures
            final(self).wf(),
            final(self).registry@ == old(self).registry@,
            final(self).stats@ == old(self).stats@,
            !(old(self).registry@.contains_key(from) && old(self).registry@[from].0 == req.id) ==> r
                == ControlAction::Nothing && final(self).unchanged_from(old(self)),
            (old(self).registry@.contains_key(from) && old(self).registry@[from].0 == req.id) ==> match req.request {
                ClientRequest::Vote(map) => match old(self).game.state@ {
                    GameStateView::Pause => r == ControlAction::Nothing && final(self).unchanged_from(old(self)),
                    GameStateView::OngoingGame(g) => r == ControlAction::Reply(
                        ServerRequest::ServerGameStateControl(ServerGameState::OngoingGame(g)),
                    ) && final(self).unchanged_from(old(self)),
                    GameStateView::Intermission(d) => if vote_countable(d, map)
                        && old(self).game.intermission_total_votes < usize::MAX {
                        &&& r == ControlAction::Broadcast(ServerRequest::PlayerVote(req.id, map))
                        &&& exists|i: int|
                            #![auto]
                            is_first_of(d.selectable_maps, map, i) && final(self).game.state@
                                == GameStateView::Intermission(after_vote(d, map, i))
                        &&& final(self).game.intermission_total_votes == old(self).game.intermission_total_votes + 1
                    } else {
                        r == ControlAction::Nothing && final(self).unchanged_from(old(self))
                    },
                },
                ClientRequest::RTTMeasurement(t) => r == ControlAction::Reply(ServerRequest::RTTMeasurement(t))
                    && final(self).unchanged_from(old(self)),
                ClientRequest::ClientPawnSync => r == ControlAction::SyncPawns
                    && final(self).unchanged_from(old(self)),
                ClientRequest::PawnTypeChange(t) => r == ControlAction::Broadcast(ServerRequest::PawnTypeChange(req.id, t))
                    && final(self).unchanged_from(old(self)),
            },
    {
        if !self.registry.authenticate(from, req.id) {
            return ControlAction::Nothing;
        }
        match req.request {
            ClientRequest::Vote(map) => match self.game.vote(map) {
                VoteOutcome::Counted => ControlAction::Broadcast(ServerRequest::PlayerVote(req.id, map)),
                VoteOutcome::Resync(g) => ControlAction::Reply(
                    ServerRequest::ServerGameStateControl(ServerGameState::OngoingGame(g)),
                ),
                VoteOutcome::Ignored => ControlAction::Nothing,
            },
            ClientRequest::RTTMeasurement(t) => ControlAction::Reply(ServerRequest::RTTMeasurement(t)),
            ClientRequest::ClientPawnSync => ControlAction::SyncPawns,
            ClientRequest::PawnTypeChange(t) => ControlAction::Broadcast(ServerRequest::PawnTypeChange(req.id, t)),
        }
    }

    /// Starts the next simulation step and returns its number; after the
    /// largest number the count starts again at zero.
    pub fn next_tick(&mut self) -> (r: u64)
        ensures
            r == (if old(self).tick_count == u64::MAX {
                0
            } else {
                (old(self).tick_count + 1) as u64
            }),
            final(self).tick_count == r,
            final(self).registry@ == old(self).registry@,
            final(self).stats@ == old(self).stats@,
            final(self).game.state@ == old(self).game.state@,
            final(self).game.intermission_total_votes == old(self).game.intermission_total_votes,
    {
        self.tick_count = if self.tick_count == u64::MAX {
            0
        } else {
            self.tick_count + 1
        };
        self.tick_count
    }

    /// Moves the game clock to `now`. A change of state comes back with the
    /// message that announces it to every client.
    pub fn advance_clock(&mut self, now_ms: i64) -> (r: Option<(Transition, ServerRequest)>)
        requires
            old(self).wf(),
            now_ms <= i64::MAX - ROUND_LENGTH_MS,
        ensures
            final(self).wf(),
            final(self).registry@ == old(self).registry@,
            final(self).stats@ == old(self).stats@,
            r is None ==> final(self).game.state@ == old(self).game.state@,
            r matches Some((_, m)) ==> m matches ServerRequest::ServerGameStateControl(s) && s@ == final(self).game.state@,
            r is None <==> match old(self).game.state@ {
                GameStateView::Pause => true,
                GameStateView::OngoingGame(g) => now_ms < g.round_end_date,
                GameStateView::Intermission(d) => !(intermission_over(
                    d,
                    old(self).game.intermission_total_votes,
                    now_ms,
                    old(self).registry@.dom().len() as usize,
                ) && d.selectable_maps.len() > 0),
            },
            r matches Some((Transition::IntermissionStarted, _)) ==> old(self).game.state@ is OngoingGame
                && (final(self).game.state@ matches GameStateView::Intermission(d)
                && fresh_tallies(d.selectable_maps, catalog()) && d.votes_cast == 0
                && d.intermission_end_date == now_ms + INTERMISSION_LENGTH_MS)
                && final(self).game.intermission_total_votes == 0,
            r matches Some((Transition::RoundStarted(map), _)) ==> (old(self).game.state@ matches GameStateView::Intermission(d)
                && exists|w: int| #![auto] is_winner(d.selectable_maps, w) && d.selectable_maps[w].map == map)
                && final(self).game.state@
                == GameStateView::OngoingGame(OngoingGameData { current_map: map, round_end_date: (now_ms + ROUND_LENGTH_MS) as i64 })
                && final(self).game.intermission_total_votes == 0,
    {
        let connected = self.registry.len();
        match self.game.advance(now_ms, connected) {
            None => None,
            Some(t) => Some((t, ServerRequest::ServerGameStateControl(self.game.state_message()))),
        }
    }

    /// Moves the game clock to the present time, as `advance_clock` does;
    /// nothing changes where the system clock reads a time the game does
    /// not count in.
    pub fn advance_clock_now(&mut self) -> (r: Option<(Transition, ServerRequest)>)
        requires
            old(self).wf(),
        ensures
            final(self).wf(),
            final(self).registry@ == old(self).registry@,
            final(self).stats@ == old(self).stats@,
            r is None ==> final(self).game.state@ == old(self).game.state@,
            r matches Some((_, m)) ==> m matches ServerRequest::ServerGameStateControl(s) && s@ == final(self).game.state@,
    {
        match unix_time_millis() {
            None => None,
            Some(ms) => {
                if ms > (i64::MAX - ROUND_LENGTH_MS) as u128 {
                    None
                } else {
                    self.advance_clock(ms as i64)
                }
            },
        }
    }
}

} // verus!
