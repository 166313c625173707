//! The client's side of the connection: it reconciles the snapshots of the
//! tick channel, follows the server's control messages and builds what the
//! client sends back.
use vstd::prelude::*;
use crate::game_state::{IntermissionData, OngoingGameData, ServerGameState};
use crate::protocol::{ClientRequest, GameInput, MapName, PauseWindowState, PawnType, RemoteClientGameRequest, RemoteClientRequest, ServerMetadata, ServerRequest, ServerTickUpdate, TickUpdateType};
use crate::stats::{ClientStatistics, Leaderboard, StatisticsView};
use crate::ticks::{ShadowStore, TickOutcome, after_ticks};

verus! {

/// The layer of the user interface the client shows.
#[derive(Debug, Clone, PartialEq, Eq)]
pub enum UiLayer {
    MainMenu,
    GameMenu,
    Game(OngoingGameData),
    Intermission(IntermissionData),
    PauseWindow(PauseWindowState),
}

/// What the presentation layer has to do after a control message.
#[derive(Debug, Clone, Copy, PartialEq, Eq, Structural)]
pub enum ClientEffect {
    Nothing,
    /// Tear down the pawn of the client that left.
    Despawn(u128),
    /// Load this map: a round began.
    LoadMap(MapName),
    /// Show the ballot: an intermission began.
    ShowIntermission,
    /// The leaderboard changed.
    StatisticsUpdated,
    /// A vote was cast; the ballot's counts changed.
    VoteShown,
    /// The answer to a round-trip probe sent at this time.
    RoundTrip(i64),
    /// This pawn now has this character.
    PawnTypeChanged(u128, PawnType),
    /// The shadows were brought up to date with a full sync.
    PawnsSynced,
}

/// What applying one snapshot of the tick channel did.
#[derive(Debug, Clone, Copy, PartialEq, Eq, Structural)]
pub enum TickEffect {
    Pawn(TickOutcome),
    /// Whether the map element was known and moved.
    MapObject(bool),
}

/// The statistics `s` after each entry of `changes` replaced its client's.
pub open spec fn after_changes(s: Map<u128, StatisticsView>, changes: Seq<StatisticsView>) -> Map<u128, StatisticsView>
    decreases changes.len(),
{
    if changes.len() == 0 {
        s
    } else {
        let prev = after_changes(s, changes.drop_last());
        prev.insert(changes.last().uuid, changes.last())
    }
}

/// A connected client's view of the game.
pub struct ClientState {
    /// What the server told it during the handshake.
    pub server: ServerMetadata,
    pub shadows: ShadowStore,
    pub stats: Leaderboard,
    pub ui_layer: UiLayer,
    /// Whether it voted in the present intermission.
    pub has_voted: bool,
}

impl ClientState {
    pub open spec fn wf(&self) -> bool {
        self.shadows.wf() && self.stats.wf()
    }

    /// The state right after the handshake: nothing known yet of the game.
    pub fn new(server: ServerMetadata) -> (r: ClientState)
        ensures
            r.wf(),
            r.server == server,
            r.shadows.pawns().dom() == Set::<u128>::empty(),
            r.stats@.dom() == Set::<u128>::empty(),
            r.ui_layer == UiLayer::MainMenu,
            !r.has_voted,
    {
        ClientState {
            server,
            shadows: ShadowStore::new(),
            stats: Leaderboard::new(),
            ui_layer: UiLayer::MainMenu,
            has_voted: false,
        }
    }

    /// Applies one snapshot of the tick channel.
    pub fn handle_tick(&mut self, u: ServerTickUpdate) -> (r: TickEffect)
        requires
            old(self).wf(),
        ensures
            final(self).wf(),
            final(self).stats@ == old(self).stats@,
            final(self).ui_layer == old(self).ui_layer,
            final(self).has_voted == old(self).has_voted,
            final(self).server == old(self).server,
            match u.tick_update_type {
                TickUpdateType::Pawn(p) => final(self).shadows.pawns() == crate::ticks::after_tick(
                    old(self).shadows.pawns(),
                    p,
                ) && r == TickEffect::Pawn(crate::ticks::tick_outcome(old(self).shadows.pawns(), p))
                    && final(self).shadows.map_objects() == old(self).shadows.map_objects(),
                TickUpdateType::MapObject(m) => r == TickEffect::MapObject(
                    old(self).shadows.map_objects().contains_key(m.id),
                ) && final(self).shadows.pawns() == old(self).shadows.pawns(),
            },
    {
        match u.tick_update_type {
            TickUpdateType::Pawn(p) => TickEffect::Pawn(self.shadows.apply_pawn_update(p)),
            TickUpdateType::MapObject(m) => TickEffect::MapObject(
                self.shadows.apply_map_object_update(m),
            ),
        }
    }

    /// Replaces each client's statistics by its entry in `changes`.
    pub fn apply_statistics(&mut self, changes: Vec<ClientStatistics>)
        requires
            old(self).wf(),
        ensures
            final(self).wf(),
            final(self).stats@ == after_changes(
                old(self).stats@,
                crate::stats::views(changes@),
            ),
            final(self).shadows.pawns() == old(self).shadows.pawns(),
            final(self).shadows.map_objects() == old(self).shadows.map_objects(),
            final(self).ui_layer == old(self).ui_layer,
            final(self).has_voted == old(self).has_voted,
            final(self).server == old(self).server,
    {
        let ghost start = self.stats@;
        let ghost cs = crate::stats::views(changes@);
        let mut i: usize = 0;
        while i < changes.len()
            invariant
                0 <= i <= changes@.len(),
                cs == crate::stats::views(changes@),
                self.wf(),
                self.stats@ == after_changes(start, cs.take(i as int)),
                self.shadows.pawns() == old(self).shadows.pawns(),
                self.shadows.map_objects() == old(self).shadows.map_objects(),
                self.ui_layer == old(self).ui_layer,
                self.has_voted == old(self).has_voted,
                self.server == old(self).server,
            decreases changes@.len() - i,
        {
            let c = changes[i].duplicate();
            self.stats.upsert(c);
            assert(cs.take(i + 1).drop_last() =~= cs.take(i as int));
            assert(cs.take(i + 1).last() == changes@[i as int]@);
            i = i + 1;
        }
        assert(cs.take(i as int) =~= cs);
    }

    /// Follows one control message of the server.
    pub fn handle_server_request(&mut self, req: ServerRequest) -> (r: ClientEffect)
        requires
            old(self).wf(),
        ensures
            final(self).wf(),
            final(self).server == old(self).server,
            final(self).shadows.map_objects() == old(self).shadows.map_objects(),
            !(req is PlayersStatisticsChange) ==> final(self).stats@ == old(self).stats@,
            !(req is PlayerDisconnect || req is ClientPawnSync) ==> final(self).shadows.pawns() == old(self).shadows.pawns(),
            !(req matches ServerRequest::ServerGameStateControl(ServerGameState::Intermission(_))) ==> final(self).has_voted == old(self).has_voted,
            match req {
                ServerRequest::PlayerDisconnect(id) => r == ClientEffect::Despawn(id)
                    && final(self).shadows.pawns() == old(self).shadows.pawns().remove(id)
                    && final(self).ui_layer == old(self).ui_layer,
                ServerRequest::ServerGameStateControl(ServerGameState::Pause) => r == ClientEffect::Nothing
                    && final(self).ui_layer == old(self).ui_layer,
                ServerRequest::ServerGameStateControl(ServerGameState::Intermission(d)) => r
                    == ClientEffect::ShowIntermission && !final(self).has_voted
                    && final(self).ui_layer == UiLayer::Intermission(d),
                ServerRequest::ServerGameStateControl(ServerGameState::OngoingGame(g)) => r
                    == ClientEffect::LoadMap(g.current_map) && final(self).ui_layer == UiLayer::Game(g)
                    && final(self).has_voted == old(self).has_voted,
                ServerRequest::PlayersStatisticsChange(v) => r == ClientEffect::StatisticsUpdated
                    && final(self).stats@ == after_changes(old(self).stats@, crate::stats::views(v@))
                    && final(self).ui_layer == old(self).ui_layer,
                ServerRequest::RTTMeasurement(t) => r == ClientEffect::RoundTrip(t)
                    && final(self).ui_layer == old(self).ui_layer,
                ServerRequest::PlayerVote(_, map) => match old(self).ui_layer {
                    UiLayer::Intermission(d) => r == ClientEffect::VoteShown
                        && (final(self).ui_layer matches UiLayer::Intermission(nd)
                        && if crate::game_state::vote_countable(d@, map) {
                            exists|i: int|
                                #![auto]
                                crate::game_state::is_first_of(d.selectable_maps@, map, i)
                                    && nd@ == crate::game_state::after_vote(d@, map, i)
                        } else {
                            nd@ == d@
                        }),
                    _ => r == ClientEffect::Nothing && final(self).ui_layer == old(self).ui_layer,
                },
                ServerRequest::PawnTypeChange(id, t) => r == ClientEffect::PawnTypeChanged(id, t)
                    && final(self).ui_layer == old(self).ui_layer,
                ServerRequest::ClientPawnSync(updates) => r == ClientEffect::PawnsSynced
                    && final(self).shadows.pawns() == after_ticks(old(self).shadows.pawns(), updates@)
                    && final(self).ui_layer == old(self).ui_layer,
            },
    {
        match req {
            ServerRequest::PlayerDisconnect(id) => {
                self.shadows.remove_pawn(id);
                ClientEffect::Despawn(id)
            },
            ServerRequest::ServerGameStateControl(state) => match state {
                ServerGameState::Pause => ClientEffect::Nothing,
                ServerGameState::Intermission(d) => {
                    self.ui_layer = UiLayer::Intermission(d);
                    self.has_voted = false;
                    ClientEffect::ShowIntermission
                },
                ServerGameState::OngoingGame(g) => {
                    self.ui_layer = UiLayer::Game(g);
                    ClientEffect::LoadMap(g.current_map)
                },
            },
            ServerRequest::PlayersStatisticsChange(v) => {
                self.apply_statistics(v);
                ClientEffect::StatisticsUpdated
            },
            ServerRequest::RTTMeasurement(t) => ClientEffect::RoundTrip(t),
            ServerRequest::PlayerVote(_, map) => match &mut self.ui_layer {
                UiLayer::Intermission(d) => {
                    d.register_vote(map);
                    ClientEffect::VoteShown
                },
                _ => ClientEffect::Nothing,
            },
            ServerRequest::PawnTypeChange(id, t) => ClientEffect::PawnTypeChanged(id, t),
            ServerRequest::ClientPawnSync(updates) => {
                self.shadows.apply_pawn_updates(&updates);
                ClientEffect::PawnsSynced
            },
        }
    }

    /// The vote for `map`, sent once per intermission: `None` outside an
    /// intermission or after the client already voted in it.
    pub fn cast_vote(&mut self, map: MapName) -> (r: Option<RemoteClientRequest>)
        ensures
            r is Some <==> (old(self).ui_layer is Intermission && !old(self).has_voted),
            r matches Some(q) ==> q == (RemoteClientRequest { id: old(self).server.client_uuid, request: ClientRequest::Vote(map) })
                && final(self).has_voted,
            r is None ==> final(self).has_voted == old(self).has_voted,
            final(self).ui_layer == old(self).ui_layer,
            final(self).server == old(self).server,
            final(self).shadows == old(self).shadows,
            final(self).stats == old(self).stats,
    {
        if self.has_voted {
            return None;
        }
        match &self.ui_layer {
            UiLayer::Intermission(_) => {
                self.has_voted = true;
                Some(RemoteClientRequest { id: self.server.client_uuid, request: ClientRequest::Vote(map) })
            },
            _ => None,
        }
    }

    /// The datagram payload that carries `inputs`, tagged with this client's id.
    pub fn input_batch(&self, inputs: Vec<GameInput>) -> (r: RemoteClientGameRequest)
        ensures
            r.id == self.server.client_uuid,
            r.inputs@ == inputs@,
    {
        RemoteClientGameRequest { id: self.server.client_uuid, inputs }
    }
}

} // verus!
