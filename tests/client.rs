use punchafriend::client::{ClientEffect, ClientState, TickEffect, UiLayer};
use punchafriend::game_state::{create_intermission_data_all, OngoingGameData, ServerGameState};
use punchafriend::protocol::{
    ClientRequest, Direction, GameInput, MapName, Pawn, PawnType, PawnUpdate, ServerMetadata,
    ServerRequest, ServerTickUpdate, TickUpdateType, Transform, Velocity,
};
use punchafriend::stats::ClientStatistics;
use punchafriend::ticks::TickOutcome;

fn update(id: u128, tick: u64) -> PawnUpdate {
    PawnUpdate::new(
        Transform { x: 1, y: 2, rotation: 0 },
        Velocity { x: 0, y: 0, angular: 0 },
        Pawn { uuid: id, health: 0, jumps_remaining: 2, direction: Direction::Left, pawn_type: PawnType::Human },
        tick,
    )
}

fn client() -> ClientState {
    ClientState::new(ServerMetadata::new(9, 40000))
}

#[test]
fn disconnect_notice_despawns_pawn() {
    let mut c = client();
    c.handle_tick(ServerTickUpdate::new(TickUpdateType::Pawn(update(3, 1))));
    assert_eq!(c.handle_server_request(ServerRequest::PlayerDisconnect(3)), ClientEffect::Despawn(3));
    assert_eq!(c.shadows.pawn(3), None);
}

#[test]
fn ticks_reach_the_shadows() {
    let mut c = client();
    let t = |n| ServerTickUpdate::new(TickUpdateType::Pawn(update(3, n)));
    assert_eq!(c.handle_tick(t(4)), TickEffect::Pawn(TickOutcome::Spawned));
    assert_eq!(c.handle_tick(t(2)), TickEffect::Pawn(TickOutcome::Discarded));
    assert_eq!(c.handle_tick(t(5)), TickEffect::Pawn(TickOutcome::Moved));
}

#[test]
fn intermission_opens_the_ballot_once() {
    let mut c = client();
    assert_eq!(c.cast_vote(MapName::Islands), None);
    let d = create_intermission_data_all(0);
    let msg = ServerRequest::ServerGameStateControl(ServerGameState::Intermission(d.clone()));
    assert_eq!(c.handle_server_request(msg), ClientEffect::ShowIntermission);
    assert_eq!(c.ui_layer, UiLayer::Intermission(d));
    let v = c.cast_vote(MapName::Islands).unwrap();
    assert_eq!(v.id, 9);
    assert_eq!(v.request, ClientRequest::Vote(MapName::Islands));
    assert_eq!(c.cast_vote(MapName::Islands), None);
    assert_eq!(c.handle_server_request(ServerRequest::PlayerVote(9, MapName::Islands)), ClientEffect::VoteShown);
    match &c.ui_layer {
        UiLayer::Intermission(d) => assert_eq!(d.selectable_maps[1].votes, 1),
        _ => panic!("ballot closed"),
    }
}

#[test]
fn round_start_loads_the_map() {
    let mut c = client();
    let g = OngoingGameData::new(MapName::Islands, 10);
    let msg = ServerRequest::ServerGameStateControl(ServerGameState::OngoingGame(g));
    assert_eq!(c.handle_server_request(msg), ClientEffect::LoadMap(MapName::Islands));
    assert_eq!(c.ui_layer, UiLayer::Game(g));
}

#[test]
fn statistics_change_replaces_entries() {
    let mut c = client();
    let s1 = ClientStatistics::new(1, "a".to_string());
    let mut s2 = ClientStatistics::new(1, "a".to_string());
    s2.kills = 3;
    c.handle_server_request(ServerRequest::PlayersStatisticsChange(vec![s1]));
    c.handle_server_request(ServerRequest::PlayersStatisticsChange(vec![s2.clone()]));
    assert_eq!(c.stats.entries(), vec![s2]);
}

#[test]
fn pawn_sync_fills_the_shadows() {
    let mut c = client();
    c.handle_server_request(ServerRequest::ClientPawnSync(vec![update(1, 1), update(2, 1)]));
    assert!(c.shadows.pawn(1).is_some() && c.shadows.pawn(2).is_some());
}

#[test]
fn input_batch_is_tagged_with_client_id() {
    let c = client();
    let b = c.input_batch(vec![GameInput::Exit]);
    assert_eq!(b.id, 9);
    assert_eq!(b.inputs, vec![GameInput::Exit]);
}

#[test]
fn round_trip_probe_comes_back() {
    let mut c = client();
    assert_eq!(c.handle_server_request(ServerRequest::RTTMeasurement(55)), ClientEffect::RoundTrip(55));
    assert_eq!(c.handle_server_request(ServerRequest::ServerGameStateControl(ServerGameState::Pause)), ClientEffect::Nothing);
}
