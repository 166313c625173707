use punchafriend::game_state::{
    GameStateMachine, IntermissionData, MapTally, OngoingGameData, ServerGameState, Transition, ROUND_LENGTH_MS,
};
use punchafriend::protocol::{
    ClientMetadata, ClientRequest, GameInput, MapName, PawnType, RemoteClientGameRequest,
    RemoteClientRequest, ServerRequest,
};
use punchafriend::server::{ControlAction, InputDecision, ServerCore};

const IP: u128 = 0xffff_7f00_0001;
const UDP_PORT: u16 = 40000;

fn admitted(core: &mut ServerCore, name: &str, port: u16) -> u128 {
    let (id, _) = core.begin_handshake().unwrap();
    core.admit_client(id, IP, &ClientMetadata::new(port, name.to_string()), port as u64).unwrap();
    id
}

fn in_intermission(core: &mut ServerCore) {
    core.game = GameStateMachine {
        state: ServerGameState::Intermission(IntermissionData::new(
            vec![
                MapTally { map: MapName::FlatGround, votes: 0, reached_at: 0 },
                MapTally { map: MapName::Islands, votes: 0, reached_at: 0 },
            ],
            30_000,
        )),
        intermission_total_votes: 0,
    };
}

#[test]
fn start_now_makes_a_server() {
    let core = ServerCore::start_now(UDP_PORT).unwrap();
    assert_eq!(core.metadata.game_socket_port, UDP_PORT);
    assert_eq!(core.registry.len(), 0);
}

#[test]
fn start_at_refuses_a_time_too_late_for_a_round() {
    assert!(ServerCore::start_at(UDP_PORT, i64::MAX - ROUND_LENGTH_MS + 1).is_none());
    let core = ServerCore::start_at(UDP_PORT, -5).unwrap();
    assert_eq!(
        core.game.state,
        ServerGameState::OngoingGame(OngoingGameData::new(MapName::FlatGround, ROUND_LENGTH_MS - 5))
    );
}

#[test]
fn id_already_in_use_is_refused() {
    let mut core = ServerCore::new(UDP_PORT, 0);
    let ann = admitted(&mut core, "Ann", 5001);
    assert!(core.admit_client(ann, IP, &ClientMetadata::new(5002, "Bob".to_string()), 9).is_none());
    assert_eq!(core.registry.len(), 1);
    assert_eq!(core.stats.len(), 1);
    let (fresh, _) = core.begin_handshake().unwrap();
    assert_ne!(fresh, ann);
}

#[test]
fn handshake_reply_carries_fresh_id_and_tick_port() {
    let mut core = ServerCore::new(UDP_PORT, 0);
    let (id, reply) = core.begin_handshake().unwrap();
    assert_eq!(reply.client_uuid, id);
    assert_eq!(reply.game_socket_port, UDP_PORT);
    assert_eq!((id >> 76) & 0xf, 4);
    let (other, _) = core.begin_handshake().unwrap();
    assert_ne!(id, other);

    let hello = RemoteClientGameRequest { id, inputs: vec![GameInput::MoveLeft] };
    assert_eq!(core.handle_game_request((IP, 5001), &hello), InputDecision::Rejected);

    let adm = core.admit_client(id, IP, &ClientMetadata::new(5001, "Ann".to_string()), 1).unwrap();
    assert_eq!(adm.endpoint, (IP, 5001));
    assert_eq!(adm.new_statistics.username, "Ann");
    assert_eq!(adm.replaced, None);
    assert!(matches!(adm.game_state, ServerGameState::OngoingGame(_)));
    assert_eq!(
        core.handle_game_request((IP, 5001), &hello),
        InputDecision::Apply(vec![GameInput::MoveLeft])
    );
}

#[test]
fn datagram_from_unknown_address_changes_nothing() {
    let mut core = ServerCore::new(UDP_PORT, 0);
    let id = admitted(&mut core, "Ann", 5001);
    let req = RemoteClientGameRequest { id, inputs: vec![GameInput::Exit] };
    assert_eq!(core.handle_game_request((IP, 5002), &req), InputDecision::Rejected);
    assert_eq!(core.registry.len(), 1);
    assert_eq!(core.stats.len(), 1);
}

#[test]
fn datagram_under_another_clients_id_is_rejected() {
    let mut core = ServerCore::new(UDP_PORT, 0);
    let ann = admitted(&mut core, "Ann", 5001);
    let bob = admitted(&mut core, "Bob", 5002);
    let req = RemoteClientGameRequest { id: ann, inputs: vec![GameInput::Exit] };
    assert_eq!(core.handle_game_request((IP, 5002), &req), InputDecision::Rejected);
    assert!(core.registry.authenticate((IP, 5002), bob));
    assert_eq!(core.registry.len(), 2);
}

#[test]
fn exit_input_disconnects_and_notifies_the_others() {
    let mut core = ServerCore::new(UDP_PORT, 0);
    let ann = admitted(&mut core, "Ann", 5001);
    admitted(&mut core, "Bob", 5002);
    admitted(&mut core, "Cid", 5003);
    let req = RemoteClientGameRequest { id: ann, inputs: vec![GameInput::MoveJump, GameInput::Exit, GameInput::Attack] };
    match core.handle_game_request((IP, 5001), &req) {
        InputDecision::ApplyThenDisconnect(inputs, d) => {
            assert_eq!(inputs, vec![GameInput::MoveJump]);
            assert_eq!(d.client_uuid, ann);
            assert_eq!(d.notice, ServerRequest::PlayerDisconnect(ann));
            let mut notify = d.notify.clone();
            notify.sort();
            assert_eq!(notify, vec![(IP, 5002), (IP, 5003)]);
        }
        other => panic!("unexpected {other:?}"),
    }
    assert!(!core.registry.contains((IP, 5001)));
    assert_eq!(core.stats.get(ann), None);
    assert_eq!(core.stats.len(), 2);
}

#[test]
fn failed_write_drops_only_that_client() {
    let mut core = ServerCore::new(UDP_PORT, 0);
    let mut ids = vec![];
    for port in 5001..5006u16 {
        ids.push(admitted(&mut core, "p", port));
    }
    let targets = core.registry.endpoints();
    assert_eq!(targets.len(), 5);
    let delivered: Vec<bool> = targets.iter().map(|e| e.1 != 5003).collect();
    let out = core.drop_failed(&targets, &delivered);
    assert_eq!(out.removed, vec![ids[2]]);
    assert_eq!(out.notify.len(), 4);
    assert!(!core.registry.contains((IP, 5003)));
    for port in [5001u16, 5002, 5004, 5005] {
        assert!(core.registry.contains((IP, port)));
    }
    assert_eq!(core.stats.get(ids[2]), None);
}

#[test]
fn three_votes_from_three_clients_start_round_on_most_voted_map() {
    let mut core = ServerCore::new(UDP_PORT, 0);
    let a = admitted(&mut core, "a", 5001);
    let b = admitted(&mut core, "b", 5002);
    let c = admitted(&mut core, "c", 5003);
    in_intermission(&mut core);
    let vote = |id, m| RemoteClientRequest { id, request: ClientRequest::Vote(m) };
    assert_eq!(
        core.handle_control_request((IP, 5001), vote(a, MapName::Islands)),
        ControlAction::Broadcast(ServerRequest::PlayerVote(a, MapName::Islands))
    );
    core.handle_control_request((IP, 5002), vote(b, MapName::Islands));
    assert_eq!(core.advance_clock(100), None);
    core.handle_control_request((IP, 5003), vote(c, MapName::FlatGround));
    match &core.game.state {
        ServerGameState::Intermission(d) => {
            assert_eq!(d.selectable_maps[0].votes, 1);
            assert_eq!(d.selectable_maps[1].votes, 2);
        }
        _ => panic!("not in an intermission"),
    }
    let (t, msg) = core.advance_clock(100).unwrap();
    assert_eq!(t, Transition::RoundStarted(MapName::Islands));
    match msg {
        ServerRequest::ServerGameStateControl(ServerGameState::OngoingGame(g)) => {
            assert_eq!(g.current_map, MapName::Islands)
        }
        other => panic!("unexpected {other:?}"),
    }
}

#[test]
fn control_messages_are_answered() {
    let mut core = ServerCore::new(UDP_PORT, 0);
    let a = admitted(&mut core, "a", 5001);
    let rtt = RemoteClientRequest { id: a, request: ClientRequest::RTTMeasurement(123) };
    assert_eq!(core.handle_control_request((IP, 5001), rtt), ControlAction::Reply(ServerRequest::RTTMeasurement(123)));
    let sync = RemoteClientRequest { id: a, request: ClientRequest::ClientPawnSync };
    assert_eq!(core.handle_control_request((IP, 5001), sync), ControlAction::SyncPawns);
    let change = RemoteClientRequest { id: a, request: ClientRequest::PawnTypeChange(PawnType::Ninja) };
    assert_eq!(
        core.handle_control_request((IP, 5001), change),
        ControlAction::Broadcast(ServerRequest::PawnTypeChange(a, PawnType::Ninja))
    );
    assert_eq!(core.handle_control_request((IP, 5009), rtt), ControlAction::Nothing);
    let vote = RemoteClientRequest { id: a, request: ClientRequest::Vote(MapName::Islands) };
    assert!(matches!(core.handle_control_request((IP, 5001), vote), ControlAction::Reply(ServerRequest::ServerGameStateControl(_))));
}

#[test]
fn tick_counter_counts_up() {
    let mut core = ServerCore::new(UDP_PORT, 0);
    assert_eq!(core.next_tick(), 1);
    assert_eq!(core.next_tick(), 2);
    core.tick_count = u64::MAX;
    assert_eq!(core.next_tick(), 0);
}
