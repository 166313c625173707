use punchafriend::game_state::{
    all_maps, create_intermission_data_all, winning_index, GameStateMachine, IntermissionData,
    MapTally, OngoingGameData, ServerGameState, Transition, VoteOutcome, INTERMISSION_LENGTH_MS,
    ROUND_LENGTH_MS,
};
use punchafriend::protocol::MapName;

fn intermission_machine(end: i64) -> GameStateMachine {
    GameStateMachine {
        state: ServerGameState::Intermission(IntermissionData::new(
            vec![
                MapTally { map: MapName::FlatGround, votes: 0, reached_at: 0 },
                MapTally { map: MapName::Islands, votes: 0, reached_at: 0 },
            ],
            end,
        )),
        intermission_total_votes: 0,
    }
}

fn tally(m: &GameStateMachine) -> Vec<u64> {
    match &m.state {
        ServerGameState::Intermission(d) => d.selectable_maps.iter().map(|t| t.votes).collect(),
        _ => panic!("not in an intermission"),
    }
}

#[test]
fn catalog_lists_every_map() {
    assert_eq!(all_maps(), vec![MapName::FlatGround, MapName::Islands]);
}

#[test]
fn new_intermission_has_every_map_at_zero() {
    let d = create_intermission_data_all(1000);
    assert_eq!(d.selectable_maps.len(), 2);
    assert!(d.selectable_maps.iter().all(|t| t.votes == 0));
    assert_eq!(d.intermission_end_date, 1000 + INTERMISSION_LENGTH_MS);
}

#[test]
fn round_end_starts_intermission() {
    let mut g = GameStateMachine::new(0, MapName::FlatGround);
    assert_eq!(g.state, ServerGameState::OngoingGame(OngoingGameData::new(MapName::FlatGround, ROUND_LENGTH_MS)));
    assert_eq!(g.advance(ROUND_LENGTH_MS - 1, 3), None);
    assert_eq!(g.advance(ROUND_LENGTH_MS, 3), Some(Transition::IntermissionStarted));
    assert_eq!(tally(&g), vec![0, 0]);
}

#[test]
fn all_clients_voted_ends_intermission_early() {
    let mut g = intermission_machine(30_000);
    assert_eq!(g.vote(MapName::FlatGround), VoteOutcome::Counted);
    assert_eq!(g.vote(MapName::FlatGround), VoteOutcome::Counted);
    assert_eq!(g.advance(10, 3), None);
    assert_eq!(g.vote(MapName::Islands), VoteOutcome::Counted);
    assert_eq!(tally(&g), vec![2, 1]);
    assert_eq!(g.advance(10, 3), Some(Transition::RoundStarted(MapName::FlatGround)));
    assert_eq!(g.state, ServerGameState::OngoingGame(OngoingGameData::new(MapName::FlatGround, 10 + ROUND_LENGTH_MS)));
    assert_eq!(g.intermission_total_votes, 0);
}

#[test]
fn countdown_ends_intermission_without_votes() {
    let mut g = intermission_machine(500);
    assert_eq!(g.advance(499, 2), None);
    assert_eq!(g.advance(500, 2), Some(Transition::RoundStarted(MapName::FlatGround)));
}

#[test]
fn tie_goes_to_map_that_reached_count_first() {
    let mut g = intermission_machine(30_000);
    g.vote(MapName::Islands);
    g.vote(MapName::FlatGround);
    assert_eq!(tally(&g), vec![1, 1]);
    assert_eq!(g.advance(30_000, 5), Some(Transition::RoundStarted(MapName::Islands)));

    let mut h = intermission_machine(30_000);
    h.vote(MapName::FlatGround);
    h.vote(MapName::Islands);
    assert_eq!(h.advance(30_000, 5), Some(Transition::RoundStarted(MapName::FlatGround)));
}

#[test]
fn repeated_vote_counts_twice() {
    let mut g = intermission_machine(30_000);
    g.vote(MapName::Islands);
    g.vote(MapName::Islands);
    assert_eq!(tally(&g), vec![0, 2]);
    assert_eq!(g.intermission_total_votes, 2);
}

#[test]
fn vote_during_round_asks_for_resync() {
    let mut g = GameStateMachine::new(0, MapName::Islands);
    assert_eq!(
        g.vote(MapName::FlatGround),
        VoteOutcome::Resync(OngoingGameData::new(MapName::Islands, ROUND_LENGTH_MS))
    );
}

#[test]
fn vote_during_pause_is_ignored() {
    let mut g = GameStateMachine { state: ServerGameState::Pause, intermission_total_votes: 0 };
    assert_eq!(g.vote(MapName::FlatGround), VoteOutcome::Ignored);
    assert_eq!(g.advance(1, 1), None);
}

#[test]
fn vote_for_map_not_on_ballot_is_ignored() {
    let mut g = GameStateMachine {
        state: ServerGameState::Intermission(IntermissionData::new(
            vec![MapTally { map: MapName::FlatGround, votes: 0, reached_at: 0 }],
            100,
        )),
        intermission_total_votes: 0,
    };
    assert_eq!(g.vote(MapName::Islands), VoteOutcome::Ignored);
    assert_eq!(g.intermission_total_votes, 0);
}

#[test]
fn winner_of_empty_ballot_is_none() {
    assert_eq!(winning_index(&vec![]), None);
}

#[test]
fn winner_has_most_votes() {
    let ts = vec![
        MapTally { map: MapName::FlatGround, votes: 1, reached_at: 1 },
        MapTally { map: MapName::Islands, votes: 3, reached_at: 4 },
    ];
    assert_eq!(winning_index(&ts), Some(1));
}
