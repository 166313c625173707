use punchafriend::stats::{ClientStatistics, Leaderboard};

fn stat(uuid: u128, score: u32, kills: u32, deaths: u32) -> ClientStatistics {
    ClientStatistics { uuid, username: format!("p{uuid}"), kills, deaths, score }
}

#[test]
fn new_statistics_start_at_zero() {
    let s = ClientStatistics::new(5, "Ann".to_string());
    assert_eq!(s, stat_named(5, "Ann"));
}

fn stat_named(uuid: u128, name: &str) -> ClientStatistics {
    ClientStatistics { uuid, username: name.to_string(), kills: 0, deaths: 0, score: 0 }
}

#[test]
fn leaderboard_orders_by_score_kills_deaths_then_id() {
    let mut b = Leaderboard::new();
    b.upsert(stat(1, 5, 0, 0));
    b.upsert(stat(2, 3, 9, 0));
    b.upsert(stat(3, 3, 1, 4));
    b.upsert(stat(4, 3, 1, 2));
    b.upsert(stat(0, 3, 1, 2));
    let ids: Vec<u128> = b.entries().iter().map(|s| s.uuid).collect();
    assert_eq!(ids, vec![0, 4, 3, 2, 1]);
}

#[test]
fn upsert_replaces_the_clients_entry() {
    let mut b = Leaderboard::new();
    b.upsert(stat(1, 5, 0, 0));
    b.upsert(stat(2, 3, 0, 0));
    b.upsert(stat(2, 9, 1, 0));
    assert_eq!(b.len(), 2);
    assert_eq!(b.get(2), Some(stat(2, 9, 1, 0)));
    let ids: Vec<u128> = b.entries().iter().map(|s| s.uuid).collect();
    assert_eq!(ids, vec![1, 2]);
}

#[test]
fn remove_takes_the_entry_out() {
    let mut b = Leaderboard::new();
    b.upsert(stat(1, 5, 0, 0));
    assert!(b.remove(1));
    assert!(!b.remove(1));
    assert_eq!(b.len(), 0);
    assert_eq!(b.get(1), None);
}

#[test]
fn ranks_below_compares_score_first() {
    assert!(stat(9, 1, 100, 100).ranks_below(&stat(0, 2, 0, 0)));
    assert!(!stat(0, 2, 0, 0).ranks_below(&stat(0, 2, 0, 0)));
}
