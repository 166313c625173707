use punchafriend::protocol::{
    Direction, MapObjectUpdate, Pawn, PawnType, PawnUpdate, Transform, Velocity,
};
use punchafriend::ticks::{ShadowStore, TickOutcome, UniqueLastTickCount};

fn update(id: u128, x: u32, tick: u64) -> PawnUpdate {
    PawnUpdate::new(
        Transform { x, y: 0, rotation: 0 },
        Velocity { x: 0, y: 0, angular: 0 },
        Pawn { uuid: id, health: 0, jumps_remaining: 2, direction: Direction::Right, pawn_type: PawnType::Knight },
        tick,
    )
}

#[test]
fn unique_last_tick_count_holds_its_value() {
    let mut c = UniqueLastTickCount::new(3);
    assert_eq!(c.get_inner(), 3);
    c.with_tick(9);
    assert_eq!(c.get_inner(), 9);
}

#[test]
fn unknown_pawn_is_spawned_with_its_tick() {
    let mut s = ShadowStore::new();
    assert_eq!(s.apply_pawn_update(update(1, 10, 5)), TickOutcome::Spawned);
    assert_eq!(s.pawn(1), Some(update(1, 10, 5)));
    assert_eq!(s.last_tick(1), Some(UniqueLastTickCount(5)));
}

#[test]
fn newer_tick_overwrites_and_marks_moved() {
    let mut s = ShadowStore::new();
    s.apply_pawn_update(update(1, 10, 5));
    assert_eq!(s.apply_pawn_update(update(1, 20, 6)), TickOutcome::Moved);
    assert_eq!(s.apply_pawn_update(update(1, 20, 7)), TickOutcome::Moved);
    assert_eq!(s.pawn(1).unwrap().position.x, 20);
}

#[test]
fn stale_tick_is_discarded() {
    let mut s = ShadowStore::new();
    s.apply_pawn_update(update(1, 10, 5));
    assert_eq!(s.apply_pawn_update(update(1, 99, 4)), TickOutcome::Discarded);
    assert_eq!(s.apply_pawn_update(update(1, 99, 5)), TickOutcome::Discarded);
    assert_eq!(s.pawn(1), Some(update(1, 10, 5)));
}

#[test]
fn same_highest_tick_twice_is_a_no_op() {
    let mut s = ShadowStore::new();
    s.apply_pawn_update(update(1, 10, 8));
    let before = s.pawn(1);
    assert_eq!(s.apply_pawn_update(update(1, 10, 8)), TickOutcome::Discarded);
    assert_eq!(s.pawn(1), before);
}

#[test]
fn arrival_order_does_not_change_the_result() {
    let ticks = vec![update(1, 1, 1), update(1, 3, 3), update(2, 7, 2), update(1, 2, 2)];
    let mut orders = vec![ticks.clone()];
    let mut rev = ticks.clone();
    rev.reverse();
    orders.push(rev);
    orders.push(vec![ticks[2], ticks[3], ticks[1], ticks[0], ticks[1]]);
    for order in orders {
        let mut s = ShadowStore::new();
        s.apply_pawn_updates(&order);
        assert_eq!(s.pawn(1), Some(update(1, 3, 3)));
        assert_eq!(s.pawn(2), Some(update(2, 7, 2)));
    }
}

#[test]
fn map_object_update_moves_only_known_elements() {
    let mut s = ShadowStore::new();
    let t0 = Transform { x: 0, y: 0, rotation: 0 };
    let t1 = Transform { x: 5, y: 6, rotation: 0 };
    assert!(!s.apply_map_object_update(MapObjectUpdate { transform: t1, id: 4 }));
    s.track_map_object(4, t0);
    assert!(s.apply_map_object_update(MapObjectUpdate { transform: t1, id: 4 }));
}

#[test]
fn removed_pawn_is_gone() {
    let mut s = ShadowStore::new();
    s.apply_pawn_update(update(1, 10, 5));
    assert!(s.remove_pawn(1));
    assert_eq!(s.pawn(1), None);
    assert!(!s.remove_pawn(1));
}
