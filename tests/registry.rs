use punchafriend::registry::SessionRegistry;

#[test]
fn registered_session_is_found() {
    let mut r = SessionRegistry::new();
    assert_eq!(r.register((1, 5001), 77, 0), None);
    assert_eq!(r.lookup_by_endpoint((1, 5001)), Some((77, 0)));
    assert!(r.contains((1, 5001)));
    assert_eq!(r.len(), 1);
}

#[test]
fn unknown_endpoint_is_not_authenticated() {
    let mut r = SessionRegistry::new();
    r.register((1, 5001), 77, 0);
    assert!(r.authenticate((1, 5001), 77));
    assert!(!r.authenticate((1, 5002), 77));
    assert!(!r.authenticate((2, 5001), 77));
    assert!(!r.authenticate((1, 5001), 78));
}

#[test]
fn stale_entry_is_replaced_and_returned() {
    let mut r = SessionRegistry::new();
    r.register((1, 5001), 77, 0);
    assert_eq!(r.register((1, 5001), 88, 1), Some((77, 0)));
    assert_eq!(r.lookup_by_endpoint((1, 5001)), Some((88, 1)));
    assert_eq!(r.len(), 1);
}

#[test]
fn removed_session_is_gone() {
    let mut r = SessionRegistry::new();
    r.register((1, 5001), 77, 0);
    r.register((2, 5001), 78, 1);
    assert_eq!(r.remove((1, 5001)), Some((77, 0)));
    assert_eq!(r.remove((1, 5001)), None);
    assert_eq!(r.endpoints(), vec![(2, 5001)]);
}

#[test]
fn endpoints_lists_each_client_once() {
    let mut r = SessionRegistry::new();
    for i in 0..5u128 {
        r.register((i, 6000), i, i as u64);
    }
    let mut e = r.endpoints();
    e.sort();
    assert_eq!(e, (0..5u128).map(|i| (i, 6000)).collect::<Vec<_>>());
}
