use tarpc::client::stub::load_balance::{AtomicCycle, ConsistentHash};

#[test]
fn test_cycle() {
    let cycle = AtomicCycle::new(vec![1, 2, 3]);
    assert_eq!(cycle.next(), &1);
    assert_eq!(cycle.next(), &2);
    assert_eq!(cycle.next(), &3);
    assert_eq!(cycle.next(), &1);
}

#[test]
fn cycle_of_one_element_repeats_it() {
    let cycle = AtomicCycle::new(vec!["only"]);
    for _ in 0..5 {
        assert_eq!(cycle.next(), &"only");
    }
}

#[test]
fn consistent_hash_maps_hash_modulo_stub_count() {
    // Each stub is named by a hash that maps to its index: 3 % 3 = 0, 1 % 3 = 1, 2 % 3 = 2.
    let stub = ConsistentHash::with_hasher(vec![3u64, 1, 2], ()).unwrap();
    assert_eq!(stub.index_for_hash(3), 0);
    assert_eq!(stub.index_for_hash(1), 1);
    assert_eq!(stub.index_for_hash(2), 2);
    assert_eq!(stub.index_for_hash(u64::MAX), (u64::MAX % 3) as usize);
    for _ in 0..2 {
        assert_eq!(stub.stub_for_hash(1), &1);
        assert_eq!(stub.stub_for_hash(2), &2);
        assert_eq!(stub.stub_for_hash(3), &3);
    }
}

#[test]
fn consistent_hash_keeps_its_hasher() {
    let stub = ConsistentHash::with_hasher(vec!['a'], 42u8).unwrap();
    assert_eq!(stub.hasher(), &42u8);
    assert_eq!(stub.stub_for_hash(12345), &'a');
}

#[test]
fn cycle_positions_wrap_around() {
    let cycle = AtomicCycle::new(vec!['a', 'b', 'c']);
    assert_eq!(cycle.element_at(0), &'a');
    assert_eq!(cycle.element_at(4), &'b');
    assert_eq!(cycle.element_at(usize::MAX), &['a', 'b', 'c'][usize::MAX % 3]);
}

#[test]
fn consistent_hash_new_uses_every_stub() {
    let stub = ConsistentHash::new(vec!["x", "y"]).unwrap();
    assert_eq!(stub.stub_for_hash(0), &"x");
    assert_eq!(stub.stub_for_hash(1), &"y");
    assert_eq!(stub.stub_for_hash(2), &"x");
}
