use qasm3_front::backend::{Chain, QubitManager};

#[test]
fn new_manager_maps_each_qubit_to_itself() {
    let m = QubitManager::new(4);
    assert_eq!(m.user_id_to_sim_id, vec![0, 1, 2, 3]);
    assert_eq!(m.is_free, vec![true; 4]);
    assert_eq!(m.qubit_count(), 0);
    assert_eq!(m.map(3), 3);
}

#[test]
fn allocate_hands_out_the_lowest_free_identifier() {
    let mut m = QubitManager::new(3);
    assert_eq!(m.allocate(), Some(0));
    assert_eq!(m.allocate(), Some(1));
    assert_eq!(m.qubit_count(), 2);
    m.release(0);
    assert_eq!(m.qubit_count(), 1);
    assert_eq!(m.allocate(), Some(0));
    assert_eq!(m.allocate(), Some(2));
    assert_eq!(m.allocate(), None);
    assert_eq!(m.qubit_count(), 3);
}

#[test]
fn allocate_of_nothing() {
    let mut m = QubitManager::new(0);
    assert_eq!(m.allocate(), None);
    assert_eq!(m.qubit_count(), 0);
}

#[test]
fn swap_exchanges_the_mapping() {
    let mut m = QubitManager::new(3);
    m.allocate();
    m.allocate();
    m.allocate();
    m.swap(0, 2);
    assert_eq!(m.map(0), 2);
    assert_eq!(m.map(1), 1);
    assert_eq!(m.map(2), 0);
    m.swap(1, 1);
    assert_eq!(m.map(1), 1);
    assert_eq!(m.qubit_count(), 3);
}

#[test]
fn chain_keeps_both_backends() {
    let chain = Chain::new(1u8, "second");
    assert_eq!(chain.main, 1);
    assert_eq!(chain.chained, "second");
}

#[test]
fn swaps_keep_the_mapping_one_to_one() {
    let mut m = QubitManager::new(4);
    for _ in 0..4 {
        m.allocate();
    }
    m.swap(0, 3);
    m.swap(1, 3);
    m.swap(2, 2);
    assert_eq!(m.user_id_to_sim_id, vec![3, 0, 2, 1]);
    let mut seen = vec![false; 4];
    for id in 0..4 {
        let sim = m.map(id);
        assert!(sim < 4);
        assert!(!seen[sim]);
        seen[sim] = true;
    }
}
