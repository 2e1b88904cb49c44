use moonrabbit::parachains::{
    ensure_parachain, make_persisted_validation_data, take_active_subset, BadOrigin, Origin,
    ParaId, ValidatorIndex,
};

#[test]
fn ensure_parachain_accepts_parachain_origins_only() {
    let o: Result<Origin, &str> = Ok(Origin::Parachain(ParaId(5)));
    assert_eq!(ensure_parachain(o), Ok(ParaId(5)));
    let other: Result<Origin, &str> = Err("root");
    assert_eq!(ensure_parachain(other), Err(BadOrigin));
    let from_id: Origin = 42u32.into();
    assert_eq!(from_id, Origin::Parachain(ParaId(42)));
    assert_eq!(ensure_parachain::<()>(Ok(from_id)), Ok(ParaId(42)));
}

#[test]
fn take_active_subset_follows_the_active_indices() {
    let set = vec!["a", "b", "c", "d"];
    let active = [ValidatorIndex(2), ValidatorIndex(0), ValidatorIndex(3)];
    assert_eq!(take_active_subset(&active, &set), vec!["c", "a", "d"]);
}

#[test]
fn take_active_subset_skips_indices_past_the_set() {
    let set = vec![10u32, 20];
    let active = [ValidatorIndex(1), ValidatorIndex(7), ValidatorIndex(0)];
    assert_eq!(take_active_subset(&active, &set), vec![20, 10]);
    assert!(take_active_subset::<u32>(&[], &set).is_empty());
    assert!(take_active_subset::<u32>(&active, &[]).is_empty());
}

#[test]
fn persisted_validation_data_needs_a_head() {
    let d = make_persisted_validation_data(ParaId(1), 9, [3; 32], Some(vec![1, 2]), 5_000_000).unwrap();
    assert_eq!(d.parent_head, vec![1, 2]);
    assert_eq!(d.relay_parent_number, 9);
    assert_eq!(d.relay_parent_storage_root, [3; 32]);
    assert_eq!(d.max_pov_size, 5_000_000);
    assert!(make_persisted_validation_data(ParaId(1), 9, [3; 32], None, 5_000_000).is_none());
}
