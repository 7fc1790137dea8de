use std::collections::HashSet;
use toolkit::uuidx::new_v4;

#[test]
fn test_new_v4() {
    let uuid = new_v4();
    assert_eq!(uuid.get_version_num(), 4);
}

#[test]
fn new_v4_values_are_distinct_and_version_four() {
    let mut seen = HashSet::new();
    for _ in 0..10_000 {
        let id = new_v4();
        assert_eq!(id.get_version_num(), 4);
        assert!(seen.insert(id));
    }
    assert_eq!(seen.len(), 10_000);
}

#[test]
fn new_v4_sets_rfc_variant() {
    for _ in 0..100 {
        assert_eq!(new_v4().get_variant(), uuid::Variant::RFC4122);
    }
}
