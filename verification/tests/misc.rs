use geode::no_hash::NoOpHasher;
use geode::polyfill::VecExt;

#[test]
fn no_op_hasher_returns_the_key() {
    let mut hasher = NoOpHasher::new();
    assert_eq!(hasher.finish(), 0);
    hasher.write_u64(0xdead_beef_0000_0001);
    assert_eq!(hasher.finish(), 0xdead_beef_0000_0001);

    let mut hasher = NoOpHasher::default();
    hasher.write_u32(0x1234_5678);
    assert_eq!(hasher.finish(), 0x1234_5678_1234_5678);
    let mut hasher = NoOpHasher::new();
    hasher.write_u32(u32::MAX);
    assert_eq!(hasher.finish(), u64::MAX);
}

#[test]
fn ensure_length_with_grows_short_vectors_only() {
    let mut values = vec![1, 2];
    values.ensure_length_with(4, || 0);
    assert_eq!(values, vec![1, 2, 0, 0]);
    values.ensure_length_with(3, || 9);
    assert_eq!(values, vec![1, 2, 0, 0]);
    values.ensure_length_with(0, || 9);
    assert_eq!(values, vec![1, 2, 0, 0]);
}

#[test]
fn ensure_slot_with_returns_the_slot() {
    let mut values: Vec<u32> = Vec::new();
    *values.ensure_slot_with(2, || 7) += 1;
    assert_eq!(values, vec![7, 7, 8]);
    *values.ensure_slot_with(0, || 1) = 0;
    assert_eq!(values, vec![0, 7, 8]);
}
