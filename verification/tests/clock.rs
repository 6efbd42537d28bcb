use rusty_night::clock::held_to_u64;

#[test]
fn a_count_that_fits_is_kept() {
    assert_eq!(held_to_u64(0), 0);
    assert_eq!(held_to_u64(20_000), 20_000);
    assert_eq!(held_to_u64(u64::MAX as u128), u64::MAX);
}

#[test]
fn a_count_beyond_64_bits_is_held_to_the_greatest() {
    assert_eq!(held_to_u64(u64::MAX as u128 + 1), u64::MAX);
    assert_eq!(held_to_u64(u128::MAX), u64::MAX);
}
