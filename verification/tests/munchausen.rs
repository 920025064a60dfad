use mopro_ffi::munchausen::{digit_powers, is_munchausen_number, munchausen_numbers_below};

#[test]
fn digit_power_cache() {
    let cache = digit_powers();
    assert_eq!(cache, [0, 1, 4, 27, 256, 3125, 46656, 823543, 16777216, 387420489]);
}

#[test]
fn known_munchausen_numbers() {
    let cache = digit_powers();
    assert!(is_munchausen_number(0, &cache));
    assert!(is_munchausen_number(1, &cache));
    assert!(is_munchausen_number(3435, &cache));
    assert!(is_munchausen_number(438579088, &cache));
    assert!(!is_munchausen_number(2, &cache));
    assert!(!is_munchausen_number(3436, &cache));
    assert!(!is_munchausen_number(-5, &cache));
}

#[test]
fn search_below_ten_thousand() {
    let cache = digit_powers();
    assert_eq!(munchausen_numbers_below(10000, &cache), vec![0, 1, 3435]);
}
