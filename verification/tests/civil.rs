use dexvm::civil::{civil_from_days, components, compose, days_from_civil};

#[test]
fn civil_roundtrip_handles_leap_days_and_pre_epoch_dates() {
    for date in [(1970, 1, 1), (2024, 2, 29), (1969, 12, 31), (2000, 1, 1)] {
        assert_eq!(civil_from_days(days_from_civil(date.0, date.1, date.2)), date);
    }
}

#[test]
fn epoch_day_numbers() {
    assert_eq!(days_from_civil(1970, 1, 1), 0);
    assert_eq!(days_from_civil(1969, 12, 31), -1);
    assert_eq!(days_from_civil(2000, 3, 1), 11017);
    assert_eq!(days_from_civil(1600, 1, 1), -135140);
    assert_eq!(civil_from_days(-719468), (0, 3, 1));
    assert_eq!(civil_from_days(19782), (2024, 2, 29));
}

#[test]
fn components_and_compose_agree() {
    let millis = 1_709_210_096_789i64; // 2024-02-29T12:34:56.789Z
    assert_eq!(components(millis), (2024, 2, 29, 12, 34, 56, 789));
    assert_eq!(compose(2024, 1, 29, 12, 34, 56, 789), millis);
    assert_eq!(components(-1), (1969, 12, 31, 23, 59, 59, 999));
    // Month -1 of 2024 is December 2023.
    assert_eq!(compose(2024, -1, 1, 0, 0, 0, 0), compose(2023, 11, 1, 0, 0, 0, 0));
}
