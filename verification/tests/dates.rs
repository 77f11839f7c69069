use mailclient::dates::{civil, full_date, long_date, now, short_date};

#[test]
fn a_date_without_a_value_is_a_dash_and_not_the_epoch() {
    assert_eq!(full_date(0), "—");
    assert_eq!(full_date(-1), "—");
    assert_eq!(full_date(1_789_041_600), "10 septembre 2026 à 12:00");
}

#[test]
fn civil_dates_match_known_instants() {
    assert_eq!(civil(0), (1970, 1, 1, 0, 0));
    assert_eq!(civil(1_788_345_519), (2026, 9, 2, 10, 38));
    assert_eq!(civil(1_788_431_919), (2026, 9, 3, 10, 38));
    assert_eq!(civil(-86_400), (1969, 12, 31, 0, 0));
}

#[test]
fn a_missing_date_is_a_dash() {
    assert_eq!(short_date(0, 2026), "—");
    assert_eq!(long_date(0), "date inconnue");
}

#[test]
fn leap_days_and_the_turn_of_a_century_are_dates() {
    assert_eq!(civil(951_782_400), (2000, 2, 29, 0, 0));
    assert_eq!(civil(951_868_800), (2000, 3, 1, 0, 0));
    assert_eq!(civil(4_107_542_399), (2100, 2, 28, 23, 59));
    assert_eq!(civil(4_107_542_400), (2100, 3, 1, 0, 0));
}

#[test]
fn the_ends_of_the_range_have_a_date() {
    let (first, ..) = civil(i64::MIN);
    let (last, ..) = civil(i64::MAX);
    assert_eq!(first, -292_277_022_657);
    assert_eq!(last, 292_277_026_596);
}

#[test]
fn a_short_date_leaves_out_the_current_year() {
    assert_eq!(short_date(1_789_041_600, 2026), "10/09");
    assert_eq!(short_date(1_789_041_600, 2027), "10/09/26");
    assert_eq!(long_date(1_789_041_600), "10/09/2026 12:00");
}

#[test]
fn a_clock_before_the_epoch_reads_zero() {
    assert_eq!(now(None), 0);
    assert_eq!(now(Some(12)), 12);
    assert_eq!(now(Some(u64::MAX)), i64::MAX);
}
