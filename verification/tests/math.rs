use instant_astronomer_core::math::{format_hhmm, format_rise_set, RiseSet};

#[test]
fn format_hhmm_renders_12_hour_ampm() {
    // 0 offset, pick exact Unix ms at well-known UTC hours.
    // 2025-01-01T00:00:00Z = 1735689600000 ms
    let midnight = 1_735_689_600_000_i64;
    assert_eq!(format_hhmm(midnight, 0), "12:00am");
    assert_eq!(format_hhmm(midnight + 1 * 3_600_000, 0), "1:00am");
    assert_eq!(format_hhmm(midnight + 11 * 3_600_000, 0), "11:00am");
    assert_eq!(format_hhmm(midnight + 12 * 3_600_000, 0), "12:00pm");
    assert_eq!(format_hhmm(midnight + 13 * 3_600_000, 0), "1:00pm");
    assert_eq!(
        format_hhmm(midnight + 23 * 3_600_000 + 23 * 60_000, 0),
        "11:23pm"
    );
    // Offset shifts: PST = -480 min. 03:00 UTC + (-480 min) = 19:00
    // previous day → 7:00pm.
    assert_eq!(format_hhmm(midnight + 3 * 3_600_000, -480), "7:00pm");
}

#[test]
fn format_hhmm_wraps_across_day_boundaries() {
    let midnight = 1_735_689_600_000_i64;
    let t = midnight + 5 * 3_600_000 + 7 * 60_000;
    assert_eq!(format_hhmm(t, 0), "5:07am");
    assert_eq!(format_hhmm(t + 86_400_000, 0), "5:07am");
    assert_eq!(format_hhmm(t, 24 * 60), "5:07am");
    // Half-hour offsets (India, +330 min).
    assert_eq!(format_hhmm(midnight, 330), "5:30am");
}

#[test]
fn format_hhmm_reads_the_wall_clock_before_the_epoch() {
    // One ms before the epoch is 23:59:59.999 on the previous day.
    assert_eq!(format_hhmm(-1, 0), "11:59pm");
    assert_eq!(format_hhmm(-3_600_000, 0), "11:00pm");
    assert_eq!(format_hhmm(-60_000, 0), "11:59pm");
    // The epoch seen from UTC-3:30 is 1969-12-31 20:30.
    assert_eq!(format_hhmm(0, -210), "8:30pm");
    // A day earlier reads the same.
    let t = -5 * 3_600_000 - 7 * 60_000;
    assert_eq!(format_hhmm(t, 0), "6:53pm");
    assert_eq!(format_hhmm(t - 86_400_000, 0), "6:53pm");
}

#[test]
fn format_hhmm_at_i64_extremes() {
    assert_eq!(format_hhmm(i64::MAX, 0), format_hhmm(i64::MAX - 1, 0));
    let s = format_hhmm(i64::MIN, 0);
    assert!(s.ends_with("am") || s.ends_with("pm"));
}

#[test]
fn format_rise_set_variants() {
    assert_eq!(format_rise_set(RiseSet::AlwaysUp, 0), "Always up");
    assert_eq!(format_rise_set(RiseSet::NeverRises, -300), "Below horizon today");
    let midnight = 1_735_689_600_000_i64;
    let rs = RiseSet::Times {
        rise_ms: midnight + 18 * 3_600_000 + 42 * 60_000,
        set_ms: midnight + 30 * 3_600_000 + 13 * 60_000,
    };
    assert_eq!(format_rise_set(rs, 0), "Rises 6:42pm · Sets 6:13am");
    assert_eq!(format_rise_set(rs, 60), "Rises 7:42pm · Sets 7:13am");
}

#[test]
fn rise_set_equality_is_by_value() {
    let a = RiseSet::Times { rise_ms: 1, set_ms: 2 };
    assert_eq!(a, RiseSet::Times { rise_ms: 1, set_ms: 2 });
    assert_ne!(a, RiseSet::AlwaysUp);
    assert_ne!(RiseSet::AlwaysUp, RiseSet::NeverRises);
}
