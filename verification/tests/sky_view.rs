use instant_astronomer_core::sky_view::{is_tap, tap_outcome, TapOutcome, TAP_MAX_DURATION_MS};

#[test]
fn short_still_press_is_a_tap() {
    assert!(is_tap(false, 0));
    assert!(is_tap(false, TAP_MAX_DURATION_MS - 1));
    assert!(!is_tap(false, TAP_MAX_DURATION_MS));
    assert!(!is_tap(true, 10));
}

#[test]
fn tap_on_a_body_selects_it_when_the_compass_is_off() {
    assert_eq!(tap_outcome(false, Some("Vega"), false), TapOutcome::Select("Vega"));
    assert_eq!(tap_outcome(false, Some("Vega"), true), TapOutcome::Select("Vega"));
}

#[test]
fn compass_suppresses_identification() {
    assert_eq!(tap_outcome(true, Some("Vega"), true), TapOutcome::DismissCard);
    assert_eq!(tap_outcome(true, Some("Vega"), false), TapOutcome::ToggleControls);
}

#[test]
fn empty_sky_dismisses_the_card_before_toggling_controls() {
    assert_eq!(tap_outcome::<&str>(false, None, true), TapOutcome::DismissCard);
    assert_eq!(tap_outcome::<&str>(false, None, false), TapOutcome::ToggleControls);
}
