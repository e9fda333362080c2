use instant_astronomer_core::search::{SearchKind, SearchTarget};
use instant_astronomer_core::search_panel::SearchState;

fn target(name: &str) -> SearchTarget<(i32, i32)> {
    SearchTarget { name: name.to_string(), kind: SearchKind::Fixed((6624, 15580)), category: "Star" }
}

#[test]
fn new_search_state_is_closed_input_mode() {
    let s: SearchState<(i32, i32)> = SearchState::new();
    assert!(!s.active);
    assert!(!s.has_target);
    assert!(s.no_target);
    assert!(s.query.is_empty());
    assert!(s.target.is_none());
    assert_eq!(s.looking_for_text(), "");
}

#[test]
fn select_locks_the_target_and_clears_the_query() {
    let mut s = SearchState::new();
    s.active = true;
    s.query = "pol".to_string();
    s.select(target("Polaris"));
    assert!(s.active);
    assert!(s.has_target);
    assert!(!s.no_target);
    assert!(s.query.is_empty());
    assert_eq!(s.target.as_ref().map(|t| t.name.as_str()), Some("Polaris"));
    assert_eq!(s.looking_for_text(), "Looking for: Polaris");
}

#[test]
fn clear_target_returns_to_input_mode_and_keeps_overlay_open() {
    let mut s = SearchState::new();
    s.active = true;
    s.select(target("Vega"));
    s.query = "ve".to_string();
    s.clear_target();
    assert!(s.active);
    assert!(!s.has_target);
    assert!(s.no_target);
    assert!(s.query.is_empty());
    assert!(s.target.is_none());
}

#[test]
fn close_resets_everything() {
    let mut s = SearchState::new();
    s.active = true;
    s.select(target("Sirius"));
    s.close();
    assert!(!s.active);
    assert!(!s.has_target);
    assert!(s.no_target);
    assert!(s.query.is_empty());
    assert!(s.target.is_none());
    assert_eq!(s.looking_for_text(), "");
}

#[test]
fn solar_system_target_banner() {
    let mut s: SearchState<(i32, i32)> = SearchState::new();
    s.select(SearchTarget { name: "Mars".to_string(), kind: SearchKind::SolarSystem, category: "Planet" });
    assert_eq!(s.looking_for_text(), "Looking for: Mars");
}
