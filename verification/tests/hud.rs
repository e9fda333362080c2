use instant_astronomer_core::hud::{split_whitespace_words, wrap_toast_message};

#[test]
fn wrap_short_message_one_line() {
    let lines = wrap_toast_message("Locating", 40);
    assert_eq!(lines, vec!["Locating".to_string()]);
}

#[test]
fn wrap_long_message_breaks_at_spaces() {
    // 30 chars/line: "Compass on — orientation" = 24, fits.
    // Adding " sensors" = 32, breaks.
    let lines = wrap_toast_message("Compass on — orientation sensors driving view", 30);
    assert!(lines.len() >= 2, "expected wrap, got {lines:?}");
    for line in &lines {
        assert!(
            line.chars().count() <= 30 || !line.contains(' '),
            "line {line:?} exceeds width without an unbreakable word"
        );
    }
}

#[test]
fn wrap_preserves_full_message_when_joined() {
    let msg = "Pick a city to use its coordinates";
    let lines = wrap_toast_message(msg, 18);
    assert_eq!(lines.join(" "), msg);
}

#[test]
fn wrap_empty_message_yields_blank_line() {
    let lines = wrap_toast_message("", 40);
    assert_eq!(lines, vec![String::new()]);
}

#[test]
fn wrap_exact_lines() {
    let lines = wrap_toast_message("Compass on — orientation sensors driving view", 30);
    assert_eq!(lines, vec!["Compass on — orientation", "sensors driving view"]);
    let lines = wrap_toast_message("Pick a city to use its coordinates", 18);
    assert_eq!(lines, vec!["Pick a city to use", "its coordinates"]);
}

#[test]
fn wrap_overlong_word_stands_alone() {
    let lines = wrap_toast_message("a extraordinarily b", 5);
    assert_eq!(lines, vec!["a", "extraordinarily", "b"]);
    let lines = wrap_toast_message("word", 0);
    assert_eq!(lines, vec!["word"]);
}

#[test]
fn wrap_collapses_runs_of_white_space() {
    let lines = wrap_toast_message("  one \t two\n\nthree  ", 40);
    assert_eq!(lines, vec!["one two three"]);
    let lines = wrap_toast_message(" \u{3000}\u{a0} ", 40);
    assert_eq!(lines, vec![String::new()]);
}

#[test]
fn split_whitespace_words_matches_std() {
    for s in ["", "  ", "a b", " lead", "trail ", "x\u{2003}y\u{85}z", "Compass on — orientation"] {
        let expected: Vec<String> = s.split_whitespace().map(|w| w.to_string()).collect();
        assert_eq!(split_whitespace_words(s), expected, "for {s:?}");
    }
}
