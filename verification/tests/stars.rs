use instant_astronomer_core::stars::{constellation_lines, solar_system_body_names, zodiac_date_range};

#[test]
fn zodiac_date_ranges_cover_twelve_signs() {
    let signs = [
        "Aries",
        "Taurus",
        "Gemini",
        "Cancer",
        "Leo",
        "Virgo",
        "Libra",
        "Scorpius",
        "Sagittarius",
        "Capricornus",
        "Aquarius",
        "Pisces",
    ];
    for s in signs {
        assert!(
            zodiac_date_range(s).is_some(),
            "expected zodiac date range for {s}"
        );
    }
    // Non-zodiac sanity check.
    assert!(zodiac_date_range("Orion").is_none());
    assert!(zodiac_date_range("Cassiopeia").is_none());
    // Ophiuchus is intentionally not part of the tropical zodiac
    // even though the Sun transits it.
    assert!(zodiac_date_range("Ophiuchus").is_none());
}

#[test]
fn zodiac_date_range_values() {
    assert_eq!(zodiac_date_range("Aries"), Some("Mar 21 – Apr 19"));
    assert_eq!(zodiac_date_range("Capricornus"), Some("Dec 22 – Jan 19"));
    assert_eq!(zodiac_date_range("Pisces"), Some("Feb 19 – Mar 20"));
    // Names are matched exactly.
    assert_eq!(zodiac_date_range("aries"), None);
    assert_eq!(zodiac_date_range(""), None);
}

#[test]
fn constellation_table_has_expected_shape() {
    let lines = constellation_lines();
    assert_eq!(lines.len(), 117);
    assert_eq!(lines[0].from_id, 9);
    assert_eq!(lines[0].to_id, 17);
    assert_eq!(lines[0].constellation_name, "Orion");
    let last = lines[lines.len() - 1];
    assert_eq!((last.from_id, last.to_id, last.constellation_name), (157, 159, "Aquarius"));
    assert!(lines.iter().all(|l| l.from_id != l.to_id));
}

#[test]
fn solar_system_bodies_are_listed_in_ephemeris_order() {
    assert_eq!(
        solar_system_body_names(),
        vec!["Sun", "Moon", "Mercury", "Venus", "Mars", "Jupiter", "Saturn"]
    );
}
