use instant_astronomer_core::search::{
    match_rank, rank_lowercased, search_objects, search_objects_lowercased, solar_category,
    NamedObject, ObjectCatalog,
    SearchKind, SearchTarget, MAX_RESULTS,
};
use instant_astronomer_core::stars::constellation_lines;

/// Positions in these tests are (RA, Dec) in ten-thousandths of a radian.
type Pos = (i32, i32);

const BRIGHT: &[(u32, &str, Pos)] = &[
    (1, "Polaris", (6624, 15580)),
    (2, "Sirius", (17676, -2917)),
    (3, "Canopus", (16753, -9197)),
    (4, "Arcturus", (37335, 3348)),
    (5, "Vega", (48735, 6769)),
    (6, "Capella", (13818, 8028)),
    (7, "Rigel", (13724, -1431)),
    (8, "Procyon", (20041, 912)),
    (9, "Betelgeuse", (15497, 1293)),
    (10, "Altair", (51852, 1557)),
    (11, "Aldebaran", (11873, 2882)),
    (12, "Spica", (34735, -1942)),
    (13, "Antares", (42981, -4593)),
    (14, "Pollux", (20526, 4891)),
    (15, "Deneb", (53902, 7891)),
    (16, "Fomalhaut", (59922, -5173)),
    (17, "Bellatrix", (13934, 1084)),
    (18, "Alnilam", (14111, -205)),
    (19, "Saiph", (14856, -1691)),
    (20, "Dubhe", (29056, 10772)),
    (21, "Merak", (28711, 9829)),
    (22, "Phecda", (30319, 9362)),
    (23, "Megrez", (31611, 9948)),
    (24, "Alioth", (33769, 9761)),
    (25, "Mizar", (35119, 9572)),
    (26, "Alkaid", (36111, 8572)),
];

fn catalog() -> ObjectCatalog<Pos> {
    let spacecraft = vec![
        NamedObject { name: "Voyager 1".to_string(), coords: (45238, 2163) },
        NamedObject { name: "Voyager 2".to_string(), coords: (53070, -10407) },
    ];
    let stars = BRIGHT
        .iter()
        .map(|(_, n, p)| NamedObject { name: n.to_string(), coords: *p })
        .collect();
    // A constellation gets a centroid when one of its member stars is in
    // the catalog; here the centroid is just the first member found.
    let lines = constellation_lines();
    let constellation_lines = lines
        .iter()
        .map(|l| {
            let centroid = lines
                .iter()
                .filter(|m| m.constellation_name == l.constellation_name)
                .flat_map(|m| [m.from_id, m.to_id])
                .find_map(|id| BRIGHT.iter().find(|s| s.0 == id).map(|s| s.2));
            NamedObject { name: l.constellation_name.to_string(), coords: centroid }
        })
        .collect();
    ObjectCatalog { spacecraft, stars, constellation_lines }
}

fn names(results: &[SearchTarget<Pos>]) -> Vec<&str> {
    results.iter().map(|t| t.name.as_str()).collect()
}

#[test]
fn finds_a_star_by_prefix() {
    let results = search_objects("sir", &catalog());
    assert!(
        results.iter().any(|t| t.name == "Sirius" && t.category == "Star"),
        "expected Sirius in {:?}",
        names(&results)
    );
}

#[test]
fn finds_a_planet_by_prefix() {
    let results = search_objects("ven", &catalog());
    let venus = results.iter().find(|t| t.name == "Venus");
    let venus = venus.expect("Venus should be found");
    assert_eq!(venus.category, "Planet");
    assert!(matches!(venus.kind, SearchKind::SolarSystem));
}

#[test]
fn finds_voyager_spacecraft_by_prefix() {
    let results = search_objects("voyager", &catalog());
    for expected in ["Voyager 1", "Voyager 2"] {
        let craft = results
            .iter()
            .find(|t| t.name == expected)
            .unwrap_or_else(|| panic!("expected {expected} in {:?}", names(&results)));
        assert_eq!(craft.category, "Spacecraft");
        assert!(matches!(craft.kind, SearchKind::Fixed(_)));
    }
}

#[test]
fn finds_a_constellation_by_prefix() {
    let results = search_objects("ori", &catalog());
    let orion = results
        .iter()
        .find(|t| t.name == "Orion")
        .expect("Orion should be found");
    assert_eq!(orion.category, "Constellation");
    assert!(matches!(orion.kind, SearchKind::Fixed(_)));
}

#[test]
fn empty_query_returns_nothing() {
    assert!(search_objects("", &catalog()).is_empty());
    assert!(search_objects("   ", &catalog()).is_empty());
}

#[test]
fn prefix_matches_rank_before_substring_matches() {
    let results = search_objects("an", &catalog());
    let mut seen_substring_only = false;
    for t in &results {
        if t.name.to_lowercase().starts_with("an") {
            assert!(
                !seen_substring_only,
                "prefix match {} appeared after a substring-only match",
                t.name
            );
        } else {
            seen_substring_only = true;
        }
    }
}

#[test]
fn results_are_capped() {
    let results = search_objects("a", &catalog());
    assert!(results.len() <= MAX_RESULTS);
    assert_eq!(results.len(), MAX_RESULTS);
}

#[test]
fn search_orders_prefix_hits_then_substring_hits_in_scan_order() {
    let results = search_objects("  AL ", &catalog());
    // Prefix hits in scan order (stars: Altair, Aldebaran, Alnilam, Alioth,
    // Alkaid), then the substring hit Fomalhaut.
    assert_eq!(
        names(&results),
        vec!["Altair", "Aldebaran", "Alnilam", "Alioth", "Alkaid", "Fomalhaut"]
    );
    // "e" only occurs inside names: substring hits in scan order (bodies,
    // spacecraft, stars), cut at the cap.
    let results = search_objects("e", &catalog());
    assert_eq!(
        names(&results),
        vec!["Mercury", "Venus", "Jupiter", "Voyager 1", "Voyager 2", "Vega", "Capella", "Rigel"]
    );
    // "a" overflows the cap with prefix hits alone.
    let results = search_objects("a", &catalog());
    assert_eq!(
        names(&results),
        vec!["Arcturus", "Altair", "Aldebaran", "Antares", "Alnilam", "Alioth", "Alkaid", "Aquila"]
    );
}

#[test]
fn constellations_are_listed_once_and_only_with_a_centroid() {
    let results = search_objects("ursa", &catalog());
    assert_eq!(names(&results), vec!["Ursa Major", "Ursa Minor"]);
    // Andromeda has no member star in this catalog, so no centroid.
    let results = search_objects("andromeda", &catalog());
    assert!(results.is_empty());
}

#[test]
fn solar_system_bodies_get_their_category() {
    let results = search_objects("s", &catalog());
    let sun = results.iter().find(|t| t.name == "Sun").expect("Sun");
    assert_eq!(sun.category, "Sun");
    let results = search_objects("moon", &catalog());
    assert_eq!(names(&results), vec!["Moon"]);
    assert_eq!(results[0].category, "Moon");
    assert_eq!(solar_category("Sun"), "Sun");
    assert_eq!(solar_category("Moon"), "Moon");
    assert_eq!(solar_category("Mars"), "Planet");
}

#[test]
fn fixed_targets_carry_their_catalog_position() {
    let results = search_objects("sirius", &catalog());
    assert_eq!(results.len(), 1);
    match results[0].kind {
        SearchKind::Fixed(p) => assert_eq!(p, (17676, -2917)),
        SearchKind::SolarSystem => panic!("Sirius is fixed"),
    }
}

#[test]
fn match_rank_prefix_substring_none() {
    assert_eq!(match_rank("Sirius", "sir"), Some(0));
    assert_eq!(match_rank("Betelgeuse", "geuse"), Some(1));
    assert_eq!(match_rank("Vega", "x"), None);
    assert_eq!(match_rank("Vega", ""), Some(0));
    assert_eq!(rank_lowercased("sirius", "ius"), Some(1));
    assert_eq!(rank_lowercased("Sirius", "sir"), None);
}

#[test]
fn cleaned_object_query_is_matched_as_given() {
    let cat = catalog();
    let r = search_objects_lowercased("sir", &cat);
    assert_eq!(names(&r), vec!["Sirius"]);
    assert_eq!(r[0].category, "Star");
    assert!(search_objects_lowercased("SIR", &cat).is_empty());
    assert!(search_objects_lowercased("", &cat).is_empty());
}
