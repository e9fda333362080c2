use instant_astronomer_core::cities::{
    builtin_cities, city_text_matches, fold_w_to_v, search_cities, search_cities_lowercased,
    soundex, soundex_encode, soundex_from_upper,
};

#[test]
fn test_soundex_algorithm() {
    assert_eq!(soundex("Denver"), "D516");
    assert_eq!(soundex("London"), "L535");
    assert_eq!(soundex("Paris"), "P620");
    // Similar sounding words or typos
    assert_eq!(soundex("Denve"), "D510");
}

#[test]
fn test_city_search() {
    // Exact prefix
    let res = search_cities("Denv");
    assert_eq!(res.len(), 1);
    assert_eq!(res[0].name, "Denver");

    // Case insensitive
    let res2 = search_cities("tokyo");
    assert_eq!(res2.len(), 1);
    assert_eq!(res2[0].name, "Tokyo");

    // Phonetic search fallback
    // "Denwer" -> should soundex match "Denver"
    let res_phonetic = search_cities("Denwer");
    assert_eq!(res_phonetic.len(), 1);
    assert_eq!(res_phonetic[0].name, "Denver");
}

#[test]
fn phonetic_fallback_reads_w_as_v() {
    // Plain Soundex keeps its standard codes.
    assert_eq!(soundex("Denwer"), "D560");
    assert_eq!(fold_w_to_v("Denwer"), "Denver");
    assert_eq!(fold_w_to_v("WoW"), "VoV");
    // Plain Soundex matches are kept: "lwndon" (L535) finds London.
    let res = search_cities("lwndon");
    assert_eq!(res.len(), 1);
    assert_eq!(res[0].name, "London");
    // "Dinver" has no textual match but shares Denver's code D516.
    let res = search_cities("Dinver");
    assert_eq!(res.len(), 1);
    assert_eq!(res[0].name, "Denver");
}

#[test]
fn city_text_match_on_lowercased_fields() {
    assert!(city_text_matches("new york", "new york", "united states", "york"));
    assert!(city_text_matches("denver", "colorado", "united states", "denv"));
    assert!(city_text_matches("denver", "colorado", "united states", "colo"));
    assert!(city_text_matches("denver", "colorado", "united states", "united"));
    assert!(!city_text_matches("denver", "colorado", "united states", "rado"));
    assert!(!city_text_matches("denver", "colorado", "united states", "Denv"));
}

#[test]
fn soundex_of_empty_and_non_letters_is_all_zeros() {
    assert_eq!(soundex(""), "0000");
    assert_eq!(soundex("42nd Street"), "0000");
    assert_eq!(soundex(" Denver"), "0000");
}

#[test]
fn soundex_is_case_insensitive() {
    assert_eq!(soundex("denver"), "D516");
    assert_eq!(soundex("DENVER"), "D516");
    assert_eq!(soundex("dEnVeR"), soundex("Denver"));
}

#[test]
fn soundex_joins_adjacent_equal_codes_across_h_and_w() {
    // Classic Soundex cases: "Ashcraft" -> A261 (S and C join across H),
    // "Tymczak" -> T522, "Pfister" -> P236 (P and F share code 1).
    assert_eq!(soundex("Ashcraft"), "A261");
    assert_eq!(soundex("Tymczak"), "T522");
    assert_eq!(soundex("Pfister"), "P236");
    assert_eq!(soundex("Robert"), "R163");
    assert_eq!(soundex("Rupert"), "R163");
}

#[test]
fn soundex_pads_short_codes_with_zeros() {
    assert_eq!(soundex("A"), "A000");
    assert_eq!(soundex("Lee"), "L000");
    assert_eq!(soundex("Tokyo"), "T200");
}

#[test]
fn soundex_code_is_four_characters_with_multibyte_first_letter() {
    assert_eq!(soundex("Élan"), "É450");
    assert_eq!(soundex_encode("ÉLAN"), "É450");
    assert_eq!(soundex("Émile"), "É540");
    assert_eq!(soundex("Émile").chars().count(), 4);
}

#[test]
fn soundex_encode_and_from_upper_agree_with_soundex() {
    assert_eq!(soundex_encode("DENVER"), "D516");
    assert_eq!(soundex_from_upper("DENVER"), "D516");
    assert_eq!(soundex_from_upper(""), "0000");
    assert_eq!(soundex_from_upper("9LIVES"), "0000");
}

#[test]
fn blank_city_query_returns_whole_catalog() {
    let all = builtin_cities();
    assert_eq!(all.len(), 18);
    assert_eq!(search_cities("").len(), 18);
    assert_eq!(search_cities("   ").len(), 18);
}

#[test]
fn city_query_is_trimmed_and_matches_state_and_country() {
    let res = search_cities("  canada ");
    let names: Vec<&str> = res.iter().map(|c| c.name).collect();
    assert_eq!(names, vec!["Toronto", "Vancouver"]);
    let res = search_cities("calif");
    assert_eq!(res.len(), 1);
    assert_eq!(res[0].name, "Los Angeles");
    // Substring of a city name (not a prefix).
    let res = search_cities("york");
    assert_eq!(res.len(), 1);
    assert_eq!(res[0].name, "New York");
    let res = search_cities("janeiro");
    assert_eq!(res.len(), 1);
    assert_eq!(res[0].name, "Rio de Janeiro");
}

#[test]
fn unknown_city_query_returns_nothing() {
    assert!(search_cities("Xqzzy").is_empty());
}

#[test]
fn city_coordinates_keep_catalog_precision() {
    let denver = search_cities("Denver");
    assert_eq!(denver[0].latitude_e4, 397392);
    assert_eq!(denver[0].longitude_e4, -1049903);
    assert_eq!(denver[0].country_code, "US");
}

#[test]
fn cleaned_city_query_is_matched_as_given() {
    let r = search_cities_lowercased("denv");
    assert_eq!(r.len(), 1);
    assert_eq!(r[0].name, "Denver");
    // Already-cleaned queries are not trimmed or lowercased again.
    assert!(search_cities_lowercased(" denv").is_empty());
    assert!(search_cities_lowercased("DENV").is_empty());
    assert_eq!(search_cities_lowercased("").len(), builtin_cities().len());
}
