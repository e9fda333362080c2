use instant_astronomer_core::catalog::{parse_catalog_rows, CatalogRow};

fn fields(r: &CatalogRow) -> (u32, &str, &str, &str, &str, &str) {
    (r.id, &r.name, &r.ra, &r.dec, &r.magnitude, &r.color_index)
}

#[test]
fn catalog_reads_well_formed_lines_in_order() {
    let text = "100,Mirach,0.3043,0.6217,2.05,1.58\n101,Hamal,0.5548,0.4095,2.00,1.15\n";
    let rows = parse_catalog_rows(text);
    assert_eq!(rows.len(), 2);
    assert_eq!(fields(&rows[0]), (100, "Mirach", "0.3043", "0.6217", "2.05", "1.58"));
    assert_eq!(fields(&rows[1]), (101, "Hamal", "0.5548", "0.4095", "2.00", "1.15"));
}

#[test]
fn catalog_skips_blank_and_comment_lines() {
    let text = "# id,name,ra,dec,mag,bv\n\n   \n  # indented comment\n102,Algol,0.8210,0.7148,2.09,-0.05";
    let rows = parse_catalog_rows(text);
    assert_eq!(rows.len(), 1);
    assert_eq!(fields(&rows[0]), (102, "Algol", "0.8210", "0.7148", "2.09", "-0.05"));
}

#[test]
fn catalog_trims_fields_and_accepts_crlf() {
    let text = "  103 , Mirfak ,0.8928, 0.8702 ,1.79 , 0.48 \r\n";
    let rows = parse_catalog_rows(text);
    assert_eq!(rows.len(), 1);
    assert_eq!(fields(&rows[0]), (103, "Mirfak", "0.8928", "0.8702", "1.79", "0.48"));
}

#[test]
fn catalog_skips_lines_with_too_few_fields() {
    let text = "104,Menkar,0.7956,0.0726,2.54\n105,Nath,1.4237,0.4993,1.65,-0.13\n";
    let rows = parse_catalog_rows(text);
    assert_eq!(rows.len(), 1);
    assert_eq!(rows[0].id, 105);
}

#[test]
fn catalog_skips_lines_with_a_bad_id() {
    let text = "x1,Bad,0,0,0,0\n-3,Neg,0,0,0,0\n4294967296,Big,0,0,0,0\n,Empty,0,0,0,0\n4294967295,Max,0,0,0,0\n+7,Plus,0,0,0,0\n";
    let rows = parse_catalog_rows(text);
    let ids: Vec<u32> = rows.iter().map(|r| r.id).collect();
    assert_eq!(ids, vec![4294967295, 7]);
    assert_eq!(rows[0].name, "Max");
    assert_eq!(rows[1].name, "Plus");
}

#[test]
fn catalog_ignores_columns_past_the_sixth_and_keeps_empty_fields() {
    let text = "106,,1.0,2.0,3.0,4.0,extra,more\n";
    let rows = parse_catalog_rows(text);
    assert_eq!(rows.len(), 1);
    assert_eq!(fields(&rows[0]), (106, "", "1.0", "2.0", "3.0", "4.0"));
}

#[test]
fn catalog_of_empty_text_is_empty() {
    assert!(parse_catalog_rows("").is_empty());
    assert!(parse_catalog_rows("\n\n# only comments\n").is_empty());
}
