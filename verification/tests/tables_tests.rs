use zip_codes_plus::ingest::BuildError;
use zip_codes_plus::ingest::RawRow;
use zip_codes_plus::record::Type;
use zip_codes_plus::tables::build_tables;
use zip_codes_plus::tables::Tables;

fn raw(zip: &str, city: &str, state: &str) -> RawRow {
    RawRow {
        zip_code: String::from(zip),
        zip_code_type: String::from("STANDARD"),
        city: String::from(city),
        state: String::from(state),
        latitude: String::new(),
        longitude: String::new(),
        location: String::new(),
        is_decommissioned: String::from("false"),
        tax_returns_filed: String::new(),
        estimated_population: String::new(),
        total_wages: String::new(),
    }
}

fn sample_tables() -> Tables {
    let rows = vec![
        raw("10465", "BRONX", "NY"),
        raw("53186", "WAUKESHA", "WI"),
        raw("07675", "WESTWOOD", "NJ"),
        raw("07983", "WHIPPANY", "NJ"),
        raw("07999", "WHIPPANY", "NJ"),
        raw("07981", "WHIPPANY", "NJ"),
    ];
    build_tables(&rows).unwrap()
}

#[test]
fn lookup_by_zip_finds_new_york() {
    let t = sample_tables();
    let rec = t.lookup_by_zip("10465").unwrap();
    assert_eq!(rec.state, "NY");
}

#[test]
fn lookup_by_zip_finds_waukesha() {
    let t = sample_tables();
    let rec = t.lookup_by_zip("53186").unwrap();
    assert_eq!(rec.city, "Waukesha");
}

#[test]
fn by_city_finds_westwood() {
    let t = sample_tables();
    let recs = t.by_city("Westwood, NJ").unwrap();
    let zips: Vec<&str> = recs.iter().map(|r| r.zip_code.as_str()).collect();
    assert_eq!(zips, vec!["07675"]);
}

#[test]
fn by_city_keeps_first_seen_order() {
    let t = sample_tables();
    let recs = t.by_city("Whippany, NJ").unwrap();
    let zips: Vec<&str> = recs.iter().map(|r| r.zip_code.as_str()).collect();
    assert_eq!(zips, vec!["07983", "07999", "07981"]);
}

#[test]
fn by_city_misses_with_an_absent_result() {
    let t = sample_tables();
    assert!(t.by_city("Nowhere, LA").is_none());
}

#[test]
fn by_city_wants_the_exact_key() {
    let t = sample_tables();
    assert!(t.by_city("WESTWOOD, NJ").is_none());
    assert!(t.by_city("Westwood NJ").is_none());
    assert!(t.by_city("Westwood, nj").is_none());
}

#[test]
fn lookup_by_zip_wants_the_exact_string() {
    let t = sample_tables();
    assert!(t.lookup_by_zip("7675").is_none());
    assert!(t.lookup_by_zip(" 07675").is_none());
}

#[test]
fn first_row_wins_over_later_duplicates() {
    let mut dup = raw("07675", "ELSEWHERE", "NJ");
    dup.zip_code_type = String::from("PO BOX");
    dup.estimated_population = String::from("1234");
    let rows = vec![
        raw("07675", "WESTWOOD", "NJ"),
        dup,
        raw("07676", "ELSEWHERE", "NJ"),
    ];
    let t = build_tables(&rows).unwrap();
    // the duplicate's field values are invisible in the primary table
    let rec = t.lookup_by_zip("07675").unwrap();
    assert_eq!(rec.city, "Westwood");
    assert_eq!(rec.zip_code_type, Type::Standard);
    assert_eq!(rec.estimated_population, None);
    // and its reverse-index contribution is dropped in full
    let elsewhere = t.by_city("Elsewhere, NJ").unwrap();
    let zips: Vec<&str> = elsewhere.iter().map(|r| r.zip_code.as_str()).collect();
    assert_eq!(zips, vec!["07676"]);
    let westwood = t.by_city("Westwood, NJ").unwrap();
    assert_eq!(westwood.len(), 1);
}

#[test]
fn every_indexed_zip_resolves_to_a_matching_record() {
    let t = sample_tables();
    for key in ["Bronx, NY", "Waukesha, WI", "Westwood, NJ", "Whippany, NJ"] {
        let recs = t.by_city(key).unwrap();
        assert!(!recs.is_empty());
        for rec in recs {
            let again = t.lookup_by_zip(&rec.zip_code).unwrap();
            assert_eq!(format!("{}, {}", again.city, again.state), key);
        }
    }
}

#[test]
fn map_accessor_reaches_the_primary_table() {
    let t = sample_tables();
    assert_eq!(t.map().len(), 6);
    assert!(t.map().get("53186").is_some());
    assert!(t.map().get("00000").is_none());
}

#[test]
fn zip_codes_walk_the_table_in_first_seen_order() {
    let t = sample_tables();
    let listed: Vec<&str> = t.zip_codes().iter().map(|z| z.as_str()).collect();
    assert_eq!(
        listed,
        vec!["10465", "53186", "07675", "07983", "07999", "07981"]
    );
    for zip in t.zip_codes() {
        assert!(t.lookup_by_zip(zip).is_some());
    }
}

#[test]
fn duplicates_never_lengthen_the_listing() {
    let rows = vec![
        raw("10465", "BRONX", "NY"),
        raw("10465", "BRONX", "NY"),
        raw("10465", "ELSEWHERE", "NY"),
    ];
    let t = build_tables(&rows).unwrap();
    let listed: Vec<&str> = t.zip_codes().iter().map(|z| z.as_str()).collect();
    assert_eq!(listed, vec!["10465"]);
}

#[test]
fn a_faulty_row_aborts_the_build() {
    let mut bad = raw("07675", "WESTWOOD", "NJ");
    bad.zip_code_type = String::from("EXPRESS");
    let rows = vec![raw("10465", "BRONX", "NY"), bad];
    assert!(matches!(
        build_tables(&rows),
        Err(BuildError::UnrecognizedZipType)
    ));
}

#[test]
fn a_faulty_duplicate_still_aborts_the_build() {
    // the duplicate is discarded, but it is parsed first: a fault in it is fatal
    let mut bad = raw("10465", "BRONX", "NY");
    bad.tax_returns_filed = String::from("some");
    let rows = vec![raw("10465", "BRONX", "NY"), bad];
    assert!(matches!(build_tables(&rows), Err(BuildError::InvalidNumber)));
}

#[test]
fn an_empty_input_builds_empty_tables() {
    let rows: Vec<RawRow> = Vec::new();
    let t = build_tables(&rows).unwrap();
    assert_eq!(t.map().len(), 0);
    assert!(t.by_city("Westwood, NJ").is_none());
}
