use zip_codes_plus::ingest::BuildError;
use zip_codes_plus::tables::build_from_lines;
use zip_codes_plus::tabular::find_col;
use zip_codes_plus::tabular::parse_table;
use zip_codes_plus::tabular::split_line;

const HEADER: &str = "\"Zipcode\",\"ZipCodeType\",\"City\",\"State\",\"LocationType\",\"Lat\",\"Long\",\"Location\",\"Decommisioned\",\"TaxReturnsFiled\",\"EstimatedPopulation\",\"TotalWages\"";

fn strings(items: &[&str]) -> Vec<String> {
    items.iter().map(|s| String::from(*s)).collect()
}

#[test]
fn split_line_reads_plain_fields() {
    assert_eq!(split_line("a,b,c").unwrap(), strings(&["a", "b", "c"]));
    assert_eq!(split_line("a").unwrap(), strings(&["a"]));
    assert_eq!(split_line("").unwrap(), strings(&[""]));
    assert_eq!(split_line("a,,c").unwrap(), strings(&["a", "", "c"]));
    assert_eq!(split_line("a,b,").unwrap(), strings(&["a", "b", ""]));
}

#[test]
fn split_line_reads_quoted_fields() {
    assert_eq!(split_line("\"a\",\"b\"").unwrap(), strings(&["a", "b"]));
    assert_eq!(
        split_line("\"ho, ho\",plain").unwrap(),
        strings(&["ho, ho", "plain"])
    );
    assert_eq!(split_line("\"say \"\"hi\"\"\"").unwrap(), strings(&["say \"hi\""]));
    assert_eq!(split_line("\"\",x").unwrap(), strings(&["", "x"]));
}

#[test]
fn split_line_keeps_inner_quotes_of_plain_fields() {
    assert_eq!(split_line("a\"b").unwrap(), strings(&["a\"b"]));
}

#[test]
fn split_line_rejects_malformed_lines() {
    assert!(split_line("\"open").is_none());
    assert!(split_line("\"a\"x").is_none());
    assert!(split_line("x,\"a\"b").is_none());
}

#[test]
fn find_col_takes_the_first_match() {
    let headers = strings(&["Zipcode", "City", "State", "City"]);
    assert_eq!(find_col(&headers, "Zipcode"), Some(0));
    assert_eq!(find_col(&headers, "City"), Some(1));
    assert_eq!(find_col(&headers, "Lat"), None);
}

#[test]
fn parse_table_reads_cells_by_column_name() {
    let lines = strings(&[
        HEADER,
        "\"10465\",\"STANDARD\",\"BRONX\",\"NY\",\"PRIMARY\",40.85,-73.82,\"NA-US-NY-BRONX\",\"false\",\"26983\",\"46316\",\"1014297148\"",
    ]);
    let rows = parse_table(&lines).unwrap();
    assert_eq!(rows.len(), 1);
    assert_eq!(rows[0].zip_code, "10465");
    assert_eq!(rows[0].zip_code_type, "STANDARD");
    assert_eq!(rows[0].city, "BRONX");
    assert_eq!(rows[0].state, "NY");
    assert_eq!(rows[0].latitude, "40.85");
    assert_eq!(rows[0].longitude, "-73.82");
    assert_eq!(rows[0].location, "NA-US-NY-BRONX");
    assert_eq!(rows[0].is_decommissioned, "false");
    assert_eq!(rows[0].tax_returns_filed, "26983");
    assert_eq!(rows[0].estimated_population, "46316");
    assert_eq!(rows[0].total_wages, "1014297148");
}

#[test]
fn parse_table_honours_reordered_columns() {
    let lines = strings(&[
        "State,City,Zipcode,ZipCodeType,Lat,Long,Location,Decommisioned,TaxReturnsFiled,EstimatedPopulation,TotalWages",
        "WI,WAUKESHA,53186,STANDARD,43.0,-88.2,NA-US-WI,false,,,",
    ]);
    let rows = parse_table(&lines).unwrap();
    assert_eq!(rows[0].zip_code, "53186");
    assert_eq!(rows[0].city, "WAUKESHA");
    assert_eq!(rows[0].state, "WI");
    assert_eq!(rows[0].tax_returns_filed, "");
}

#[test]
fn parse_table_accepts_an_empty_input() {
    let rows = parse_table(&Vec::new()).unwrap();
    assert!(rows.is_empty());
    let header_only = parse_table(&strings(&[HEADER])).unwrap();
    assert!(header_only.is_empty());
}

#[test]
fn parse_table_reports_a_missing_column() {
    let lines = strings(&["Zipcode,City,State", "10465,BRONX,NY"]);
    assert!(matches!(
        parse_table(&lines),
        Err(BuildError::MissingColumn)
    ));
}

#[test]
fn parse_table_reports_a_ragged_row() {
    let lines = strings(&[
        "Zipcode,ZipCodeType,City,State,Lat,Long,Location,Decommisioned,TaxReturnsFiled,EstimatedPopulation,TotalWages",
        "10465,STANDARD,BRONX",
    ]);
    assert!(matches!(parse_table(&lines), Err(BuildError::RaggedRow)));
}

#[test]
fn parse_table_reports_a_malformed_row() {
    let lines = strings(&[
        "Zipcode,ZipCodeType,City,State,Lat,Long,Location,Decommisioned,TaxReturnsFiled,EstimatedPopulation,TotalWages",
        "\"10465,STANDARD,BRONX,NY,,,,false,,,",
    ]);
    assert!(matches!(
        parse_table(&lines),
        Err(BuildError::MalformedRow)
    ));
}

#[test]
fn build_from_lines_reports_faults_of_either_stage() {
    // a fault of the splitting stage
    let lines = strings(&[HEADER, "\"10465"]);
    assert!(matches!(
        build_from_lines(&lines),
        Err(BuildError::MalformedRow)
    ));
    // a fault of the ingestion stage
    let lines = strings(&[
        "Zipcode,ZipCodeType,City,State,Lat,Long,Location,Decommisioned,TaxReturnsFiled,EstimatedPopulation,TotalWages",
        "10465,EXPRESS,BRONX,NY,,,,false,,,",
    ]);
    assert!(matches!(
        build_from_lines(&lines),
        Err(BuildError::UnrecognizedZipType)
    ));
}

#[test]
fn build_from_lines_runs_the_whole_pipeline() {
    let lines = strings(&[
        "Zipcode,ZipCodeType,City,State,Lat,Long,Location,Decommisioned,TaxReturnsFiled,EstimatedPopulation,TotalWages",
        "07675,STANDARD,WESTWOOD,NJ,41.0,-74.0,NA-US-NJ,false,,,",
        "07983,STANDARD,WHIPPANY,NJ,40.8,-74.4,NA-US-NJ,false,,,",
        "07999,UNIQUE,WHIPPANY,NJ,,,NA-US-NJ,false,,,",
        "07981,STANDARD,WHIPPANY,NJ,40.8,-74.4,NA-US-NJ,false,,,",
        "07675,PO BOX,ELSEWHERE,NJ,,,NA-US-NJ,true,,,",
    ]);
    let t = build_from_lines(&lines).unwrap();
    let westwood = t.by_city("Westwood, NJ").unwrap();
    let zips: Vec<&str> = westwood.iter().map(|r| r.zip_code.as_str()).collect();
    assert_eq!(zips, vec!["07675"]);
    let whippany = t.by_city("Whippany, NJ").unwrap();
    let zips: Vec<&str> = whippany.iter().map(|r| r.zip_code.as_str()).collect();
    assert_eq!(zips, vec!["07983", "07999", "07981"]);
    assert!(t.by_city("Nowhere, LA").is_none());
    assert!(t.by_city("Elsewhere, NJ").is_none());
    assert!(!t.lookup_by_zip("07675").unwrap().is_decommissioned);
}
