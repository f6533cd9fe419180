use simplecsv::csv::join_fields;
use simplecsv::{new_csv_builder, CSVBuilder, CSVFile};

fn strings(v: &[&str]) -> Vec<String> {
    v.iter().map(|s| s.to_string()).collect()
}

fn org_table() -> CSVFile {
    CSVBuilder::new().parse_lines(strings(&["id,name", "1,Acme"]))
}

#[test]
fn test_create_new_file() {
    let new_csv = simplecsv::new_csv_builder();

    let csv_file = new_csv
        .header(String::from("f1,f2"))
        .row(String::from("r1,r2"))
        .separator(',')
        .build();

    assert_eq!(csv_file.header, strings(&["f1", "f2"]));
    assert_eq!(csv_file.data, vec![strings(&["r1", "r2"])]);
    assert_eq!(csv_file.to_lines(), strings(&["f1,f2", "r1,r2"]));
}

#[test]
fn test_new_file_with_custom() {
    let new_csv = simplecsv::new_csv_builder();

    let csv_file = new_csv
        .header(String::from("f1:f2,f3:f4"))
        .row(String::from("r1:r2-,-r:r5"))
        .separator(':')
        .build();

    assert_eq!(csv_file.header, strings(&["f1", "f2,f3", "f4"]));
    assert_eq!(csv_file.data, vec![strings(&["r1", "r2-,-r", "r5"])]);
    assert_eq!(csv_file.to_lines(), strings(&["f1,f2,f3,f4", "r1,r2-,-r,r5"]));
}

#[test]
fn split_empty_line_has_no_fields() {
    assert!(CSVBuilder::parse_from_string("", ',').is_empty());
    assert!(CSVBuilder::parse_from_string("", ':').is_empty());
}

#[test]
fn split_keeps_empty_fields_and_spaces() {
    assert_eq!(CSVBuilder::parse_from_string(",", ','), strings(&["", ""]));
    assert_eq!(CSVBuilder::parse_from_string("a", ','), strings(&["a"]));
    assert_eq!(CSVBuilder::parse_from_string(" a ,,b,", ','), strings(&[" a ", "", "b", ""]));
    assert_eq!(CSVBuilder::parse_from_string("é;ß;ü", ';'), strings(&["é", "ß", "ü"]));
}

#[test]
fn join_puts_commas_between_fields() {
    assert_eq!(join_fields(&Vec::new()), "");
    assert_eq!(join_fields(&strings(&["x"])), "x");
    assert_eq!(join_fields(&strings(&["a", "", "c"])), "a,,c");
}

#[test]
fn read_by_index_and_name() {
    let csv = org_table();
    assert_eq!(csv.header, strings(&["id", "name"]));
    assert_eq!(csv.get_value_by_index(0, 0), Some("1".to_string()));
    assert_eq!(csv.get_value_by_name(0, &"name".to_string()), Some("Acme".to_string()));
    assert_eq!(csv.get_value_by_index(99, 0), None);
    assert_eq!(csv.get_value_by_index(0, 2), None);
    assert_eq!(csv.get_value_by_name(0, &"missing".to_string()), None);
    assert_eq!(csv.get_value_by_name(1, &"id".to_string()), None);
}

#[test]
fn write_by_index() {
    let mut csv = org_table();
    assert_eq!(csv.set_value_by_index(0, 0, "X".to_string()), Ok("1".to_string()));
    assert_eq!(csv.get_value_by_index(0, 0), Some("X".to_string()));
    assert_eq!(csv.get_value_by_index(0, 1), Some("Acme".to_string()));
    assert_eq!(csv.set_value_by_index(99, 0, "Y".to_string()), Err("Out of bounds"));
    assert_eq!(csv.set_value_by_index(0, 2, "Y".to_string()), Err("Out of bounds"));
    assert_eq!(csv.data, vec![strings(&["X", "Acme"])]);
    assert_eq!(csv.header, strings(&["id", "name"]));
}

#[test]
fn write_by_name() {
    let mut csv = org_table();
    assert_eq!(csv.set_value_by_name(0, &"name".to_string(), "Beta".to_string()), Ok("Acme".to_string()));
    assert_eq!(csv.get_value_by_name(0, &"name".to_string()), Some("Beta".to_string()));
    assert_eq!(csv.set_value_by_name(0, &"nope".to_string(), "Z".to_string()), Err("Out of bounds"));
    assert_eq!(csv.set_value_by_name(5, &"id".to_string(), "Z".to_string()), Err("Out of bounds"));
    assert_eq!(csv.data, vec![strings(&["1", "Beta"])]);
}

#[test]
fn duplicate_column_names_resolve_to_first() {
    let mut csv = CSVBuilder::new().parse_lines(strings(&["k,v,k", "a,b,c"]));
    assert_eq!(csv.get_value_by_name(0, &"k".to_string()), Some("a".to_string()));
    assert_eq!(csv.set_value_by_name(0, &"k".to_string(), "z".to_string()), Ok("a".to_string()));
    assert_eq!(csv.data, vec![strings(&["z", "b", "c"])]);
}

#[test]
fn ragged_rows_are_kept() {
    let mut csv = CSVBuilder::new().parse_lines(strings(&["a,b,c", "1", "", "1,2,3,4"]));
    assert_eq!(csv.data, vec![strings(&["1"]), Vec::new(), strings(&["1", "2", "3", "4"])]);
    assert_eq!(csv.get_value_by_index(0, 1), None);
    assert_eq!(csv.get_value_by_name(0, &"b".to_string()), None);
    assert_eq!(csv.get_value_by_index(2, 3), Some("4".to_string()));
    assert_eq!(csv.set_value_by_index(1, 0, "x".to_string()), Err("Out of bounds"));
    assert_eq!(csv.to_lines(), strings(&["a,b,c", "1", "", "1,2,3,4"]));
}

#[test]
fn no_header_mode_reads_every_line_as_row() {
    let csv = new_csv_builder().has_header(false).parse_lines(strings(&["id,name", "1,Acme"]));
    assert!(csv.header.is_empty());
    assert_eq!(csv.data, vec![strings(&["id", "name"]), strings(&["1", "Acme"])]);
    assert_eq!(csv.to_lines(), strings(&["id,name", "1,Acme"]));
}

#[test]
fn empty_source_gives_empty_header() {
    let csv = CSVBuilder::new().parse_lines(Vec::new());
    assert!(csv.header.is_empty());
    assert!(csv.data.is_empty());
    assert!(csv.to_lines().is_empty());
}

#[test]
fn reading_keeps_rows_added_before() {
    let csv = CSVBuilder::new()
        .separator(';')
        .row("x;y".to_string())
        .parse_lines(strings(&["h1;h2", "1;2"]));
    assert_eq!(csv.header, strings(&["h1", "h2"]));
    assert_eq!(csv.data, vec![strings(&["x", "y"]), strings(&["1", "2"])]);
    assert_eq!(csv.to_lines(), strings(&["h1,h2", "x,y", "1,2"]));
}

#[test]
fn empty_header_line_writes_no_header() {
    let csv = CSVBuilder::new().header(String::new()).row("a,b".to_string()).build();
    assert!(csv.header.is_empty());
    assert_eq!(csv.to_lines(), strings(&["a,b"]));
}

#[test]
fn round_trip_through_lines() {
    let lines = strings(&["id,name,city", "1,Acme,", ",,", "", "2,Beta,Oslo"]);
    let csv = CSVBuilder::new().parse_lines(lines.clone());
    let out = csv.to_lines();
    assert_eq!(out, lines);
    let again = CSVBuilder::new().parse_lines(out);
    assert_eq!(again.header, csv.header);
    assert_eq!(again.data, csv.data);
}
