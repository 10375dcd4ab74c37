use personal_server::flight_hours::FlightHours;

fn rec(fields: &[&str]) -> Vec<String> {
    fields.iter().map(|s| s.to_string()).collect()
}

#[test]
fn keeps_the_last_record() {
    let mut fh = FlightHours { records: vec![] };
    let r = fh.take_records(vec![Ok(rec(&["2024-01-01", "1.5"])), Ok(rec(&["2024-01-02", "2"]))]);
    assert_eq!(r, Ok(()));
    assert_eq!(fh.records, rec(&["2024-01-02", "2"]));
}

#[test]
fn no_rows_keep_what_was_there() {
    let mut fh = FlightHours { records: rec(&["old"]) };
    assert_eq!(fh.take_records(vec![]), Ok(()));
    assert_eq!(fh.records, rec(&["old"]));
}

#[test]
fn stops_at_the_first_error() {
    let mut fh = FlightHours { records: rec(&["old"]) };
    let r = fh.take_records(vec![
        Ok(rec(&["a"])),
        Err("bad row".to_string()),
        Ok(rec(&["b"])),
        Err("later".to_string()),
    ]);
    assert_eq!(r, Err("bad row".to_string()));
    assert_eq!(fh.records, rec(&["a"]));
}

#[test]
fn an_error_first_keeps_what_was_there() {
    let mut fh = FlightHours { records: rec(&["old"]) };
    assert_eq!(fh.take_records(vec![Err("e".to_string())]), Err("e".to_string()));
    assert_eq!(fh.records, rec(&["old"]));
}

#[test]
fn open_csv_data_keeps_the_last_record_after_the_header() {
    let mut fh = FlightHours { records: vec![] };
    let data = b"date,hours\n2024-01-01,1.5\n2024-01-02,2\n";
    assert_eq!(fh.open_csv_data(data), Ok(()));
    assert_eq!(fh.records, rec(&["2024-01-02", "2"]));
}

#[test]
fn open_csv_data_with_only_a_header_keeps_what_was_there() {
    let mut fh = FlightHours { records: rec(&["old"]) };
    assert_eq!(fh.open_csv_data(b"date,hours\n"), Ok(()));
    assert_eq!(fh.records, rec(&["old"]));
    assert_eq!(fh.open_csv_data(b""), Ok(()));
    assert_eq!(fh.records, rec(&["old"]));
}

#[test]
fn open_csv_data_stops_at_a_row_of_the_wrong_length() {
    let mut fh = FlightHours { records: vec![] };
    let r = fh.open_csv_data(b"date,hours\n2024-01-01,1\n2024-01-02\n2024-01-03,3\n");
    let err = r.unwrap_err();
    assert!(err.contains("found record with 1 fields"), "{}", err);
    assert_eq!(fh.records, rec(&["2024-01-01", "1"]));
}

#[test]
fn open_csv_data_reads_quoted_fields() {
    let mut fh = FlightHours { records: vec![] };
    assert_eq!(fh.open_csv_data(b"a,b\n\"x,y\",\"z\"\n"), Ok(()));
    assert_eq!(fh.records, rec(&["x,y", "z"]));
}
