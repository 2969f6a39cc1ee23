use qcsv::table::Table;

fn table(name: &str, header: &[&str], records: &[&[&str]]) -> Table {
    let stream: Vec<Vec<String>> = std::iter::once(header)
        .chain(records.iter().copied())
        .map(|rec| rec.iter().map(|f| f.to_string()).collect())
        .collect();
    match Table::load(name.to_string(), stream) {
        Ok(t) => t,
        Err(_) => panic!("loading a non-empty stream must succeed"),
    }
}

#[test]
fn schema_and_inserts_in_order() {
    let t = table("t", &["a", "b"], &[&["1", "2"], &["3", "4"], &["5", "6"]]);
    let script = t.to_sql_query();
    assert_eq!(script.matches("CREATE TABLE").count(), 1);
    assert_eq!(script.matches("INSERT INTO").count(), 3);
    let lines: Vec<&str> = script.lines().collect();
    assert_eq!(lines.len(), 4);
    assert!(lines[0].starts_with("CREATE TABLE"));
    assert_eq!(lines[1], "INSERT INTO t VALUES ('1', '2');");
    assert_eq!(lines[2], "INSERT INTO t VALUES ('3', '4');");
    assert_eq!(lines[3], "INSERT INTO t VALUES ('5', '6');");
}

#[test]
fn schema_line_has_one_clause_per_column() {
    let t = table("t", &["x", "y", "z"], &[]);
    let script = t.to_sql_query();
    assert_eq!(
        script,
        "CREATE TABLE t (\"x\" TEXT, \"y\" TEXT, \"z\" TEXT);\n"
    );
    assert_eq!(script.matches(" TEXT").count(), 3);
}

#[test]
fn single_column_schema_has_no_separator() {
    let t = table("solo", &["only"], &[]);
    assert_eq!(t.to_sql_query(), "CREATE TABLE solo (\"only\" TEXT);\n");
}

#[test]
fn quotes_in_cells_are_doubled_and_round_trip() {
    let t = table("t", &["c"], &[&["O'Brien"], &["a''b"], &["'"]]);
    let script = t.to_sql_query();
    let lines: Vec<&str> = script.lines().collect();
    assert_eq!(lines[1], "INSERT INTO t VALUES ('O''Brien');");
    assert_eq!(lines[2], "INSERT INTO t VALUES ('a''''b');");
    assert_eq!(lines[3], "INSERT INTO t VALUES ('''');");
    for (line, original) in [(lines[1], "O'Brien"), (lines[2], "a''b"), (lines[3], "'")] {
        let inner = &line["INSERT INTO t VALUES ('".len()..line.len() - "');".len()];
        assert_eq!(inner.replace("''", "'"), original);
    }
}

#[test]
fn ragged_record_keeps_its_own_field_count() {
    let t = table("t", &["a", "b"], &[&["1"], &["x", "y", "z"]]);
    let script = t.to_sql_query();
    let lines: Vec<&str> = script.lines().collect();
    assert_eq!(lines[1], "INSERT INTO t VALUES ('1');");
    assert_eq!(lines[2], "INSERT INTO t VALUES ('x', 'y', 'z');");
}

#[test]
fn no_records_renders_schema_only() {
    let t = table("empty", &["h"], &[]);
    assert_eq!(t.to_sql_query(), "CREATE TABLE empty (\"h\" TEXT);\n");
}
