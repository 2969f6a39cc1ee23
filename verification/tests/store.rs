use qcsv::table::Table;

fn row_count(connection: &sqlite::Connection, table: &str) -> usize {
    let mut rows: usize = 0;
    connection
        .iterate(format!("SELECT * FROM {table}"), |_| {
            rows += 1;
            true
        })
        .unwrap();
    rows
}

#[test]
fn two_tables_land_in_one_store() {
    let connection = sqlite::open(":memory:").unwrap();
    let people = Table::from_csv_text(
        "people".to_string(),
        b"name,age\nAnn,30\nO'Brien,41\n",
    )
    .unwrap_or_else(|_| panic!("a well-formed input must load"));
    let cities = Table::from_csv_text("cities".to_string(), b"city\nOslo\n")
        .unwrap_or_else(|_| panic!("a well-formed input must load"));

    connection.execute(people.to_sql_query()).unwrap();
    connection.execute(cities.to_sql_query()).unwrap();

    assert_eq!(row_count(&connection, "people"), 2);
    assert_eq!(row_count(&connection, "cities"), 1);

    let mut seen = Vec::new();
    connection
        .iterate("SELECT name FROM people ORDER BY name", |pairs| {
            for (_, value) in pairs {
                seen.push(value.unwrap_or("").to_string());
            }
            true
        })
        .unwrap();
    assert_eq!(seen, vec!["Ann".to_string(), "O'Brien".to_string()]);
}
