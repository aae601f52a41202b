use mlinql::catalog::add_table;
use mlinql::generator::GenerateError;
use mlinql::report::{
    database_name, database_names, databases_report, list_databases, list_tables, tables_report,
};

fn strings(items: &[&str]) -> Vec<String> {
    items.iter().map(|s| s.to_string()).collect()
}

#[test]
fn databases_are_the_json_files() {
    assert_eq!(database_names(&strings(&["a.json", "b.json"])), strings(&["a", "b"]));
    assert_eq!(database_names(&strings(&["b.json", "a.json"])), strings(&["b", "a"]));
}

#[test]
fn other_files_are_no_databases() {
    let files = strings(&[
        "Cargo.toml", "a.json", "notes.txt", "json", ".json", "b.JSON", "c.json.bak", "src",
        "d.jsonx", "e.json", "f.", "",
    ]);
    assert_eq!(database_names(&files), strings(&["a", "e"]));
}

#[test]
fn database_name_is_what_stands_before_the_extension() {
    assert_eq!(database_name("shop.json"), Some("shop".to_string()));
    assert_eq!(database_name("a.b.json"), Some("a.b".to_string()));
    assert_eq!(database_name("..json"), Some(".".to_string()));
    assert_eq!(database_name(".hidden.json"), Some(".hidden".to_string()));
    assert_eq!(database_name("caf\u{e9}.json"), Some("caf\u{e9}".to_string()));
    assert_eq!(database_name(".json"), None);
    assert_eq!(database_name("json"), None);
    assert_eq!(database_name("shop.jso"), None);
    assert_eq!(database_name("shop.json "), None);
    assert_eq!(database_name("shopjson"), None);
    assert_eq!(database_name(""), None);
}

#[test]
fn report_of_two_databases() {
    assert_eq!(
        list_databases(&strings(&["a.json", "notes.txt", "b.json"])),
        strings(&["+-----+", "|DATABASES|", "|  a  |", "|  b  |", "+-----+"])
    );
}

#[test]
fn report_is_as_wide_as_the_widest_name() {
    assert_eq!(
        databases_report(&strings(&["shop", "warehouse", "x"])),
        strings(&[
            "+-------------+",
            "|  DATABASES  |",
            "|  shop       |",
            "|  warehouse  |",
            "|  x          |",
            "+-------------+",
        ])
    );
}

#[test]
fn odd_blank_of_the_heading_goes_to_the_right() {
    assert_eq!(
        databases_report(&strings(&["inventory2"])),
        strings(&["+--------------+", "|  DATABASES   |", "|  inventory2  |", "+--------------+"])
    );
    assert_eq!(
        tables_report(&strings(&["abc"])),
        strings(&["+-------+", "|TABLES |", "|  abc  |", "+-------+"])
    );
}

#[test]
fn report_without_names_is_ten_wide() {
    assert_eq!(
        databases_report(&Vec::new()),
        strings(&["+--------------+", "|  DATABASES   |", "+--------------+"])
    );
    assert_eq!(
        tables_report(&Vec::new()),
        strings(&["+--------------+", "|    TABLES    |", "+--------------+"])
    );
}

#[test]
fn width_counts_bytes_and_padding_counts_characters() {
    assert_eq!(
        tables_report(&strings(&["caf\u{e9}", "abcd"])),
        strings(&["+---------+", "| TABLES  |", "|  caf\u{e9}   |", "|  abcd   |", "+---------+"])
    );
}

#[test]
fn report_of_the_tables_of_a_catalog() {
    let mut text = String::new();
    for table in ["users", "orders"] {
        text = add_table(text.as_bytes(), table.to_string(), &strings(&["id"])).unwrap();
    }
    assert_eq!(
        list_tables(text.as_bytes()).unwrap(),
        strings(&["+----------+", "|  TABLES  |", "|  orders  |", "|  users   |", "+----------+"])
    );
}

#[test]
fn report_of_a_missing_catalog_has_no_rows() {
    assert_eq!(
        list_tables(b"").unwrap(),
        strings(&["+--------------+", "|    TABLES    |", "+--------------+"])
    );
}

#[test]
fn report_of_a_malformed_catalog_is_an_error() {
    assert!(matches!(list_tables(b"[1, 2]"), Err(GenerateError::Malformed(_))));
}
