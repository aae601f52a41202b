use mlinql::catalog::{add_table, table_names};
use mlinql::generator::{Action, GenerateError, Generator};
use mlinql::parser::{
    NodeExpr, NodeExprIdentifier, NodeStmt, NodeStmtCreateDatabase, NodeStmtCreateTable,
    NodeStmtUse, Parser,
};
use mlinql::tokenizer::Tokenizer;

fn name(text: &str) -> NodeExpr {
    NodeExpr::Identifier(NodeExprIdentifier { name: text.to_string() })
}

fn create_table(table: &str, columns: &[&str]) -> NodeStmt {
    NodeStmt::CreateTable(NodeStmtCreateTable {
        table_name: name(table),
        columns: columns.iter().map(|c| name(c)).collect(),
    })
}

fn create_database(database: &str) -> NodeStmt {
    NodeStmt::CreateDatabase(NodeStmtCreateDatabase { database_name: name(database) })
}

fn use_database(database: &str) -> NodeStmt {
    NodeStmt::UseDatabase(NodeStmtUse { db_name: name(database) })
}

fn strings(items: &[&str]) -> Vec<String> {
    items.iter().map(|s| s.to_string()).collect()
}

#[test]
fn create_table_without_use_fails_and_asks_for_nothing() {
    let mut generator = Generator::new();
    let result = generator.generate(&create_table("t", &["a", "b"]));
    assert!(matches!(result, Err(GenerateError::NoDatabaseSelected { listing: false })));
    let again = generator.generate(&create_table("t", &["a", "b"]));
    assert!(matches!(again, Err(GenerateError::NoDatabaseSelected { listing: false })));
}

#[test]
fn list_tables_without_use_fails() {
    let mut generator = Generator::new();
    let result = generator.generate(&NodeStmt::ListTables);
    assert!(matches!(result, Err(GenerateError::NoDatabaseSelected { listing: true })));
}

#[test]
fn create_database_does_not_select() {
    let mut generator = Generator::new();
    assert!(generator.generate(&create_database("d")).is_ok());
    let result = generator.generate(&create_table("t", &["a"]));
    assert!(matches!(result, Err(GenerateError::NoDatabaseSelected { listing: false })));
}

#[test]
fn create_database_writes_an_empty_object() {
    let mut generator = Generator::new();
    let action = generator.generate(&create_database("shop")).unwrap();
    assert_eq!(
        action,
        Action::CreateDatabase {
            database: "shop".to_string(),
            file: "shop.json".to_string(),
            contents: "{}".to_string(),
        }
    );
}

#[test]
fn use_selects_the_file_of_the_database() {
    let mut generator = Generator::new();
    let action = generator.generate(&use_database("shop")).unwrap();
    assert_eq!(
        action,
        Action::UseDatabase { database: "shop".to_string(), file: "shop.json".to_string() }
    );
    let action = generator.generate(&create_table("users", &["id", "name"])).unwrap();
    assert_eq!(
        action,
        Action::CreateTable {
            file: "shop.json".to_string(),
            table: "users".to_string(),
            columns: strings(&["id", "name"]),
        }
    );
    let action = generator.generate(&NodeStmt::ListTables).unwrap();
    assert_eq!(action, Action::ListTables { file: "shop.json".to_string() });
}

#[test]
fn a_later_use_replaces_the_selection() {
    let mut generator = Generator::new();
    generator.generate(&use_database("a")).unwrap();
    generator.generate(&use_database("b")).unwrap();
    generator.generate(&create_database("c")).unwrap();
    generator.generate(&NodeStmt::ListDatabases).unwrap();
    let action = generator.generate(&NodeStmt::ListTables).unwrap();
    assert_eq!(action, Action::ListTables { file: "b.json".to_string() });
}

#[test]
fn list_databases_needs_no_selection() {
    let mut generator = Generator::new();
    assert_eq!(generator.generate(&NodeStmt::ListDatabases).unwrap(), Action::ListDatabases);
}

#[test]
fn sessions_are_independent() {
    let mut first = Generator::new();
    let mut second = Generator::new();
    first.generate(&use_database("a")).unwrap();
    assert!(second.generate(&NodeStmt::ListTables).is_err());
    assert!(first.generate(&NodeStmt::ListTables).is_ok());
}

#[test]
fn failure_is_told_in_words() {
    assert_eq!(
        GenerateError::NoDatabaseSelected { listing: false }.message(),
        "No database selected. Use 'USE DATABASE' statement before creating tables."
    );
    assert_eq!(
        GenerateError::NoDatabaseSelected { listing: true }.message(),
        "No database selected. Use 'USE DATABASE' statement before listing tables."
    );
    let error = add_table(b"{", "t".to_string(), &strings(&["a"])).unwrap_err();
    assert!(matches!(error, GenerateError::Malformed(_)));
    assert!(error.message().contains("line 1"));
}

#[test]
fn table_is_added_to_an_empty_catalog() {
    let text = add_table(b"", "t".to_string(), &strings(&["a", "b"])).unwrap();
    assert_eq!(
        text,
        "{\n  \"t\": {\n    \"columns\": [\n      \"a\",\n      \"b\"\n    ],\n    \"rows\": []\n  }\n}"
    );
}

#[test]
fn table_is_added_to_a_new_database() {
    let text = add_table(b"{}", "t".to_string(), &strings(&["a", "b"])).unwrap();
    assert_eq!(text, add_table(b"", "t".to_string(), &strings(&["a", "b"])).unwrap());
}

#[test]
fn written_catalog_reads_back_the_same() {
    let text = add_table(b"", "t".to_string(), &strings(&["a", "b"])).unwrap();
    let read: serde_json::Value = serde_json::from_str(&text).unwrap();
    let catalog = read.as_object().unwrap();
    assert_eq!(catalog.len(), 1);
    let table = catalog.get("t").unwrap().as_object().unwrap();
    assert_eq!(table.len(), 2);
    let columns: Vec<&str> = table
        .get("columns")
        .unwrap()
        .as_array()
        .unwrap()
        .iter()
        .map(|c| c.as_str().unwrap())
        .collect();
    assert_eq!(columns, vec!["a", "b"]);
    assert_eq!(table.get("rows").unwrap().as_array().unwrap().len(), 0);

    let again = serde_json::to_string_pretty(&read).unwrap();
    assert_eq!(again, text);
    assert_eq!(table_names(text.as_bytes()).unwrap(), strings(&["t"]));
}

#[test]
fn other_tables_stay_as_they_are() {
    let first = add_table(b"", "b".to_string(), &strings(&["x"])).unwrap();
    let second = add_table(first.as_bytes(), "a".to_string(), &strings(&["y", "z"])).unwrap();
    let read: serde_json::Value = serde_json::from_str(&second).unwrap();
    let expected: serde_json::Value = serde_json::from_str(
        "{\"a\":{\"columns\":[\"y\",\"z\"],\"rows\":[]},\"b\":{\"columns\":[\"x\"],\"rows\":[]}}",
    )
    .unwrap();
    assert_eq!(read, expected);
}

#[test]
fn whatever_the_catalog_held_is_kept() {
    let before = b"{\"old\": {\"columns\": [\"k\"], \"rows\": [[1, 2.5, null, true]]}, \"n\": 7}";
    let after = add_table(before, "t".to_string(), &strings(&["a"])).unwrap();
    let read: serde_json::Value = serde_json::from_str(&after).unwrap();
    let expected: serde_json::Value = serde_json::from_str(
        "{\"old\":{\"columns\":[\"k\"],\"rows\":[[1,2.5,null,true]]},\"n\":7,\
         \"t\":{\"columns\":[\"a\"],\"rows\":[]}}",
    )
    .unwrap();
    assert_eq!(read, expected);
}

#[test]
fn table_of_the_same_name_is_replaced() {
    let first = add_table(b"", "t".to_string(), &strings(&["a", "b"])).unwrap();
    let second = add_table(first.as_bytes(), "t".to_string(), &strings(&["c"])).unwrap();
    assert_eq!(second, add_table(b"", "t".to_string(), &strings(&["c"])).unwrap());
}

#[test]
fn duplicate_columns_are_stored_as_given() {
    let text = add_table(b"", "t".to_string(), &strings(&["a", "a"])).unwrap();
    let read: serde_json::Value = serde_json::from_str(&text).unwrap();
    let expected: serde_json::Value =
        serde_json::from_str("{\"t\":{\"columns\":[\"a\",\"a\"],\"rows\":[]}}").unwrap();
    assert_eq!(read, expected);
}

#[test]
fn table_without_columns_has_an_empty_list() {
    let text = add_table(b"", "t".to_string(), &Vec::new()).unwrap();
    assert_eq!(text, "{\n  \"t\": {\n    \"columns\": [],\n    \"rows\": []\n  }\n}");
}

#[test]
fn malformed_catalog_is_an_error() {
    for bad in [&b"{"[..], b"[]", b"42", b"not json", b"{} {}", b" ", b"{\"a\": }"] {
        let result = add_table(bad, "t".to_string(), &strings(&["a"]));
        assert!(matches!(result, Err(GenerateError::Malformed(_))));
        assert!(matches!(table_names(bad), Err(GenerateError::Malformed(_))));
    }
}

#[test]
fn table_names_come_in_ascending_order() {
    let mut text = String::new();
    for table in ["users", "Zeta", "orders", "a", "ab", "B"] {
        text = add_table(text.as_bytes(), table.to_string(), &strings(&["id"])).unwrap();
    }
    assert_eq!(
        table_names(text.as_bytes()).unwrap(),
        strings(&["B", "Zeta", "a", "ab", "orders", "users"])
    );
}

#[test]
fn empty_catalog_has_no_tables() {
    assert_eq!(table_names(b"").unwrap(), Vec::<String>::new());
    assert_eq!(table_names(b"{}").unwrap(), Vec::<String>::new());
}

#[test]
fn creating_a_database_again_empties_it() {
    let mut generator = Generator::new();
    let contents = match generator.generate(&create_database("d")).unwrap() {
        Action::CreateDatabase { contents, .. } => contents,
        other => panic!("unexpected action {:?}", other),
    };
    generator.generate(&use_database("d")).unwrap();
    let with_table = add_table(contents.as_bytes(), "t".to_string(), &strings(&["a"])).unwrap();
    assert_eq!(table_names(with_table.as_bytes()).unwrap(), strings(&["t"]));

    let action = generator.generate(&create_database("d")).unwrap();
    let (file, contents) = match action {
        Action::CreateDatabase { file, contents, .. } => (file, contents),
        other => panic!("unexpected action {:?}", other),
    };
    assert_eq!(file, "d.json");
    assert_eq!(table_names(contents.as_bytes()).unwrap(), Vec::<String>::new());
    let read: serde_json::Value = serde_json::from_str(&contents).unwrap();
    assert_eq!(read.as_object().unwrap().len(), 0);
}

#[test]
fn a_line_runs_from_text_to_actions() {
    let tokens = Tokenizer::new("USE shop CREATE TABLE users { id, name }\n".to_string()).tokenize();
    let prog = Parser::new(tokens).parse_prog().unwrap();
    let mut generator = Generator::new();
    let actions: Vec<Action> =
        prog.nodes.iter().map(|stmt| generator.generate(stmt).unwrap()).collect();
    assert_eq!(
        actions,
        vec![
            Action::UseDatabase { database: "shop".to_string(), file: "shop.json".to_string() },
            Action::CreateTable {
                file: "shop.json".to_string(),
                table: "users".to_string(),
                columns: strings(&["id", "name"]),
            },
        ]
    );
}
