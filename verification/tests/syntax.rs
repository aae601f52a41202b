use mlinql::parser::{
    NodeExpr, NodeExprIdentifier, NodeProg, NodeStmt, NodeStmtCreateDatabase, NodeStmtCreateTable,
    NodeStmtUse, Parser,
};
use mlinql::tokenizer::{Token, TokenType, Tokenizer};

fn name(text: &str) -> NodeExpr {
    NodeExpr::Identifier(NodeExprIdentifier { name: text.to_string() })
}

fn create_table(table: &str, columns: &[&str]) -> NodeStmt {
    NodeStmt::CreateTable(NodeStmtCreateTable {
        table_name: name(table),
        columns: columns.iter().map(|c| name(c)).collect(),
    })
}

fn create_database(database: &str) -> NodeStmt {
    NodeStmt::CreateDatabase(NodeStmtCreateDatabase { database_name: name(database) })
}

fn use_database(database: &str) -> NodeStmt {
    NodeStmt::UseDatabase(NodeStmtUse { db_name: name(database) })
}

fn parser_for(text: &str) -> Parser {
    Parser::new(Tokenizer::new(text.to_string()).tokenize())
}

fn parse(text: &str) -> Option<NodeProg> {
    parser_for(text).parse_prog()
}

fn statements(text: &str) -> Option<Vec<NodeStmt>> {
    parse(text).map(|prog| prog.nodes)
}

#[test]
fn parses_create_database() {
    assert_eq!(statements("CREATE DATABASE shop"), Some(vec![create_database("shop")]));
}

#[test]
fn parses_use() {
    assert_eq!(statements("USE shop"), Some(vec![use_database("shop")]));
}

#[test]
fn parses_create_table_with_columns_in_order() {
    assert_eq!(
        statements("CREATE TABLE users { id, name, email }"),
        Some(vec![create_table("users", &["id", "name", "email"])])
    );
    assert_eq!(statements("CREATE TABLE t { a }"), Some(vec![create_table("t", &["a"])]));
}

#[test]
fn duplicate_columns_are_kept() {
    assert_eq!(
        statements("CREATE TABLE t { a, a }"),
        Some(vec![create_table("t", &["a", "a"])])
    );
}

#[test]
fn parses_several_statements_in_source_order() {
    let prog = parse("CREATE DATABASE d USE d CREATE TABLE t { a, b } USE e").unwrap();
    assert_eq!(prog.nodes.len(), 4);
    assert_eq!(
        prog.nodes,
        vec![
            create_database("d"),
            use_database("d"),
            create_table("t", &["a", "b"]),
            use_database("e"),
        ]
    );
}

#[test]
fn empty_input_is_no_program() {
    assert_eq!(parse(""), None);
    assert_eq!(parse("   "), None);
    assert_eq!(parse("; ; ;"), None);
}

#[test]
fn one_malformed_statement_fails_the_whole_input() {
    assert_eq!(parse("USE a CREATE TABLE t { a, } USE b"), None);
    assert_eq!(parse("USE a USE"), None);
    assert_eq!(parse("CREATE DATABASE a CREATE b"), None);
    assert_eq!(parse("USE a b"), None);
    assert_eq!(parse("USE a }"), None);
}

#[test]
fn malformed_create_table_is_refused() {
    assert_eq!(parse("CREATE TABLE t"), None);
    assert_eq!(parse("CREATE TABLE t {"), None);
    assert_eq!(parse("CREATE TABLE t { }"), None);
    assert_eq!(parse("CREATE TABLE t { a"), None);
    assert_eq!(parse("CREATE TABLE t { a b }"), None);
    assert_eq!(parse("CREATE TABLE t { a, }"), None);
    assert_eq!(parse("CREATE TABLE t { , }"), None);
    assert_eq!(parse("CREATE TABLE t { , a }"), None);
    assert_eq!(parse("CREATE TABLE t { a, , }"), None);
    assert_eq!(parse("CREATE TABLE t { { }"), None);
    assert_eq!(parse("CREATE TABLE { a }"), None);
    assert_eq!(parse("CREATE TABLE TABLE { a }"), None);
    assert_eq!(parse("CREATE TABLE t a }"), None);
}

#[test]
fn malformed_create_database_and_use_are_refused() {
    assert_eq!(parse("CREATE"), None);
    assert_eq!(parse("CREATE DATABASE"), None);
    assert_eq!(parse("CREATE DATABASE {"), None);
    assert_eq!(parse("CREATE DATABASE USE"), None);
    assert_eq!(parse("CREATE shop"), None);
    assert_eq!(parse("USE"), None);
    assert_eq!(parse("USE {"), None);
    assert_eq!(parse("USE DATABASE shop"), None);
}

#[test]
fn other_leading_tokens_start_no_statement() {
    assert_eq!(parse("shop"), None);
    assert_eq!(parse("TABLE t { a }"), None);
    assert_eq!(parse("DATABASE d"), None);
    assert_eq!(parse("{ a }"), None);
    assert_eq!(parse("LIST DATABASES"), None);
    assert_eq!(parse("LIST TABLES"), None);
    assert_eq!(parse("exit"), None);
}

#[test]
fn keyword_is_no_identifier() {
    assert_eq!(parse("USE TABLE"), None);
    assert_eq!(parse("CREATE TABLE t { CREATE }"), None);
    assert_eq!(statements("USE table"), Some(vec![use_database("table")]));
}

#[test]
fn parse_stmt_takes_one_statement_and_stops_behind_it() {
    let mut parser = parser_for("USE a USE b");
    assert_eq!(parser.parse_stmt(), Some(use_database("a")));
    assert_eq!(parser.parse_stmt(), Some(use_database("b")));
    assert_eq!(parser.parse_stmt(), None);
    assert_eq!(parser.parse_prog(), None);
}

#[test]
fn parse_stmt_consumes_nothing_where_no_statement_starts() {
    let mut parser = parser_for("a USE b");
    assert_eq!(parser.parse_stmt(), None);
    assert_eq!(parser.parse_identifier(), Some(NodeExprIdentifier { name: "a".to_string() }));
    assert_eq!(parser.parse_stmt(), Some(use_database("b")));
}

#[test]
fn a_failed_statement_keeps_what_it_consumed() {
    let mut parser = parser_for("CREATE TABLE t a USE b");
    assert_eq!(parser.parse_stmt(), None);
    assert_eq!(parser.parse_stmt(), Some(use_database("b")));

    let mut parser = parser_for("CREATE DATABASE { USE b");
    assert_eq!(parser.parse_stmt(), None);
    assert_eq!(parser.parse_stmt(), Some(use_database("b")));

    let mut parser = parser_for("CREATE TABLE t { a, } USE b");
    assert_eq!(parser.parse_stmt(), None);
    assert_eq!(parser.parse_stmt(), Some(use_database("b")));
}

#[test]
fn parse_identifier_consumes_one_token() {
    let mut parser = parser_for("a { b");
    assert_eq!(parser.parse_identifier(), Some(NodeExprIdentifier { name: "a".to_string() }));
    assert_eq!(parser.parse_identifier(), None);
    assert_eq!(parser.parse_expression(), Some(name("b")));
    assert_eq!(parser.parse_expression(), None);
    assert_eq!(parser.parse_identifier(), None);
}

#[test]
fn statement_parsers_skip_the_first_token_unseen() {
    let mut parser = parser_for("x TABLE t { a }");
    assert_eq!(
        parser.parse_create_table(),
        Some(NodeStmtCreateTable { table_name: name("t"), columns: vec![name("a")] })
    );
    let mut parser = parser_for("x DATABASE d");
    assert_eq!(
        parser.parse_create_database(),
        Some(NodeStmtCreateDatabase { database_name: name("d") })
    );
    let mut parser = parser_for("x d");
    assert_eq!(parser.parse_use_database(), Some(NodeStmtUse { db_name: name("d") }));
}

#[test]
fn identifier_without_text_is_no_name() {
    let tokens = vec![
        Token { token: TokenType::USE, value: None },
        Token { token: TokenType::IDENTIFIER, value: None },
    ];
    assert_eq!(Parser::new(tokens).parse_prog(), None);
}

#[test]
fn text_on_a_keyword_token_is_ignored() {
    let tokens = vec![
        Token { token: TokenType::USE, value: Some("anything".to_string()) },
        Token { token: TokenType::IDENTIFIER, value: Some("d".to_string()) },
    ];
    assert_eq!(Parser::new(tokens).parse_prog().map(|p| p.nodes), Some(vec![use_database("d")]));
}

#[test]
fn program_is_built_statement_by_statement() {
    let mut prog = NodeProg::new();
    assert!(prog.nodes.is_empty());
    prog.add_node(use_database("a"));
    prog.add_node(NodeStmt::ListTables);
    assert_eq!(prog.nodes, vec![use_database("a"), NodeStmt::ListTables]);
}

#[test]
fn written_statements_are_parsed_back() {
    let written = vec![
        create_database("inventory"),
        use_database("inventory"),
        create_table("items", &["sku", "title", "price"]),
        create_table("bins", &["row"]),
    ];
    let text = "CREATE DATABASE inventory USE inventory \
                CREATE TABLE items { sku, title, price } CREATE TABLE bins { row }";
    assert_eq!(statements(text), Some(written));
}
