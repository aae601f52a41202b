use mlinql::tokenizer::{word_token, Token, TokenType, Tokenizer};

fn bare(kind: TokenType) -> Token {
    Token { token: kind, value: None }
}

fn ident(name: &str) -> Token {
    Token { token: TokenType::IDENTIFIER, value: Some(name.to_string()) }
}

fn scan(text: &str) -> Vec<Token> {
    Tokenizer::new(text.to_string()).tokenize()
}

#[test]
fn scans_create_table_statement() {
    let tokens = scan("CREATE TABLE users { id, name }");
    assert_eq!(
        tokens,
        vec![
            bare(TokenType::CREATE),
            bare(TokenType::TABLE),
            ident("users"),
            bare(TokenType::LBRACE),
            ident("id"),
            bare(TokenType::COMMA),
            ident("name"),
            bare(TokenType::RBRACE),
        ]
    );
}

#[test]
fn scans_all_four_keywords() {
    assert_eq!(
        scan("CREATE TABLE DATABASE USE"),
        vec![
            bare(TokenType::CREATE),
            bare(TokenType::TABLE),
            bare(TokenType::DATABASE),
            bare(TokenType::USE),
        ]
    );
}

#[test]
fn keywords_are_case_sensitive() {
    assert_eq!(
        scan("create Table database use Use"),
        vec![ident("create"), ident("Table"), ident("database"), ident("use"), ident("Use")]
    );
}

#[test]
fn keyword_inside_a_longer_word_is_an_identifier() {
    assert_eq!(scan("CREATED USE1 TABLES"), vec![ident("CREATED"), ident("USE1"), ident("TABLES")]);
}

#[test]
fn empty_text_has_no_tokens() {
    assert_eq!(scan(""), Vec::<Token>::new());
    assert_eq!(scan("   \t\n"), Vec::<Token>::new());
}

#[test]
fn unrecognised_characters_are_dropped() {
    assert_eq!(scan("a;b"), vec![ident("a"), ident("b")]);
    assert_eq!(scan("(USE) db!"), vec![bare(TokenType::USE), ident("db")]);
    assert_eq!(scan("_x"), vec![ident("x")]);
    assert_eq!(scan("a_b"), vec![ident("a"), ident("b")]);
}

#[test]
fn digits_continue_a_word_but_do_not_start_one() {
    assert_eq!(scan("a1b2"), vec![ident("a1b2")]);
    assert_eq!(scan("12ab"), vec![ident("ab")]);
    assert_eq!(scan("123"), Vec::<Token>::new());
}

#[test]
fn punctuation_needs_no_blanks() {
    assert_eq!(
        scan("{a,b}"),
        vec![
            bare(TokenType::LBRACE),
            ident("a"),
            bare(TokenType::COMMA),
            ident("b"),
            bare(TokenType::RBRACE),
        ]
    );
    assert_eq!(
        scan(",,}{"),
        vec![
            bare(TokenType::COMMA),
            bare(TokenType::COMMA),
            bare(TokenType::RBRACE),
            bare(TokenType::LBRACE),
        ]
    );
}

#[test]
fn letters_beyond_ascii_make_words() {
    assert_eq!(scan("USE caf\u{e9}"), vec![bare(TokenType::USE), ident("caf\u{e9}")]);
    assert_eq!(scan("\u{4eac}\u{90fd} x"), vec![ident("\u{4eac}\u{90fd}"), ident("x")]);
    assert_eq!(scan("\u{1f49d}a"), vec![ident("a")]);
}

#[test]
fn tokenizer_can_be_used_again() {
    let mut tokenizer = Tokenizer::new("USE shop".to_string());
    let first = tokenizer.tokenize();
    let second = tokenizer.tokenize();
    assert_eq!(first, vec![bare(TokenType::USE), ident("shop")]);
    assert_eq!(first, second);
}

#[test]
fn a_line_ending_does_not_join_a_word() {
    assert_eq!(scan("USE shop\n"), vec![bare(TokenType::USE), ident("shop")]);
}

#[test]
fn word_token_knows_the_keywords() {
    assert_eq!(word_token("CREATE".to_string()), bare(TokenType::CREATE));
    assert_eq!(word_token("TABLE".to_string()), bare(TokenType::TABLE));
    assert_eq!(word_token("DATABASE".to_string()), bare(TokenType::DATABASE));
    assert_eq!(word_token("USE".to_string()), bare(TokenType::USE));
    assert_eq!(word_token("LIST".to_string()), ident("LIST"));
    assert_eq!(word_token("".to_string()), ident(""));
}
