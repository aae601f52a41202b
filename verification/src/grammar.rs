//! The grammar of the language, as functions on token sequences.
//!
//! ```text
//! Program            := Statement+
//! Statement          := CreateTableStmt | CreateDatabaseStmt | UseStmt
//! CreateDatabaseStmt := CREATE DATABASE Identifier
//! CreateTableStmt    := CREATE TABLE Identifier '{' Identifier (',' Identifier)* '}'
//! UseStmt            := USE Identifier
//! ```
//!
//! Each production is a function from a token sequence and a cursor to a
//! [`Parse`]: what was recognised, and where the cursor stands afterwards.
//! Tokens are consumed from left to right and never given back, so after a
//! failure the cursor stands behind the token that was missing or wrong.

use vstd::prelude::*;
use crate::tokenizer::{Lexeme, TokenType};

verus! {

/// The mathematical value of a statement.
pub enum Statement {
    CreateTable { name: Seq<char>, columns: Seq<Seq<char>> },
    CreateDatabase { name: Seq<char> },
    UseDatabase { name: Seq<char> },
    ListDatabases,
    ListTables,
}

/// The outcome of a production: the value recognised, if any, and the cursor
/// afterwards.
pub struct Parse<T> {
    pub found: Option<T>,
    pub cursor: int,
}

/// The cursor after `k` tokens have been consumed from position `i`; at the
/// end of `ts` consuming moves nothing.
pub open spec fn past(ts: Seq<Lexeme>, i: int, k: int) -> int {
    if i + k <= ts.len() {
        i + k
    } else {
        ts.len() as int
    }
}

/// The kind of the token at position `i`, if there is one.
pub open spec fn kind_at(ts: Seq<Lexeme>, i: int) -> Option<TokenType> {
    if 0 <= i < ts.len() {
        Some(ts[i].token)
    } else {
        None
    }
}

/// The name carried by the token at position `i`, if that token is an
/// identifier with a name.
pub open spec fn identifier_at(ts: Seq<Lexeme>, i: int) -> Option<Seq<char>> {
    if 0 <= i < ts.len() && ts[i].token == TokenType::IDENTIFIER {
        ts[i].value
    } else {
        None
    }
}

/// `Identifier`: consumes one token, which has to be a named identifier.
pub open spec fn expression_at(ts: Seq<Lexeme>, i: int) -> Parse<Seq<char>> {
    Parse { found: identifier_at(ts, i), cursor: past(ts, i, 1) }
}

/// Puts `first` in front of the columns that `rest` found.
pub open spec fn after_column(first: Seq<char>, rest: Parse<Seq<Seq<char>>>) -> Parse<
    Seq<Seq<char>>,
> {
    Parse {
        found: match rest.found {
            Some(columns) => Some(seq![first] + columns),
            None => None,
        },
        cursor: rest.cursor,
    }
}

/// `Identifier (',' Identifier)*`: a column, and after every comma another.
pub open spec fn columns_at(ts: Seq<Lexeme>, i: int) -> Parse<Seq<Seq<char>>>
    decreases ts.len() - i,
{
    match identifier_at(ts, i) {
        None => Parse { found: None, cursor: past(ts, i, 1) },
        Some(column) => if kind_at(ts, i + 1) == Some(TokenType::COMMA) {
            after_column(column, columns_at(ts, i + 2))
        } else {
            Parse { found: Some(seq![column]), cursor: i + 1 }
        },
    }
}

/// The end of `CREATE TABLE`: behind the columns that `listed` found, a `}`.
pub open spec fn table_end(ts: Seq<Lexeme>, name: Seq<char>, listed: Parse<Seq<Seq<char>>>) -> Parse<
    Statement,
> {
    match listed.found {
        None => Parse { found: None, cursor: listed.cursor },
        Some(columns) => if kind_at(ts, listed.cursor) == Some(TokenType::RBRACE) {
            Parse {
                found: Some(Statement::CreateTable { name, columns }),
                cursor: listed.cursor + 1,
            }
        } else {
            Parse { found: None, cursor: past(ts, listed.cursor, 1) }
        },
    }
}

/// `CREATE TABLE Identifier '{' Identifier (',' Identifier)* '}'`, where the
/// token at `i` is taken for the `CREATE` without a look at it.
pub open spec fn create_table_at(ts: Seq<Lexeme>, i: int) -> Parse<Statement> {
    if kind_at(ts, i + 1) != Some(TokenType::TABLE) {
        Parse { found: None, cursor: past(ts, i, 2) }
    } else {
        match identifier_at(ts, i + 2) {
            None => Parse { found: None, cursor: past(ts, i, 3) },
            Some(name) => if kind_at(ts, i + 3) != Some(TokenType::LBRACE) {
                Parse { found: None, cursor: past(ts, i, 4) }
            } else {
                table_end(ts, name, columns_at(ts, i + 4))
            },
        }
    }
}

/// `CREATE DATABASE Identifier`, where the token at `i` is taken for the
/// `CREATE` without a look at it.
pub open spec fn create_database_at(ts: Seq<Lexeme>, i: int) -> Parse<Statement> {
    if kind_at(ts, i + 1) != Some(TokenType::DATABASE) {
        Parse { found: None, cursor: past(ts, i, 2) }
    } else {
        match identifier_at(ts, i + 2) {
            None => Parse { found: None, cursor: past(ts, i, 3) },
            Some(name) => Parse { found: Some(Statement::CreateDatabase { name }), cursor: i + 3 },
        }
    }
}

/// `USE Identifier`, where the token at `i` is taken for the `USE` without a
/// look at it.
pub open spec fn use_database_at(ts: Seq<Lexeme>, i: int) -> Parse<Statement> {
    match identifier_at(ts, i + 1) {
        None => Parse { found: None, cursor: past(ts, i, 2) },
        Some(name) => Parse { found: Some(Statement::UseDatabase { name }), cursor: i + 2 },
    }
}

/// `Statement`: the production is chosen by the kinds of the next two tokens.
/// Where they start no statement, nothing is consumed.
pub open spec fn statement_at(ts: Seq<Lexeme>, i: int) -> Parse<Statement> {
    if kind_at(ts, i) == Some(TokenType::CREATE) && kind_at(ts, i + 1) == Some(TokenType::TABLE) {
        create_table_at(ts, i)
    } else if kind_at(ts, i) == Some(TokenType::CREATE) && kind_at(ts, i + 1) == Some(
        TokenType::DATABASE,
    ) {
        create_database_at(ts, i)
    } else if kind_at(ts, i) == Some(TokenType::USE) && kind_at(ts, i + 1) == Some(
        TokenType::IDENTIFIER,
    ) {
        use_database_at(ts, i)
    } else {
        Parse { found: None, cursor: i }
    }
}

/// Puts `first` in front of the statements that `rest` found.
pub open spec fn after_statement(first: Statement, rest: Parse<Seq<Statement>>) -> Parse<
    Seq<Statement>,
> {
    Parse {
        found: match rest.found {
            Some(statements) => Some(seq![first] + statements),
            None => None,
        },
        cursor: rest.cursor,
    }
}

/// `Statement*`: statements up to the end of the tokens. The first statement
/// that fails makes the whole fail.
pub open spec fn statements_at(ts: Seq<Lexeme>, i: int) -> Parse<Seq<Statement>>
    decreases ts.len() - i,
    via statements_terminate
{
    if i < 0 || i >= ts.len() {
        Parse { found: Some(Seq::empty()), cursor: i }
    } else {
        let first = statement_at(ts, i);
        match first.found {
            None => Parse { found: None, cursor: first.cursor },
            Some(statement) => after_statement(statement, statements_at(ts, first.cursor)),
        }
    }
}

#[via_fn]
proof fn statements_terminate(ts: Seq<Lexeme>, i: int) {
    if 0 <= i < ts.len() {
        lemma_statement_advances(ts, i);
    }
}

/// `Program`: at least one statement, and nothing but statements.
pub open spec fn program_at(ts: Seq<Lexeme>, i: int) -> Parse<Seq<Statement>> {
    let all = statements_at(ts, i);
    match all.found {
        Some(statements) => if statements.len() > 0 {
            all
        } else {
            Parse { found: None, cursor: all.cursor }
        },
        None => all,
    }
}

/// The columns of a table are found behind where the search for them began,
/// and the cursor stays within the tokens.
pub proof fn lemma_columns_advance(ts: Seq<Lexeme>, i: int)
    requires
        0 <= i <= ts.len(),
    ensures
        i <= columns_at(ts, i).cursor <= ts.len(),
        columns_at(ts, i).found is Some ==> i < columns_at(ts, i).cursor,
    decreases ts.len() - i,
{
    if identifier_at(ts, i) is Some && kind_at(ts, i + 1) == Some(TokenType::COMMA) {
        lemma_columns_advance(ts, i + 2);
    }
}

/// A statement that is recognised consumes at least one token, and the cursor
/// never leaves the tokens nor moves back.
pub proof fn lemma_statement_advances(ts: Seq<Lexeme>, i: int)
    requires
        0 <= i <= ts.len(),
    ensures
        i <= statement_at(ts, i).cursor <= ts.len(),
        statement_at(ts, i).found is Some ==> i < statement_at(ts, i).cursor,
{
    if kind_at(ts, i) == Some(TokenType::CREATE) && kind_at(ts, i + 1) == Some(TokenType::TABLE)
        && identifier_at(ts, i + 2) is Some && kind_at(ts, i + 3) == Some(TokenType::LBRACE) {
        lemma_columns_advance(ts, i + 4);
    }
}

} // verus!
