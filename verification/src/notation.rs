//! How statements are written in tokens, and that the parser accepts exactly
//! what is written that way.

use vstd::prelude::*;
use crate::grammar::{
    columns_at, identifier_at, kind_at, lemma_columns_advance, lemma_statement_advances,
    program_at, statement_at, statements_at, Parse, Statement,
};
use crate::tokenizer::{
    bare, lemma_scanned_tokens_are_well_formed, scan, well_formed, Lexeme, TokenType,
};

verus! {

/// The identifier token that carries `name`.
pub open spec fn identifier(name: Seq<char>) -> Lexeme {
    Lexeme { token: TokenType::IDENTIFIER, value: Some(name) }
}

/// What the parser reads of a token: its kind, and its text only where the
/// token is an identifier.
pub open spec fn plain(token: Lexeme) -> Lexeme {
    if token.token == TokenType::IDENTIFIER {
        token
    } else {
        bare(token.token)
    }
}

/// What the parser reads of a token sequence.
pub open spec fn plain_all(ts: Seq<Lexeme>) -> Seq<Lexeme> {
    ts.map_values(|t: Lexeme| plain(t))
}

/// The columns of a table as they are written: the names with a comma
/// between each two.
pub open spec fn column_tokens(columns: Seq<Seq<char>>) -> Seq<Lexeme>
    decreases columns.len(),
{
    if columns.len() == 0 {
        Seq::empty()
    } else if columns.len() == 1 {
        seq![identifier(columns[0])]
    } else {
        seq![identifier(columns[0]), bare(TokenType::COMMA)] + column_tokens(columns.skip(1))
    }
}

/// Whether the language has a way to write `statement`: a table needs at
/// least one column, and the two listing statements have no written form.
pub open spec fn writable(statement: Statement) -> bool {
    match statement {
        Statement::CreateTable { name, columns } => columns.len() > 0,
        Statement::CreateDatabase { name } => true,
        Statement::UseDatabase { name } => true,
        Statement::ListDatabases => false,
        Statement::ListTables => false,
    }
}

/// A statement as it is written.
pub open spec fn statement_tokens(statement: Statement) -> Seq<Lexeme> {
    match statement {
        Statement::CreateTable { name, columns } => seq![
            bare(TokenType::CREATE),
            bare(TokenType::TABLE),
            identifier(name),
            bare(TokenType::LBRACE),
        ] + column_tokens(columns) + seq![bare(TokenType::RBRACE)],
        Statement::CreateDatabase { name } => seq![
            bare(TokenType::CREATE),
            bare(TokenType::DATABASE),
            identifier(name),
        ],
        Statement::UseDatabase { name } => seq![bare(TokenType::USE), identifier(name)],
        Statement::ListDatabases => Seq::empty(),
        Statement::ListTables => Seq::empty(),
    }
}

/// Statements as they are written, one after the other.
pub open spec fn program_tokens(statements: Seq<Statement>) -> Seq<Lexeme>
    decreases statements.len(),
{
    if statements.len() == 0 {
        Seq::empty()
    } else {
        statement_tokens(statements[0]) + program_tokens(statements.skip(1))
    }
}

/// Whether every statement of `statements` can be written, and there is at
/// least one.
pub open spec fn writable_program(statements: Seq<Statement>) -> bool {
    &&& statements.len() > 0
    &&& forall|k: int| 0 <= k < statements.len() ==> writable(#[trigger] statements[k])
}

/// Whether the tokens of `ts` from position `i` on read as `pattern`.
pub open spec fn spells(ts: Seq<Lexeme>, i: int, pattern: Seq<Lexeme>) -> bool {
    &&& 0 <= i
    &&& i + pattern.len() <= ts.len()
    &&& forall|k: int| 0 <= k < pattern.len() ==> plain(ts[i + k]) == #[trigger] pattern[k]
}

/// Tokens read as one pattern after another exactly if they read as the
/// first and, behind it, as the second.
proof fn lemma_spells_split(ts: Seq<Lexeme>, i: int, a: Seq<Lexeme>, b: Seq<Lexeme>)
    requires
        0 <= i,
    ensures
        spells(ts, i, a + b) <==> spells(ts, i, a) && spells(ts, i + a.len(), b),
{
    let ab = a + b;
    if spells(ts, i, ab) {
        assert forall|k: int| 0 <= k < a.len() implies plain(ts[i + k]) == #[trigger] a[k] by {
            assert(ab[k] == a[k]);
        }
        assert forall|k: int| 0 <= k < b.len() implies plain(ts[i + a.len() + k])
            == #[trigger] b[k] by {
            assert(ab[a.len() + k] == b[k]);
        }
    }
    if spells(ts, i, a) && spells(ts, i + a.len(), b) {
        assert forall|k: int| 0 <= k < ab.len() implies plain(ts[i + k]) == #[trigger] ab[k] by {
            if k < a.len() {
                assert(ab[k] == a[k]);
            } else {
                assert(ab[k] == b[k - a.len()]);
                assert(i + k == i + a.len() + (k - a.len()));
            }
        }
    }
}

/// A column list of `n` names takes `2 * n - 1` tokens.
proof fn lemma_column_tokens_len(columns: Seq<Seq<char>>)
    requires
        columns.len() > 0,
    ensures
        column_tokens(columns).len() == 2 * columns.len() - 1,
    decreases columns.len(),
{
    if columns.len() > 1 {
        lemma_column_tokens_len(columns.skip(1));
    }
}

/// Where the tokens read as a column list that no comma follows, the column
/// list is what is found there.
proof fn lemma_columns_read(ts: Seq<Lexeme>, i: int, columns: Seq<Seq<char>>)
    requires
        columns.len() > 0,
        spells(ts, i, column_tokens(columns)),
        kind_at(ts, i + column_tokens(columns).len()) != Some(TokenType::COMMA),
    ensures
        columns_at(ts, i) == (Parse {
            found: Some(columns),
            cursor: i + column_tokens(columns).len(),
        }),
    decreases columns.len(),
{
    let pattern = column_tokens(columns);
    lemma_column_tokens_len(columns);
    assert(plain(ts[i + 0]) == pattern[0]);
    assert(identifier_at(ts, i) == Some(columns[0]));
    if columns.len() == 1 {
        assert(seq![columns[0]] =~= columns);
    } else {
        let head = seq![identifier(columns[0]), bare(TokenType::COMMA)];
        let rest = columns.skip(1);
        lemma_column_tokens_len(rest);
        assert(pattern == head + column_tokens(rest));
        lemma_spells_split(ts, i, head, column_tokens(rest));
        assert(plain(ts[i + 1]) == head[1]);
        lemma_columns_read(ts, i + 2, rest);
        assert(seq![columns[0]] + rest =~= columns);
    }
}

/// Where a column list is found, the tokens read as that list, and no comma
/// follows it.
proof fn lemma_columns_spelled(ts: Seq<Lexeme>, i: int)
    requires
        0 <= i <= ts.len(),
        columns_at(ts, i).found is Some,
    ensures
        columns_at(ts, i).found->0.len() > 0,
        columns_at(ts, i).cursor == i + column_tokens(columns_at(ts, i).found->0).len(),
        spells(ts, i, column_tokens(columns_at(ts, i).found->0)),
        kind_at(ts, columns_at(ts, i).cursor) != Some(TokenType::COMMA),
    decreases ts.len() - i,
{
    let column = identifier_at(ts, i)->0;
    let columns = columns_at(ts, i).found->0;
    assert(plain(ts[i]) == identifier(column));
    if kind_at(ts, i + 1) == Some(TokenType::COMMA) {
        let rest = columns_at(ts, i + 2).found->0;
        lemma_columns_spelled(ts, i + 2);
        lemma_columns_advance(ts, i + 2);
        assert(columns == seq![column] + rest);
        assert(columns.skip(1) =~= rest);
        assert(columns[0] == column);
        let head = seq![identifier(column), bare(TokenType::COMMA)];
        assert(column_tokens(columns) == head + column_tokens(rest));
        assert(spells(ts, i, head)) by {
            assert forall|k: int| 0 <= k < head.len() implies plain(ts[i + k])
                == #[trigger] head[k] by {
                if k == 0 {
                } else {
                    assert(plain(ts[i + 1]) == bare(TokenType::COMMA));
                }
            }
        }
        lemma_spells_split(ts, i, head, column_tokens(rest));
    } else {
        assert(columns == seq![column]);
        assert(column_tokens(columns) == seq![identifier(column)]);
        assert forall|k: int| 0 <= k < column_tokens(columns).len() implies plain(ts[i + k])
            == #[trigger] column_tokens(columns)[k] by {}
    }
}

/// Where the tokens read as a statement that can be written, that statement
/// is what is found there, and the cursor ends behind it.
pub proof fn lemma_statement_read(ts: Seq<Lexeme>, i: int, statement: Statement)
    requires
        writable(statement),
        spells(ts, i, statement_tokens(statement)),
    ensures
        statement_at(ts, i) == (Parse {
            found: Some(statement),
            cursor: i + statement_tokens(statement).len(),
        }),
{
    let pattern = statement_tokens(statement);
    match statement {
        Statement::CreateTable { name, columns } => {
            let head = seq![
                bare(TokenType::CREATE),
                bare(TokenType::TABLE),
                identifier(name),
                bare(TokenType::LBRACE),
            ];
            let listed = column_tokens(columns);
            let tail = seq![bare(TokenType::RBRACE)];
            lemma_column_tokens_len(columns);
            assert(pattern == (head + listed) + tail);
            lemma_spells_split(ts, i, head + listed, tail);
            lemma_spells_split(ts, i, head, listed);
            assert(plain(ts[i + 0]) == head[0]);
            assert(plain(ts[i + 1]) == head[1]);
            assert(plain(ts[i + 2]) == head[2]);
            assert(plain(ts[i + 3]) == head[3]);
            assert(plain(ts[i + 4 + listed.len() + 0]) == tail[0]);
            lemma_columns_read(ts, i + 4, columns);
        },
        Statement::CreateDatabase { name } => {
            assert(plain(ts[i + 0]) == pattern[0]);
            assert(plain(ts[i + 1]) == pattern[1]);
            assert(plain(ts[i + 2]) == pattern[2]);
        },
        Statement::UseDatabase { name } => {
            assert(plain(ts[i + 0]) == pattern[0]);
            assert(plain(ts[i + 1]) == pattern[1]);
        },
        Statement::ListDatabases => {},
        Statement::ListTables => {},
    }
}

/// Where a statement is found, it is one that can be written, and the tokens
/// that were consumed read as that statement.
pub proof fn lemma_statement_spelled(ts: Seq<Lexeme>, i: int)
    requires
        0 <= i <= ts.len(),
        statement_at(ts, i).found is Some,
    ensures
        writable(statement_at(ts, i).found->0),
        spells(ts, i, statement_tokens(statement_at(ts, i).found->0)),
        statement_at(ts, i).cursor == i + statement_tokens(statement_at(ts, i).found->0).len(),
{
    let statement = statement_at(ts, i).found->0;
    let pattern = statement_tokens(statement);
    if kind_at(ts, i) == Some(TokenType::CREATE) && kind_at(ts, i + 1) == Some(TokenType::TABLE) {
        let name = identifier_at(ts, i + 2)->0;
        let listed = columns_at(ts, i + 4);
        let columns = listed.found->0;
        lemma_columns_spelled(ts, i + 4);
        lemma_columns_advance(ts, i + 4);
        let head = seq![
            bare(TokenType::CREATE),
            bare(TokenType::TABLE),
            identifier(name),
            bare(TokenType::LBRACE),
        ];
        let tail = seq![bare(TokenType::RBRACE)];
        assert(statement == Statement::CreateTable { name, columns });
        assert(pattern == (head + column_tokens(columns)) + tail);
        assert(spells(ts, i, head)) by {
            assert forall|k: int| 0 <= k < head.len() implies plain(ts[i + k])
                == #[trigger] head[k] by {
                if k == 0 {
                } else if k == 1 {
                } else if k == 2 {
                    assert(plain(ts[i + 2]) == identifier(name));
                } else {
                    assert(plain(ts[i + 3]) == bare(TokenType::LBRACE));
                }
            }
        }
        assert(spells(ts, listed.cursor, tail)) by {
            assert forall|k: int| 0 <= k < tail.len() implies plain(ts[listed.cursor + k])
                == #[trigger] tail[k] by {
                assert(plain(ts[listed.cursor]) == bare(TokenType::RBRACE));
            }
        }
        lemma_spells_split(ts, i, head, column_tokens(columns));
        lemma_spells_split(ts, i, head + column_tokens(columns), tail);
    } else if kind_at(ts, i) == Some(TokenType::CREATE) {
        let name = identifier_at(ts, i + 2)->0;
        assert forall|k: int| 0 <= k < pattern.len() implies plain(ts[i + k])
            == #[trigger] pattern[k] by {
            if k == 0 {
            } else if k == 1 {
                assert(plain(ts[i + 1]) == bare(TokenType::DATABASE));
            } else {
                assert(plain(ts[i + 2]) == identifier(name));
            }
        }
    } else {
        let name = identifier_at(ts, i + 1)->0;
        assert forall|k: int| 0 <= k < pattern.len() implies plain(ts[i + k])
            == #[trigger] pattern[k] by {
            if k == 0 {
            } else {
                assert(plain(ts[i + 1]) == identifier(name));
            }
        }
    }
}

/// Where the tokens from `i` to the end read as statements that can be
/// written, these statements are what is found there.
proof fn lemma_statements_read(ts: Seq<Lexeme>, i: int, statements: Seq<Statement>)
    requires
        forall|k: int| 0 <= k < statements.len() ==> writable(#[trigger] statements[k]),
        spells(ts, i, program_tokens(statements)),
        i + program_tokens(statements).len() == ts.len(),
    ensures
        statements_at(ts, i) == (Parse { found: Some(statements), cursor: ts.len() as int }),
    decreases statements.len(),
{
    if statements.len() == 0 {
        assert(statements =~= Seq::empty());
    } else {
        let first = statements[0];
        let rest = statements.skip(1);
        assert(writable(first));
        lemma_spells_split(ts, i, statement_tokens(first), program_tokens(rest));
        lemma_statement_read(ts, i, first);
        assert forall|k: int| 0 <= k < rest.len() implies writable(#[trigger] rest[k]) by {
            assert(rest[k] == statements[k + 1]);
        }
        lemma_statements_read(ts, i + statement_tokens(first).len(), rest);
        assert(seq![first] + rest =~= statements);
    }
}

/// Where statements are found up to the end of the tokens, each of them can
/// be written, and the tokens from `i` to the end read as these statements.
proof fn lemma_statements_spelled(ts: Seq<Lexeme>, i: int)
    requires
        0 <= i <= ts.len(),
        statements_at(ts, i).found is Some,
    ensures
        forall|k: int|
            0 <= k < statements_at(ts, i).found->0.len() ==> writable(
                #[trigger] statements_at(ts, i).found->0[k],
            ),
        spells(ts, i, program_tokens(statements_at(ts, i).found->0)),
        i + program_tokens(statements_at(ts, i).found->0).len() == ts.len(),
        statements_at(ts, i).cursor == ts.len(),
    decreases ts.len() - i,
{
    let statements = statements_at(ts, i).found->0;
    if i >= ts.len() {
        assert(program_tokens(statements) =~= Seq::empty());
    } else {
        let first = statement_at(ts, i);
        let statement = first.found->0;
        let rest = statements_at(ts, first.cursor).found->0;
        lemma_statement_advances(ts, i);
        lemma_statement_spelled(ts, i);
        lemma_statements_spelled(ts, first.cursor);
        assert(statements == seq![statement] + rest);
        assert(statements[0] == statement);
        assert(statements.skip(1) =~= rest);
        lemma_spells_split(ts, i, statement_tokens(statement), program_tokens(rest));
        assert forall|k: int| 0 <= k < statements.len() implies writable(
            #[trigger] statements[k],
        ) by {
            if k > 0 {
                assert(statements[k] == rest[k - 1]);
            }
        }
    }
}

/// The parser reads scanned tokens as they are: the scanner puts text on
/// identifiers only.
pub proof fn lemma_scanned_tokens_are_plain(text: Seq<char>)
    ensures
        plain_all(scan(text)) == scan(text),
{
    lemma_scanned_tokens_are_well_formed(text);
    assert forall|i: int| 0 <= i < scan(text).len() implies plain_all(scan(text))[i] == scan(
        text,
    )[i] by {
        assert(well_formed(scan(text)[i]));
    }
    assert(plain_all(scan(text)) =~= scan(text));
}

/// Every program that can be written is parsed back from its tokens, whole
/// and in order: where the tokens read as the statements of `statements`, one
/// after the other, the parser finds exactly these statements, as many as
/// were written, and consumes all the tokens.
pub proof fn lemma_written_program_is_parsed(ts: Seq<Lexeme>, statements: Seq<Statement>)
    requires
        writable_program(statements),
        plain_all(ts) == program_tokens(statements),
    ensures
        program_at(ts, 0) == (Parse { found: Some(statements), cursor: ts.len() as int }),
{
    let pattern = program_tokens(statements);
    assert(plain_all(ts).len() == ts.len());
    assert forall|k: int| 0 <= k < pattern.len() implies plain(ts[0 + k]) == #[trigger] pattern[k] by {
        assert(plain_all(ts)[k] == plain(ts[k]));
    }
    lemma_statements_read(ts, 0, statements);
}

/// Nothing but a written program is parsed: where the parser finds a program,
/// the tokens, all of them, read as the statements of that program one after
/// the other, each of them a statement that can be written. So tokens that
/// hold anything else, be it one malformed statement among good ones, give
/// no program.
pub proof fn lemma_parsed_program_was_written(ts: Seq<Lexeme>)
    requires
        program_at(ts, 0).found is Some,
    ensures
        writable_program(program_at(ts, 0).found->0),
        plain_all(ts) == program_tokens(program_at(ts, 0).found->0),
        program_at(ts, 0).cursor == ts.len(),
{
    let statements = program_at(ts, 0).found->0;
    lemma_statements_spelled(ts, 0);
    let pattern = program_tokens(statements);
    assert(plain_all(ts) =~= pattern) by {
        assert forall|k: int| 0 <= k < pattern.len() implies plain_all(ts)[k] == pattern[k] by {
            assert(plain(ts[0 + k]) == pattern[k]);
        }
    }
}

/// Tokens that do not read as a written program are refused as a whole.
pub proof fn lemma_malformed_input_is_refused(ts: Seq<Lexeme>)
    requires
        forall|statements: Seq<Statement>|
            !(writable_program(statements) && plain_all(ts) == #[trigger] program_tokens(
                statements,
            )),
    ensures
        program_at(ts, 0).found is None,
{
    if program_at(ts, 0).found is Some {
        lemma_parsed_program_was_written(ts);
        assert(program_tokens(program_at(ts, 0).found->0) == plain_all(ts));
    }
}

} // verus!
