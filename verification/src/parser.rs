//! The syntax tree and the recursive-descent parser that builds it.

use vstd::prelude::*;
use crate::grammar::{
    columns_at, create_database_at, create_table_at, expression_at, lemma_statement_advances,
    past, program_at, statement_at, statements_at, table_end, use_database_at, Parse, Statement,
};
use crate::tokenizer::{lexemes, Lexeme, Token, TokenType};

verus! {

/// A name: of a database, of a table or of a column.
#[derive(Debug, Clone, PartialEq, Eq)]
pub struct NodeExprIdentifier {
    pub name: String,
}

/// `CREATE TABLE`: the table's name and its columns in the order written.
#[derive(Debug, Clone, PartialEq, Eq)]
pub struct NodeStmtCreateTable {
    pub table_name: NodeExpr,
    pub columns: Vec<NodeExpr>,
}

/// `CREATE DATABASE`: the database's name.
#[derive(Debug, Clone, PartialEq, Eq)]
pub struct NodeStmtCreateDatabase {
    pub database_name: NodeExpr,
}

/// `USE`: the name of the database to select.
#[derive(Debug, Clone, PartialEq, Eq)]
pub struct NodeStmtUse {
    pub db_name: NodeExpr,
}

/// An expression. The language has one form of it, the identifier.
#[derive(Debug, Clone, PartialEq, Eq)]
pub enum NodeExpr {
    Identifier(NodeExprIdentifier),
}

/// A statement.
#[derive(Debug, Clone, PartialEq, Eq)]
pub enum NodeStmt {
    CreateTable(NodeStmtCreateTable),
    CreateDatabase(NodeStmtCreateDatabase),
    UseDatabase(NodeStmtUse),
    ListDatabases,
    ListTables,
}

/// Statements in the order in which they are to be carried out.
#[derive(Debug, Clone, PartialEq, Eq)]
pub struct NodeProg {
    pub nodes: Vec<NodeStmt>,
}

impl View for NodeExprIdentifier {
    type V = Seq<char>;

    open spec fn view(&self) -> Seq<char> {
        self.name@
    }
}

impl View for NodeExpr {
    type V = Seq<char>;

    open spec fn view(&self) -> Seq<char> {
        match self {
            NodeExpr::Identifier(identifier) => identifier@,
        }
    }
}

/// The names that a sequence of expressions stands for.
pub open spec fn names(expressions: Seq<NodeExpr>) -> Seq<Seq<char>> {
    expressions.map_values(|e: NodeExpr| e@)
}

impl View for NodeStmtCreateTable {
    type V = Statement;

    open spec fn view(&self) -> Statement {
        Statement::CreateTable { name: self.table_name@, columns: names(self.columns@) }
    }
}

impl View for NodeStmtCreateDatabase {
    type V = Statement;

    open spec fn view(&self) -> Statement {
        Statement::CreateDatabase { name: self.database_name@ }
    }
}

impl View for NodeStmtUse {
    type V = Statement;

    open spec fn view(&self) -> Statement {
        Statement::UseDatabase { name: self.db_name@ }
    }
}

impl View for NodeStmt {
    type V = Statement;

    open spec fn view(&self) -> Statement {
        match self {
            NodeStmt::CreateTable(statement) => statement@,
            NodeStmt::CreateDatabase(statement) => statement@,
            NodeStmt::UseDatabase(statement) => statement@,
            NodeStmt::ListDatabases => Statement::ListDatabases,
            NodeStmt::ListTables => Statement::ListTables,
        }
    }
}

/// The values of a sequence of statements.
pub open spec fn statements(nodes: Seq<NodeStmt>) -> Seq<Statement> {
    nodes.map_values(|s: NodeStmt| s@)
}

impl View for NodeProg {
    type V = Seq<Statement>;

    open spec fn view(&self) -> Seq<Statement> {
        statements(self.nodes@)
    }
}

/// The value of what a parsing function returned.
pub open spec fn found<T: View>(node: Option<T>) -> Option<T::V> {
    match node {
        Some(n) => Some(n@),
        None => None,
    }
}

impl NodeProg {
    /// A program without statements, to be filled by [`NodeProg::add_node`].
    pub fn new() -> (prog: Self)
        ensures
            prog@ == Seq::<Statement>::empty(),
    {
        let prog = NodeProg { nodes: Vec::new() };
        assert(prog@ =~= Seq::<Statement>::empty());
        prog
    }

    /// Appends `node` as the last statement.
    pub fn add_node(&mut self, node: NodeStmt)
        ensures
            final(self).nodes@ == old(self).nodes@.push(node),
            final(self)@ == old(self)@.push(node@),
    {
        self.nodes.push(node);
        assert(self@ =~= old(self)@.push(node@));
    }
}

/// Whether `token` is there and of kind `kind`.
fn kind_is(token: Option<&Token>, kind: TokenType) -> (b: bool)
    ensures
        b == match token {
            Some(t) => t.token == kind,
            None => false,
        },
{
    match token {
        Some(t) => t.token == kind,
        None => false,
    }
}

/// What a production finds when `so_far` has been found already and `rest`
/// is the outcome of going on from there.
spec fn continued<T>(so_far: Seq<T>, rest: Parse<Seq<T>>) -> Parse<Seq<T>> {
    Parse {
        found: match rest.found {
            Some(more) => Some(so_far + more),
            None => None,
        },
        cursor: rest.cursor,
    }
}

/// A parser over one token sequence, with a cursor that only moves forward.
pub struct Parser {
    tokens: Vec<Token>,
    index: usize,
}

impl Parser {
    /// The tokens that are parsed.
    pub closed spec fn input(&self) -> Seq<Lexeme> {
        lexemes(self.tokens@)
    }

    /// The cursor: how many tokens have been consumed.
    pub closed spec fn cursor(&self) -> int {
        self.index as int
    }

    /// The cursor never lies past the end of the tokens.
    #[verifier::type_invariant]
    spec fn cursor_in_input(&self) -> bool {
        self.index <= self.tokens@.len()
    }

    /// A parser at the start of `m_tokens`.
    pub fn new(m_tokens: Vec<Token>) -> (parser: Self)
        ensures
            parser.input() == lexemes(m_tokens@),
            parser.cursor() == 0,
    {
        Parser { tokens: m_tokens, index: 0 }
    }

    /// Consumes one token and returns its name if it is a named identifier.
    pub fn parse_identifier(&mut self) -> (r: Option<NodeExprIdentifier>)
        ensures
            final(self).input() == old(self).input(),
            found(r) == expression_at(old(self).input(), old(self).cursor()).found,
            final(self).cursor() == expression_at(old(self).input(), old(self).cursor()).cursor,
    {
        proof {
            use_type_invariant(&*self);
        }
        if let Some(token) = self.consume() {
            match token.token {
                TokenType::IDENTIFIER => {
                    if let Some(name) = &token.value {
                        return Some(NodeExprIdentifier { name: name.clone() });
                    }
                },
                _ => {},
            }
        }
        None
    }

    /// `CREATE TABLE name { column, column, ... }`. The token at the cursor
    /// is consumed unseen, as the `CREATE` that the caller has looked at.
    pub fn parse_create_table(&mut self) -> (r: Option<NodeStmtCreateTable>)
        ensures
            final(self).input() == old(self).input(),
            found(r) == create_table_at(old(self).input(), old(self).cursor()).found,
            final(self).cursor() == create_table_at(old(self).input(), old(self).cursor()).cursor,
    {
        proof {
            use_type_invariant(&*self);
        }
        let ghost ts = self.input();
        let ghost start = self.cursor();
        let mut columns: Vec<NodeExpr> = Vec::new();

        self.consume();

        if !kind_is(self.consume(), TokenType::TABLE) {
            return None;
        }
        let table_name = match self.parse_expression() {
            Some(ident) => ident,
            None => {
                return None;
            },
        };

        if !kind_is(self.consume(), TokenType::LBRACE) {
            return None;
        }
        let ghost first = self.cursor();
        proof {
            assert(names(columns@) =~= Seq::<Seq<char>>::empty());
            assert(continued(names(columns@), columns_at(ts, first)) == columns_at(ts, first)) by {
                let listed = columns_at(ts, first);
                if let Some(found_columns) = listed.found {
                    assert(Seq::<Seq<char>>::empty() + found_columns =~= found_columns);
                }
            }
        }
        loop
            invariant_except_break
                columns_at(ts, first) == continued(
                    names(columns@),
                    columns_at(ts, self.cursor()),
                ),
            invariant
                ts == old(self).input(),
                start == old(self).cursor(),
                self.input() == ts,
                0 <= first <= self.cursor() <= ts.len(),
                create_table_at(ts, start) == table_end(ts, table_name@, columns_at(ts, first)),
            ensures
                self.input() == ts,
                0 <= self.cursor() <= ts.len(),
                create_table_at(ts, start) == table_end(ts, table_name@, columns_at(ts, first)),
                columns_at(ts, first) == (Parse {
                    found: Some(names(columns@)),
                    cursor: self.cursor(),
                }),
            decreases ts.len() - self.cursor(),
        {
            let ghost here = self.cursor();
            let ghost so_far = names(columns@);
            match self.parse_expression() {
                Some(column) => {
                    columns.push(column);
                    assert(names(columns@) =~= so_far.push(column@));
                },
                None => {
                    return None;
                },
            }
            let ghost column = names(columns@).last();
            if kind_is(self.peek(0), TokenType::COMMA) {
                self.consume();
                proof {
                    if let Some(more) = columns_at(ts, here + 2).found {
                        assert(so_far + (seq![column] + more) =~= names(columns@) + more);
                    }
                }
            } else {
                assert(so_far + seq![column] =~= names(columns@));
                break ;
            }
        }

        if !kind_is(self.consume(), TokenType::RBRACE) {
            return None;
        }
        Some(NodeStmtCreateTable { table_name, columns })
    }

    /// `CREATE DATABASE name`. The token at the cursor is consumed unseen, as
    /// the `CREATE` that the caller has looked at.
    pub fn parse_create_database(&mut self) -> (r: Option<NodeStmtCreateDatabase>)
        ensures
            final(self).input() == old(self).input(),
            found(r) == create_database_at(old(self).input(), old(self).cursor()).found,
            final(self).cursor() == create_database_at(
                old(self).input(),
                old(self).cursor(),
            ).cursor,
    {
        proof {
            use_type_invariant(&*self);
        }
        self.consume();

        if !kind_is(self.consume(), TokenType::DATABASE) {
            return None;
        }
        let db_name = match self.parse_expression() {
            Some(ident) => ident,
            None => {
                return None;
            },
        };

        Some(NodeStmtCreateDatabase { database_name: db_name })
    }

    /// `USE name`. The token at the cursor is consumed unseen, as the `USE`
    /// that the caller has looked at.
    pub fn parse_use_database(&mut self) -> (r: Option<NodeStmtUse>)
        ensures
            final(self).input() == old(self).input(),
            found(r) == use_database_at(old(self).input(), old(self).cursor()).found,
            final(self).cursor() == use_database_at(old(self).input(), old(self).cursor()).cursor,
    {
        proof {
            use_type_invariant(&*self);
        }
        self.consume();
        let db_name = match self.parse_expression() {
            Some(ident) => ident,
            None => {
                return None;
            },
        };

        Some(NodeStmtUse { db_name })
    }

    /// Consumes one token and returns the expression that it is, if it is one.
    pub fn parse_expression(&mut self) -> (r: Option<NodeExpr>)
        ensures
            final(self).input() == old(self).input(),
            found(r) == expression_at(old(self).input(), old(self).cursor()).found,
            final(self).cursor() == expression_at(old(self).input(), old(self).cursor()).cursor,
    {
        if let Some(identifier) = self.parse_identifier() {
            return Some(NodeExpr::Identifier(identifier));
        }
        None
    }

    /// Parses one statement. The kinds of the next two tokens decide which;
    /// where they start no statement, nothing is consumed.
    pub fn parse_stmt(&mut self) -> (r: Option<NodeStmt>)
        ensures
            final(self).input() == old(self).input(),
            found(r) == statement_at(old(self).input(), old(self).cursor()).found,
            final(self).cursor() == statement_at(old(self).input(), old(self).cursor()).cursor,
    {
        proof {
            use_type_invariant(&*self);
        }
        if kind_is(self.peek(0), TokenType::CREATE) {
            if kind_is(self.peek(1), TokenType::TABLE) {
                if let Some(create_table_stmt) = self.parse_create_table() {
                    return Some(NodeStmt::CreateTable(create_table_stmt));
                }
            } else if kind_is(self.peek(1), TokenType::DATABASE) {
                if let Some(create_db_stmt) = self.parse_create_database() {
                    return Some(NodeStmt::CreateDatabase(create_db_stmt));
                }
            }
        } else if kind_is(self.peek(0), TokenType::USE) {
            if kind_is(self.peek(1), TokenType::IDENTIFIER) {
                if let Some(use_database) = self.parse_use_database() {
                    return Some(NodeStmt::UseDatabase(use_database));
                }
            }
        }
        None
    }

    /// Parses all the tokens from the cursor on as a program: one statement
    /// after the other, at least one, and nothing else. The first statement
    /// that fails ends the parse, and no program is returned.
    pub fn parse_prog(&mut self) -> (r: Option<NodeProg>)
        ensures
            final(self).input() == old(self).input(),
            found(r) == program_at(old(self).input(), old(self).cursor()).found,
            final(self).cursor() == program_at(old(self).input(), old(self).cursor()).cursor,
    {
        proof {
            use_type_invariant(&*self);
        }
        let ghost ts = self.input();
        let ghost start = self.cursor();
        let mut prog = NodeProg::new();
        proof {
            let all = statements_at(ts, start);
            if let Some(found_statements) = all.found {
                assert(Seq::<Statement>::empty() + found_statements =~= found_statements);
            }
        }
        while self.index < self.tokens.len()
            invariant
                ts == old(self).input(),
                start == old(self).cursor(),
                self.input() == ts,
                0 <= start <= self.cursor() <= ts.len(),
                statements_at(ts, start) == continued(prog@, statements_at(ts, self.cursor())),
            decreases ts.len() - self.cursor(),
        {
            let ghost here = self.cursor();
            let ghost so_far = prog@;
            proof {
                lemma_statement_advances(ts, here);
            }
            if let Some(stmt) = self.parse_stmt() {
                prog.add_node(stmt);
                proof {
                    let rest = statements_at(ts, self.cursor());
                    if let Some(more) = rest.found {
                        assert(so_far + (seq![stmt@] + more) =~= prog@ + more);
                    }
                }
            } else {
                return None;
            }
        }
        proof {
            assert(prog@ + Seq::<Statement>::empty() =~= prog@);
        }

        if prog.nodes.len() == 0 {
            None
        } else {
            Some(prog)
        }
    }

    /// The token at the cursor, which moves past it; nothing at the end.
    fn consume(&mut self) -> (t: Option<&Token>)
        ensures
            final(self).input() == old(self).input(),
            final(self).cursor() == past(old(self).input(), old(self).cursor(), 1),
            old(self).cursor() < old(self).input().len() ==> t.is_some() && t.unwrap()@ == old(
                self,
            ).input()[old(self).cursor()],
            old(self).cursor() >= old(self).input().len() ==> t.is_none(),
    {
        proof {
            use_type_invariant(&*self);
        }
        if self.index < self.tokens.len() {
            let token = &self.tokens[self.index];
            self.index += 1;
            Some(token)
        } else {
            None
        }
    }

    /// The token `ahead` places after the cursor, if there is one.
    fn peek(&self, ahead: usize) -> (t: Option<&Token>)
        ensures
            self.cursor() + ahead < self.input().len() ==> t.is_some() && t.unwrap()@
                == self.input()[self.cursor() + ahead],
            self.cursor() + ahead >= self.input().len() ==> t.is_none(),
    {
        proof {
            use_type_invariant(self);
        }
        if self.index >= self.tokens.len() || ahead >= self.tokens.len() - self.index {
            None
        } else {
            Some(&self.tokens[self.index + ahead])
        }
    }
}

} // verus!
