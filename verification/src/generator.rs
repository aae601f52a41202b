//! What each statement asks of the shell, and which database is selected.
//!
//! The generator holds the one piece of state of a session, the file of the
//! selected database. For each statement it says what is to be done, as an
//! [`Action`], or why nothing can be done. It touches no file itself.

use vstd::prelude::*;
use vstd::pervasive::unreached;
use crate::grammar::Statement;
use crate::json::{compact_text, new_object, object_value, write_compact, Json};
use crate::parser::{names, NodeExpr, NodeExprIdentifier, NodeStmt};

verus! {

/// Why a statement could not be carried out.
#[derive(Debug)]
pub enum GenerateError {
    /// A table was to be created, or the tables were to be listed, and no
    /// database had been selected.
    NoDatabaseSelected { listing: bool },
    /// The catalog document holds no JSON object.
    Malformed(serde_json::Error),
    /// JSON could not be written.
    Unwritable(serde_json::Error),
}

/// The kinds of failure.
pub enum Failure {
    NoDatabaseSelected { listing: bool },
    Malformed,
    Unwritable,
}

impl View for GenerateError {
    type V = Failure;

    open spec fn view(&self) -> Failure {
        match self {
            GenerateError::NoDatabaseSelected { listing } => Failure::NoDatabaseSelected {
                listing: *listing,
            },
            GenerateError::Malformed(_) => Failure::Malformed,
            GenerateError::Unwritable(_) => Failure::Unwritable,
        }
    }
}

impl GenerateError {
    /// The failure in words, for the user of the shell.
    pub fn message(&self) -> (text: String)
        ensures
            self@ == (Failure::NoDatabaseSelected { listing: false }) ==> text@
                == "No database selected. Use 'USE DATABASE' statement before creating tables."@,
            self@ == (Failure::NoDatabaseSelected { listing: true }) ==> text@
                == "No database selected. Use 'USE DATABASE' statement before listing tables."@,
            match self {
                GenerateError::NoDatabaseSelected { listing } => true,
                GenerateError::Malformed(error) => vstd::string::to_string_from_display_ensures(
                    error,
                    text,
                ),
                GenerateError::Unwritable(error) => vstd::string::to_string_from_display_ensures(
                    error,
                    text,
                ),
            },
    {
        match self {
            GenerateError::NoDatabaseSelected { listing } => {
                if *listing {
                    String::from_str(
                        "No database selected. Use 'USE DATABASE' statement before listing tables.",
                    )
                } else {
                    String::from_str(
                        "No database selected. Use 'USE DATABASE' statement before creating tables.",
                    )
                }
            },
            GenerateError::Malformed(error) => error.to_string(),
            GenerateError::Unwritable(error) => error.to_string(),
        }
    }
}

/// What the shell is to do for one statement.
#[derive(Debug, Clone, PartialEq, Eq)]
pub enum Action {
    /// Write `contents` to `file`, in place of whatever the file holds.
    CreateDatabase { database: String, file: String, contents: String },
    /// Nothing: `file` is the selected database from now on.
    UseDatabase { database: String, file: String },
    /// Read `file`, add the table to what it holds, and write that back.
    CreateTable { file: String, table: String, columns: Vec<String> },
    /// Report the databases of the working directory.
    ListDatabases,
    /// Read `file` and report its tables.
    ListTables { file: String },
}

/// The mathematical value of an [`Action`].
pub enum Task {
    CreateDatabase { database: Seq<char>, file: Seq<char>, contents: Seq<char> },
    UseDatabase { database: Seq<char>, file: Seq<char> },
    CreateTable { file: Seq<char>, table: Seq<char>, columns: Seq<Seq<char>> },
    ListDatabases,
    ListTables { file: Seq<char> },
}

/// The texts of a sequence of strings.
pub open spec fn texts(strings: Seq<String>) -> Seq<Seq<char>> {
    strings.map_values(|s: String| s@)
}

impl View for Action {
    type V = Task;

    open spec fn view(&self) -> Task {
        match self {
            Action::CreateDatabase { database, file, contents } => Task::CreateDatabase {
                database: database@,
                file: file@,
                contents: contents@,
            },
            Action::UseDatabase { database, file } => Task::UseDatabase {
                database: database@,
                file: file@,
            },
            Action::CreateTable { file, table, columns } => Task::CreateTable {
                file: file@,
                table: table@,
                columns: texts(columns@),
            },
            Action::ListDatabases => Task::ListDatabases,
            Action::ListTables { file } => Task::ListTables { file: file@ },
        }
    }
}

/// The file that holds the catalog of the database `database`.
pub open spec fn catalog_file(database: Seq<char>) -> Seq<char> {
    database + ".json"@
}

/// The JSON object without entries, which is what a new catalog holds.
pub open spec fn empty_catalog() -> Json {
    Json::Object(Map::empty())
}

/// The selected file after `statement`: only `USE` changes it.
pub open spec fn selected_after(selected: Option<Seq<char>>, statement: Statement) -> Option<
    Seq<char>,
> {
    match statement {
        Statement::UseDatabase { name } => Some(catalog_file(name)),
        _ => selected,
    }
}

/// What `statement` asks for when `selected` is the selected file.
pub open spec fn asked(selected: Option<Seq<char>>, statement: Statement) -> Result<
    Task,
    Failure,
> {
    match statement {
        Statement::CreateDatabase { name } => match compact_text(empty_catalog()) {
            Some(contents) => Ok(
                Task::CreateDatabase { database: name, file: catalog_file(name), contents },
            ),
            None => Err(Failure::Unwritable),
        },
        Statement::UseDatabase { name } => Ok(
            Task::UseDatabase { database: name, file: catalog_file(name) },
        ),
        Statement::CreateTable { name, columns } => match selected {
            Some(file) => Ok(Task::CreateTable { file, table: name, columns }),
            None => Err(Failure::NoDatabaseSelected { listing: false }),
        },
        Statement::ListDatabases => Ok(Task::ListDatabases),
        Statement::ListTables => match selected {
            Some(file) => Ok(Task::ListTables { file }),
            None => Err(Failure::NoDatabaseSelected { listing: true }),
        },
    }
}

/// The value of what [`Generator::generate`] returned.
pub open spec fn outcome(result: Result<Action, GenerateError>) -> Result<Task, Failure> {
    match result {
        Ok(action) => Ok(action@),
        Err(error) => Err(error@),
    }
}

/// The selected file after the statements of `statements`, in order.
pub open spec fn selected_after_all(selected: Option<Seq<char>>, statements: Seq<Statement>)
    -> Option<Seq<char>>
    decreases statements.len(),
{
    if statements.len() == 0 {
        selected
    } else {
        selected_after(selected_after_all(selected, statements.drop_last()), statements.last())
    }
}

/// The name of the file for the database `database`.
fn file_of(database: &String) -> (file: String)
    ensures
        file@ == catalog_file(database@),
{
    let mut file = database.clone();
    file.append(".json");
    file
}

/// The text of a catalog without tables.
fn empty_catalog_text() -> (written: Result<String, GenerateError>)
    ensures
        match written {
            Ok(text) => compact_text(empty_catalog()) == Some(text@),
            Err(error) => error@ == Failure::Unwritable && compact_text(empty_catalog()) is None,
        },
{
    let value = object_value(new_object());
    match write_compact(&value) {
        Ok(text) => Ok(text),
        Err(error) => Err(GenerateError::Unwritable(error)),
    }
}

/// The session: which database file is selected, if any.
pub struct Generator {
    global_db_file: Option<String>,
}

impl Generator {
    /// The selected database file.
    pub closed spec fn selected(&self) -> Option<Seq<char>> {
        match self.global_db_file {
            Some(file) => Some(file@),
            None => None,
        }
    }

    /// A session in which no database is selected.
    pub fn new() -> (generator: Self)
        ensures
            generator.selected() is None,
    {
        Generator { global_db_file: None }
    }

    /// Says what `stmt` asks of the shell, and selects the database where
    /// `stmt` is a `USE`. Without a selected database a table cannot be
    /// created and the tables cannot be listed; then nothing is asked for.
    pub fn generate(&mut self, stmt: &NodeStmt) -> (result: Result<Action, GenerateError>)
        ensures
            outcome(result) == asked(old(self).selected(), stmt@),
            final(self).selected() == selected_after(old(self).selected(), stmt@),
    {
        match stmt {
            NodeStmt::CreateDatabase(stmt) => {
                let db_name = match self.expr_to_string(&stmt.database_name) {
                    Ok(name) => name,
                    Err(_) => unreached(),
                };
                let db_file = file_of(&db_name);
                let contents = match empty_catalog_text() {
                    Ok(text) => text,
                    Err(error) => {
                        return Err(error);
                    },
                };
                Ok(Action::CreateDatabase { database: db_name, file: db_file, contents })
            },
            NodeStmt::UseDatabase(stmt) => {
                let db_name = match self.expr_to_string(&stmt.db_name) {
                    Ok(name) => name,
                    Err(_) => unreached(),
                };
                let db_file = file_of(&db_name);
                self.global_db_file = Some(db_file.clone());
                Ok(Action::UseDatabase { database: db_name, file: db_file })
            },
            NodeStmt::CreateTable(stmt) => {
                let file = match &self.global_db_file {
                    Some(file) => file.clone(),
                    None => {
                        return Err(GenerateError::NoDatabaseSelected { listing: false });
                    },
                };
                let table_name = match self.expr_to_string(&stmt.table_name) {
                    Ok(name) => name,
                    Err(_) => unreached(),
                };
                let mut columns: Vec<String> = Vec::new();
                let mut i: usize = 0;
                while i < stmt.columns.len()
                    invariant
                        0 <= i <= stmt.columns.len(),
                        texts(columns@) == names(stmt.columns@.take(i as int)),
                    decreases stmt.columns.len() - i,
                {
                    let column_name = match self.expr_to_string(&stmt.columns[i]) {
                        Ok(name) => name,
                        Err(_) => unreached(),
                    };
                    let ghost earlier = columns@;
                    columns.push(column_name);
                    i += 1;
                    proof {
                        let upto = stmt.columns@.take(i as int);
                        assert(texts(earlier) == names(stmt.columns@.take(i - 1)));
                        assert forall|k: int| 0 <= k < i implies texts(columns@)[k] == names(
                            upto,
                        )[k] by {
                            if k < i - 1 {
                                assert(texts(earlier)[k] == names(stmt.columns@.take(i - 1))[k]);
                            }
                        }
                        assert(texts(columns@) =~= names(upto));
                    }
                }
                assert(stmt.columns@.take(i as int) =~= stmt.columns@);
                Ok(Action::CreateTable { file, table: table_name, columns })
            },
            NodeStmt::ListDatabases => Ok(Action::ListDatabases),
            NodeStmt::ListTables => {
                match &self.global_db_file {
                    Some(file) => Ok(Action::ListTables { file: file.clone() }),
                    None => Err(GenerateError::NoDatabaseSelected { listing: true }),
                }
            },
        }
    }

    /// The name that `expr` stands for.
    fn expr_to_string(&self, expr: &NodeExpr) -> (name: Result<String, &'static str>)
        ensures
            name is Ok,
            name->Ok_0@ == expr@,
    {
        match expr {
            NodeExpr::Identifier(NodeExprIdentifier { name }) => Ok(name.clone()),
        }
    }
}

/// Without a selected database no table is created: the statement fails,
/// nothing is asked of the shell, and still no database is selected.
pub proof fn lemma_table_needs_database(name: Seq<char>, columns: Seq<Seq<char>>)
    ensures
        asked(None, Statement::CreateTable { name, columns }) == Err::<Task, Failure>(
            Failure::NoDatabaseSelected { listing: false },
        ),
        selected_after(None, Statement::CreateTable { name, columns }) is None,
{
}

/// As long as no statement is a `USE`, no database is selected.
pub proof fn lemma_only_use_selects(statements: Seq<Statement>)
    requires
        forall|k: int| 0 <= k < statements.len() ==> !(#[trigger] statements[k] is UseDatabase),
    ensures
        selected_after_all(None, statements) is None,
    decreases statements.len(),
{
    if statements.len() > 0 {
        let earlier = statements.drop_last();
        assert forall|k: int| 0 <= k < earlier.len() implies !(#[trigger] earlier[k]
            is UseDatabase) by {
            assert(earlier[k] == statements[k]);
        }
        lemma_only_use_selects(earlier);
        assert(!(statements[statements.len() - 1] is UseDatabase));
    }
}

/// A `USE` selects its database, whatever was selected before, and the
/// selection holds until the next `USE`.
pub proof fn lemma_use_selects(selected: Option<Seq<char>>, name: Seq<char>, next: Statement)
    ensures
        selected_after(selected, Statement::UseDatabase { name }) == Some(catalog_file(name)),
        !(next is UseDatabase) ==> selected_after(Some(catalog_file(name)), next) == Some(
            catalog_file(name),
        ),
{
}

/// A new database is empty whatever came before: what is written for
/// `CREATE DATABASE` is the empty catalog, whichever database is selected,
/// and so also when the statement is given a second time.
pub proof fn lemma_create_database_overwrites(
    before: Option<Seq<char>>,
    after: Option<Seq<char>>,
    name: Seq<char>,
)
    ensures
        asked(before, Statement::CreateDatabase { name }) == asked(
            after,
            Statement::CreateDatabase { name },
        ),
        match asked(before, Statement::CreateDatabase { name }) {
            Ok(Task::CreateDatabase { database, file, contents }) => compact_text(empty_catalog())
                == Some(contents) && file == catalog_file(name),
            Ok(_) => false,
            Err(failure) => failure == Failure::Unwritable,
        },
{
}

} // verus!
