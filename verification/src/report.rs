//! The reports of the two listing statements: a box of lines with a heading
//! and one row for each name.
//!
//! ```text
//! +--------------+
//! |  DATABASES   |
//! |  shop        |
//! |  warehouse   |
//! +--------------+
//! ```

use vstd::prelude::*;
use crate::catalog::{stored, table_names};
use crate::sorted::lists;
use crate::generator::{texts, Failure, GenerateError};
use crate::text::push_char;

verus! {

/// The database whose catalog the file `file_name` holds: the name in front
/// of the extension `json`. A file with another extension or with none, and
/// a file with nothing in front of the extension, holds no catalog.
pub open spec fn database_of(file_name: Seq<char>) -> Option<Seq<char>> {
    let n = file_name.len() as int;
    if n > 5 && file_name.subrange(n - 5, n) == ".json"@ {
        Some(file_name.subrange(0, n - 5))
    } else {
        None
    }
}

/// The databases among the files `file_names`, in the order of the files.
pub open spec fn databases_among(file_names: Seq<Seq<char>>) -> Seq<Seq<char>>
    decreases file_names.len(),
{
    if file_names.len() == 0 {
        Seq::empty()
    } else {
        let earlier = databases_among(file_names.drop_last());
        match database_of(file_names.last()) {
            Some(database) => earlier.push(database),
            None => earlier,
        }
    }
}

/// The length of `text` in bytes of UTF-8, as `str::len` gives it.
pub open spec fn byte_len(text: Seq<char>) -> nat {
    vstd::utf8::encode_utf8(text).len() as usize as nat
}

/// The greatest length in bytes among `names`; 0 where there is no name.
pub open spec fn widest(names: Seq<Seq<char>>) -> nat
    decreases names.len(),
{
    if names.len() == 0 {
        0
    } else {
        let earlier = widest(names.drop_last());
        if byte_len(names.last()) > earlier {
            byte_len(names.last())
        } else {
            earlier
        }
    }
}

/// The width of the column of names: that of the widest name, and 10 where
/// there is no name.
pub open spec fn column_width(names: Seq<Seq<char>>) -> nat {
    if names.len() == 0 {
        10
    } else {
        widest(names)
    }
}

/// The character `c`, `n` times.
pub open spec fn repeated(c: char, n: nat) -> Seq<char> {
    Seq::new(n, |i: int| c)
}

/// `text` with blanks on both sides up to `width` characters, the odd blank
/// on the right; `text` itself where it is as wide or wider.
pub open spec fn centered(text: Seq<char>, width: nat) -> Seq<char> {
    if text.len() >= width {
        text
    } else {
        let blanks = (width - text.len()) as nat;
        repeated(' ', blanks / 2) + text + repeated(' ', (blanks - blanks / 2) as nat)
    }
}

/// `text` with blanks behind it up to `width` characters; `text` itself where
/// it is as wide or wider.
pub open spec fn padded(text: Seq<char>, width: nat) -> Seq<char> {
    if text.len() >= width {
        text
    } else {
        text + repeated(' ', (width - text.len()) as nat)
    }
}

/// The line that opens and closes a report around a column of width `width`.
pub open spec fn rule(width: nat) -> Seq<char> {
    seq!['+'] + repeated('-', width + 4) + seq!['+']
}

/// The line that holds the title, centred in the box.
pub open spec fn heading(title: Seq<char>, width: nat) -> Seq<char> {
    seq!['|'] + centered(title, width + 4) + seq!['|']
}

/// The line of one name.
pub open spec fn row(name: Seq<char>, width: nat) -> Seq<char> {
    seq!['|', ' ', ' '] + padded(name, width) + seq![' ', ' ', '|']
}

/// The lines of a report of `names` under `title`.
pub open spec fn report(title: Seq<char>, names: Seq<Seq<char>>) -> Seq<Seq<char>> {
    let width = column_width(names);
    seq![rule(width), heading(title, width)] + names.map_values(|name: Seq<char>| row(name, width))
        + seq![rule(width)]
}

/// The database that a file of the working directory holds, if it holds one.
pub fn database_name(file_name: &str) -> (database: Option<String>)
    ensures
        match database {
            Some(name) => database_of(file_name@) == Some(name@),
            None => database_of(file_name@) is None,
        },
{
    let n = file_name.unicode_len();
    proof {
        reveal_strlit(".json");
    }
    if n > 5 && file_name.get_char(n - 5) == '.' && file_name.get_char(n - 4) == 'j'
        && file_name.get_char(n - 3) == 's' && file_name.get_char(n - 2) == 'o'
        && file_name.get_char(n - 1) == 'n' {
        assert(file_name@.subrange(n - 5, n as int) =~= ".json"@);
        Some(String::from_str(file_name.substring_char(0, n - 5)))
    } else {
        proof {
            if n > 5 {
                let ending = file_name@.subrange(n - 5, n as int);
                assert(ending[0] == file_name@[n - 5]);
                assert(ending[1] == file_name@[n - 4]);
                assert(ending[2] == file_name@[n - 3]);
                assert(ending[3] == file_name@[n - 2]);
                assert(ending[4] == file_name@[n - 1]);
            }
        }
        None
    }
}

/// The databases among the files of the working directory, in the order in
/// which the files are given.
pub fn database_names(file_names: &Vec<String>) -> (databases: Vec<String>)
    ensures
        texts(databases@) == databases_among(texts(file_names@)),
{
    let mut databases: Vec<String> = Vec::new();
    let mut i: usize = 0;
    assert(texts(file_names@).take(0) =~= Seq::empty());
    assert(texts(databases@) =~= Seq::empty());
    while i < file_names.len()
        invariant
            0 <= i <= file_names.len(),
            texts(databases@) == databases_among(texts(file_names@).take(i as int)),
        decreases file_names.len() - i,
    {
        let ghost earlier = texts(databases@);
        let ghost upto = texts(file_names@).take(i + 1);
        assert(upto.drop_last() =~= texts(file_names@).take(i as int));
        assert(upto.last() == file_names@[i as int]@);
        if let Some(database) = database_name(file_names[i].as_str()) {
            databases.push(database);
            assert(texts(databases@) =~= earlier.push(database@));
        }
        i += 1;
    }
    assert(texts(file_names@).take(i as int) =~= texts(file_names@));
    databases
}

/// Appends `c` to `line`, `n` times.
fn push_repeated(line: &mut String, c: char, n: usize)
    ensures
        final(line)@ == old(line)@ + repeated(c, n as nat),
{
    let mut i: usize = 0;
    assert(line@ =~= old(line)@ + repeated(c, 0));
    while i < n
        invariant
            0 <= i <= n,
            line@ == old(line)@ + repeated(c, i as nat),
        decreases n - i,
    {
        push_char(line, c);
        i += 1;
        assert(line@ =~= old(line)@ + repeated(c, i as nat));
    }
}

/// The width of the column for `names`.
fn width_for(names: &Vec<String>) -> (width: usize)
    ensures
        width == column_width(texts(names@)),
{
    if names.len() == 0 {
        return 10;
    }
    let mut width: usize = 0;
    let mut i: usize = 0;
    assert(texts(names@).take(0) =~= Seq::empty());
    while i < names.len()
        invariant
            0 <= i <= names.len(),
            width == widest(texts(names@).take(i as int)),
        decreases names.len() - i,
    {
        let ghost upto = texts(names@).take(i + 1);
        assert(upto.drop_last() =~= texts(names@).take(i as int));
        assert(upto.last() == names@[i as int]@);
        let len = names[i].as_str().len();
        if len > width {
            width = len;
        }
        i += 1;
    }
    assert(texts(names@).take(i as int) =~= texts(names@));
    width
}

/// The opening and closing line of a report.
fn rule_line(width: usize) -> (line: String)
    ensures
        line@ == rule(width as nat),
{
    let mut line = String::new();
    push_char(&mut line, '+');
    push_repeated(&mut line, '-', width);
    push_repeated(&mut line, '-', 4);
    push_char(&mut line, '+');
    assert(line@ =~= rule(width as nat));
    line
}

/// The line with the title of a report.
fn heading_line(title: &str, width: usize) -> (line: String)
    requires
        title@.len() >= 4,
    ensures
        line@ == heading(title@, width as nat),
{
    let shown = title.unicode_len();
    let mut line = String::new();
    push_char(&mut line, '|');
    if shown - 4 >= width {
        line.append(title);
    } else {
        let blanks = width - (shown - 4);
        let left = blanks / 2;
        push_repeated(&mut line, ' ', left);
        line.append(title);
        push_repeated(&mut line, ' ', blanks - left);
    }
    push_char(&mut line, '|');
    assert(line@ =~= heading(title@, width as nat));
    line
}

/// The line of one name in a report.
fn row_line(name: &str, width: usize) -> (line: String)
    ensures
        line@ == row(name@, width as nat),
{
    let shown = name.unicode_len();
    let mut line = String::new();
    push_char(&mut line, '|');
    push_char(&mut line, ' ');
    push_char(&mut line, ' ');
    line.append(name);
    if shown < width {
        push_repeated(&mut line, ' ', width - shown);
    }
    push_char(&mut line, ' ');
    push_char(&mut line, ' ');
    push_char(&mut line, '|');
    assert(line@ =~= row(name@, width as nat));
    line
}

/// The lines of a report of `names` under `title`.
fn report_lines(title: &str, names: &Vec<String>) -> (lines: Vec<String>)
    requires
        title@.len() >= 4,
    ensures
        texts(lines@) == report(title@, texts(names@)),
{
    let width = width_for(names);
    let mut lines: Vec<String> = Vec::new();
    lines.push(rule_line(width));
    lines.push(heading_line(title, width));
    let ghost top = seq![rule(width as nat), heading(title@, width as nat)];
    let ghost rows = texts(names@).map_values(|name: Seq<char>| row(name, width as nat));
    let mut i: usize = 0;
    assert(texts(lines@) =~= top + rows.take(0));
    while i < names.len()
        invariant
            0 <= i <= names.len(),
            top == seq![rule(width as nat), heading(title@, width as nat)],
            rows == texts(names@).map_values(|name: Seq<char>| row(name, width as nat)),
            texts(lines@) == top + rows.take(i as int),
        decreases names.len() - i,
    {
        let ghost earlier = texts(lines@);
        let line = row_line(names[i].as_str(), width);
        lines.push(line);
        i += 1;
        assert(texts(lines@) =~= earlier.push(line@));
        assert(rows[i - 1] == row(names@[i - 1]@, width as nat));
        assert(texts(lines@) =~= top + rows.take(i as int));
    }
    let ghost body = texts(lines@);
    lines.push(rule_line(width));
    assert(rows.take(i as int) =~= rows);
    assert(texts(lines@) =~= body.push(rule(width as nat)));
    assert(texts(lines@) =~= report(title@, texts(names@)));
    lines
}

/// The report of the databases `databases`, line by line.
pub fn databases_report(databases: &Vec<String>) -> (lines: Vec<String>)
    ensures
        texts(lines@) == report("DATABASES"@, texts(databases@)),
{
    proof {
        reveal_strlit("DATABASES");
    }
    report_lines("DATABASES", databases)
}

/// The report of the tables `tables`, line by line.
pub fn tables_report(tables: &Vec<String>) -> (lines: Vec<String>)
    ensures
        texts(lines@) == report("TABLES"@, texts(tables@)),
{
    proof {
        reveal_strlit("TABLES");
    }
    report_lines("TABLES", tables)
}

/// The report of the databases among the files of the working directory,
/// in the order in which the files are given.
pub fn list_databases(file_names: &Vec<String>) -> (lines: Vec<String>)
    ensures
        texts(lines@) == report("DATABASES"@, databases_among(texts(file_names@))),
{
    let databases = database_names(file_names);
    databases_report(&databases)
}

/// The report of the tables of a catalog, read from the bytes of its file:
/// each table once, in ascending order of the names.
pub fn list_tables(contents: &[u8]) -> (result: Result<Vec<String>, GenerateError>)
    ensures
        match result {
            Ok(lines) => stored(contents@) is Some && exists|tables: Seq<Seq<char>>|
                lists(tables, stored(contents@)->0.dom()) && texts(lines@) == #[trigger] report(
                    "TABLES"@,
                    tables,
                ),
            Err(error) => error@ == Failure::Malformed && stored(contents@) is None,
        },
{
    let tables = match table_names(contents) {
        Ok(tables) => tables,
        Err(error) => {
            return Err(error);
        },
    };
    let lines = tables_report(&tables);
    assert(texts(lines@) == report("TABLES"@, texts(tables@)));
    Ok(lines)
}

} // verus!
