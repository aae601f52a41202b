//! Catalog documents: one JSON object per database, from the name of each
//! table to `{"columns": [...], "rows": []}`.
//!
//! The functions here take the bytes of a catalog file and give back what is
//! to be written or shown. A file that is missing or empty stands for a
//! catalog without tables, and is handed over as no bytes at all.

use vstd::prelude::*;
use crate::generator::{texts, Failure, GenerateError};
use crate::json::{
    array_value, entries_of, json_of, new_object, object_insert, object_keys, object_value,
    parsed_object, pretty_text, read_object, string_value, write_pretty, Json,
};
use crate::sorted::{lists, text_before};

verus! {

/// The tables that a catalog file with the bytes `contents` holds, where it
/// holds a catalog.
pub open spec fn stored(contents: Seq<u8>) -> Option<Map<Seq<char>, Json>> {
    if contents.len() == 0 {
        Some(Map::empty())
    } else {
        parsed_object(contents)
    }
}

/// The columns of a table as JSON: the names as strings, in order.
pub open spec fn column_list(columns: Seq<Seq<char>>) -> Json {
    Json::Array(columns.map_values(|column: Seq<char>| Json::String(column)))
}

/// What a catalog holds for a table with the columns `columns`: the columns
/// in the order given, and no rows.
pub open spec fn table_descriptor(columns: Seq<Seq<char>>) -> Json {
    Json::Object(
        Map::empty().insert("columns"@, column_list(columns)).insert(
            "rows"@,
            Json::Array(Seq::empty()),
        ),
    )
}

/// The catalog `catalog` with the table `table` added, in place of a table
/// of that name if there was one.
pub open spec fn with_table(
    catalog: Map<Seq<char>, Json>,
    table: Seq<char>,
    columns: Seq<Seq<char>>,
) -> Map<Seq<char>, Json> {
    catalog.insert(table, table_descriptor(columns))
}

/// A table descriptor is an object of two entries: under `columns` the names
/// of the columns as strings, as many as were given and in the order given,
/// and under `rows` an array without items.
pub proof fn lemma_table_descriptor_shape(columns: Seq<Seq<char>>)
    ensures
        table_descriptor(columns) is Object,
        table_descriptor(columns)->Object_0.dom() =~= set!["columns"@, "rows"@],
        table_descriptor(columns)->Object_0["columns"@] is Array,
        table_descriptor(columns)->Object_0["columns"@]->Array_0.len() == columns.len(),
        forall|i: int|
            0 <= i < columns.len() ==> (#[trigger] table_descriptor(
                columns,
            )->Object_0["columns"@]->Array_0[i]) == Json::String(columns[i]),
        table_descriptor(columns)->Object_0["rows"@] == Json::Array(Seq::empty()),
{
    reveal_strlit("columns");
    reveal_strlit("rows");
    assert("columns"@ != "rows"@) by {
        assert("columns"@.len() == 7);
        assert("rows"@.len() == 4);
    }
}

/// After a table has been added, the catalog holds its descriptor under its
/// name, and under every other name what it held before.
pub proof fn lemma_added_table_is_stored(
    catalog: Map<Seq<char>, Json>,
    table: Seq<char>,
    columns: Seq<Seq<char>>,
)
    ensures
        with_table(catalog, table, columns).dom() =~= catalog.dom().insert(table),
        with_table(catalog, table, columns)[table] == table_descriptor(columns),
        forall|other: Seq<char>|
            other != table && catalog.dom().contains(other) ==> #[trigger] with_table(
                catalog,
                table,
                columns,
            )[other] == catalog[other],
{
}

/// Adding a table a second time changes nothing, and of two tables added
/// under one name the later one stays.
pub proof fn lemma_later_table_replaces(
    catalog: Map<Seq<char>, Json>,
    table: Seq<char>,
    earlier: Seq<Seq<char>>,
    later: Seq<Seq<char>>,
)
    ensures
        with_table(with_table(catalog, table, earlier), table, later) =~= with_table(
            catalog,
            table,
            later,
        ),
{
}

/// Reads a catalog from the bytes of its file.
fn read_database(contents: &[u8]) -> (read: Result<
    serde_json::Map<String, serde_json::Value>,
    GenerateError,
>)
    ensures
        match read {
            Ok(db) => stored(contents@) == Some(entries_of(db)),
            Err(error) => error@ == Failure::Malformed && stored(contents@) is None,
        },
{
    if contents.len() > 0 {
        match read_object(contents) {
            Ok(db) => Ok(db),
            Err(error) => Err(GenerateError::Malformed(error)),
        }
    } else {
        Ok(new_object())
    }
}

/// Writes a catalog as the text of its file.
fn write_database(db: &serde_json::Map<String, serde_json::Value>) -> (written: Result<
    String,
    GenerateError,
>)
    ensures
        match written {
            Ok(text) => pretty_text(entries_of(*db)) == Some(text@),
            Err(error) => error@ == Failure::Unwritable && pretty_text(entries_of(*db)) is None,
        },
{
    match write_pretty(db) {
        Ok(text) => Ok(text),
        Err(error) => Err(GenerateError::Unwritable(error)),
    }
}

/// The JSON value for a table with the columns `columns`.
fn describe_table(columns: &Vec<String>) -> (table: serde_json::Value)
    ensures
        json_of(table) == table_descriptor(texts(columns@)),
{
    let mut items: Vec<serde_json::Value> = Vec::new();
    let mut i: usize = 0;
    while i < columns.len()
        invariant
            0 <= i <= columns.len(),
            items@.len() == i,
            forall|k: int| 0 <= k < i ==> json_of(#[trigger] items@[k]) == Json::String(columns@[k]@),
        decreases columns.len() - i,
    {
        items.push(string_value(columns[i].clone()));
        i += 1;
    }
    let listed = array_value(items);
    assert(json_of(listed) == column_list(texts(columns@))) by {
        assert(items@.map_values(|item: serde_json::Value| json_of(item)) =~= texts(
            columns@,
        ).map_values(|column: Seq<char>| Json::String(column)));
    }
    let rows = array_value(Vec::new());
    assert(json_of(rows) == Json::Array(Seq::empty())) by {
        assert(Seq::<serde_json::Value>::empty().map_values(
            |item: serde_json::Value| json_of(item),
        ) =~= Seq::<Json>::empty());
    }
    let mut table = new_object();
    object_insert(&mut table, String::from_str("columns"), listed);
    object_insert(&mut table, String::from_str("rows"), rows);
    object_value(table)
}

/// Stores the table `table` in the catalog `db`, with its columns in the
/// order given and without rows. A table that the catalog held under that
/// name is replaced; every other entry stays as it was.
pub fn insert_table(
    db: &mut serde_json::Map<String, serde_json::Value>,
    table: String,
    columns: &Vec<String>,
)
    ensures
        entries_of(*final(db)) == with_table(entries_of(*old(db)), table@, texts(columns@)),
{
    let descriptor = describe_table(columns);
    object_insert(db, table, descriptor);
}

/// Adds a table to a catalog: reads the catalog from `contents`, stores the
/// table as [`insert_table`] does, and returns the text of the whole catalog
/// as it is to be written.
pub fn add_table(contents: &[u8], table: String, columns: &Vec<String>) -> (result: Result<
    String,
    GenerateError,
>)
    ensures
        match result {
            Ok(text) => stored(contents@) is Some && pretty_text(
                with_table(stored(contents@)->0, table@, texts(columns@)),
            ) == Some(text@),
            Err(error) => match error@ {
                Failure::Malformed => stored(contents@) is None,
                Failure::Unwritable => stored(contents@) is Some && pretty_text(
                    with_table(stored(contents@)->0, table@, texts(columns@)),
                ) is None,
                Failure::NoDatabaseSelected { listing } => false,
            },
        },
{
    let mut db = match read_database(contents) {
        Ok(db) => db,
        Err(error) => {
            return Err(error);
        },
    };
    insert_table(&mut db, table, columns);
    write_database(&db)
}

/// The names of the tables of a catalog, read from the bytes of its file:
/// each name once, in ascending order.
pub fn table_names(contents: &[u8]) -> (result: Result<Vec<String>, GenerateError>)
    ensures
        match result {
            Ok(tables) => stored(contents@) is Some && lists(
                texts(tables@),
                stored(contents@)->0.dom(),
            ),
            Err(error) => error@ == Failure::Malformed && stored(contents@) is None,
        },
{
    let db = match read_database(contents) {
        Ok(db) => db,
        Err(error) => {
            return Err(error);
        },
    };
    let tables = object_keys(&db);
    proof {
        let listing = texts(tables@);
        let held = entries_of(db).dom();
        assert forall|name: Seq<char>| held.contains(name) implies exists|i: int|
            0 <= i < listing.len() && #[trigger] listing[i] == name by {
            let i = choose|i: int| 0 <= i < tables.len() && (#[trigger] tables[i])@ == name;
            assert(listing[i] == name);
        }
        assert forall|name: Seq<char>|
            (exists|i: int| 0 <= i < listing.len() && #[trigger] listing[i] == name)
                implies held.contains(name) by {
            let i = choose|i: int| 0 <= i < listing.len() && #[trigger] listing[i] == name;
            assert(tables[i]@ == name);
        }
        assert forall|i: int, j: int| 0 <= i < j < listing.len() implies text_before(
            #[trigger] listing[i],
            #[trigger] listing[j],
        ) by {
            assert(text_before(tables[i]@, tables[j]@));
        }
    }
    Ok(tables)
}

} // verus!
