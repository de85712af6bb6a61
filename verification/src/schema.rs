//! The target table's name and the text of the statements that create and fill it.

use crate::policy::Mode;
use vstd::prelude::*;
use vstd::string::StringExecFns;

verus! {

/// The characters that a table name keeps: ASCII letters, ASCII digits and the underscore.
pub open spec fn is_identifier_char(c: char) -> bool {
    ||| 'a' <= c <= 'z'
    ||| 'A' <= c <= 'Z'
    ||| '0' <= c <= '9'
    ||| c == '_'
}

/// The character that stands in a table name for `c`.
pub open spec fn sanitized_char(c: char) -> char {
    if is_identifier_char(c) {
        c
    } else {
        '_'
    }
}

/// The table name for a topic: the topic's name with an underscore in place
/// of every character that a table name does not keep.
pub open spec fn sanitized(topic: Seq<char>) -> Seq<char> {
    topic.map_values(|c: char| sanitized_char(c))
}

/// Whether a table name keeps `c`.
pub fn keeps_char(c: char) -> (kept: bool)
    ensures
        kept == is_identifier_char(c),
{
    ('a' <= c && c <= 'z') || ('A' <= c && c <= 'Z') || ('0' <= c && c <= '9') || c == '_'
}

/// The name of the table that stores a topic.
pub fn sanitize_table_name(topic: &str) -> (name: String)
    ensures
        name@ == sanitized(topic@),
{
    let mut name = String::new();
    for c in it: topic.chars()
        invariant
            it.seq() == topic@,
            name@ == sanitized(topic@.take(it.index() as int)),
    {
        if keeps_char(c) {
            name.push(c);
        } else {
            name.push('_');
        }
        assert(topic@.take(it.index() + 1) == topic@.take(it.index() as int).push(c));
        assert(name@ == sanitized(topic@.take(it.index() + 1)));
    }
    assert(topic@.take(topic@.len() as int) == topic@);
    name
}

/// The constraint that compaction adds to the table: the key is unique, and
/// a row with a key that is there already takes the place of the older row.
pub open spec fn constraint_text(mode: Mode) -> Seq<char> {
    if mode == Mode::Compacted {
        ", unique (key) on conflict replace"@
    } else {
        Seq::<char>::empty()
    }
}

/// The statement that creates the table: four columns, and `(partition, offset)` as the primary key.
pub open spec fn create_table_text(table: Seq<char>, mode: Mode) -> Seq<char> {
    "create table "@ + table
        + " (partition integer, offset integer, key blob, value blob, primary key (partition, offset)"@
        + constraint_text(mode) + ")"@
}

/// The statement that stores one record; its parameters are partition, offset, key and value.
pub open spec fn insert_text(table: Seq<char>) -> Seq<char> {
    "insert into "@ + table + "(partition, offset, key, value) values(?, ?, ?, ?)"@
}

/// The statement that removes the rows of a key; its parameter is the key.
pub open spec fn delete_text(table: Seq<char>) -> Seq<char> {
    "delete from "@ + table + " where key = ?"@
}

/// The text of the statement that creates the table `table`.
pub fn create_table_sql(table: &str, mode: Mode) -> (sql: String)
    ensures
        sql@ == create_table_text(table@, mode),
{
    let mut sql = String::from_str("create table ");
    sql.append(table);
    sql.append(
        " (partition integer, offset integer, key blob, value blob, primary key (partition, offset)",
    );
    if mode.is_compacted() {
        sql.append(", unique (key) on conflict replace");
    }
    sql.append(")");
    sql
}

/// The text of the statement that stores one record in `table`.
pub fn insert_sql(table: &str) -> (sql: String)
    ensures
        sql@ == insert_text(table@),
{
    let mut sql = String::from_str("insert into ");
    sql.append(table);
    sql.append("(partition, offset, key, value) values(?, ?, ?, ?)");
    sql
}

/// The text of the statement that removes the rows of a key from `table`.
pub fn delete_sql(table: &str) -> (sql: String)
    ensures
        sql@ == delete_text(table@),
{
    let mut sql = String::from_str("delete from ");
    sql.append(table);
    sql.append(" where key = ?");
    sql
}

} // verus!
