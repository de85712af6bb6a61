use topic_dump::policy::Mode;
use topic_dump::schema::{
    create_table_sql, delete_sql, insert_sql, keeps_char, sanitize_table_name,
};

#[test]
fn dots_in_a_topic_become_underscores() {
    assert_eq!(sanitize_table_name("my.topic.v1"), "my_topic_v1");
}

#[test]
fn every_character_that_is_no_identifier_character_becomes_an_underscore() {
    assert_eq!(sanitize_table_name("a-b c;d\"e'f"), "a_b_c_d_e_f");
    assert_eq!(sanitize_table_name("caf\u{e9}"), "caf_");
}

#[test]
fn a_clean_topic_is_its_own_table_name() {
    assert_eq!(sanitize_table_name("Orders_2024"), "Orders_2024");
    assert_eq!(sanitize_table_name(""), "");
}

#[test]
fn sanitizing_twice_changes_nothing_more() {
    let once = sanitize_table_name("a.b-c");
    assert_eq!(sanitize_table_name(&once), once);
}

#[test]
fn identifier_characters_are_letters_digits_and_underscore() {
    for c in ['a', 'z', 'A', 'Z', '0', '9', '_'] {
        assert!(keeps_char(c));
    }
    for c in ['.', '-', ' ', '/', ':', '@', '[', '`', '{', '\u{e9}'] {
        assert!(!keeps_char(c));
    }
}

#[test]
fn the_plain_table_has_four_columns_and_the_position_as_its_key() {
    assert_eq!(
        create_table_sql("events", Mode::Plain),
        "create table events (partition integer, offset integer, key blob, value blob, primary key (partition, offset))"
    );
}

#[test]
fn the_compacted_table_replaces_on_a_key_that_is_there() {
    assert_eq!(
        create_table_sql("events", Mode::Compacted),
        "create table events (partition integer, offset integer, key blob, value blob, primary key (partition, offset), unique (key) on conflict replace)"
    );
}

#[test]
fn the_insert_statement_takes_four_parameters() {
    assert_eq!(
        insert_sql("events"),
        "insert into events(partition, offset, key, value) values(?, ?, ?, ?)"
    );
}

#[test]
fn the_delete_statement_takes_the_key() {
    assert_eq!(delete_sql("events"), "delete from events where key = ?");
}
