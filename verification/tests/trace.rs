use topic_dump::record::Record;
use topic_dump::text::decimal;
use topic_dump::trace::{format_trace, trace_line};

#[test]
fn numbers_are_written_in_decimal() {
    assert_eq!(decimal(0), "0");
    assert_eq!(decimal(7), "7");
    assert_eq!(decimal(10), "10");
    assert_eq!(decimal(507), "507");
    assert_eq!(decimal(1_000_000), "1000000");
    assert_eq!(decimal(u64::MAX), "18446744073709551615");
}

#[test]
fn the_fields_of_a_trace_line_are_separated_by_one_space() {
    assert_eq!(format_trace("orders", 3, 42, "hello"), "orders 3 42 hello");
    assert_eq!(format_trace("t", 0, 0, ""), "t 0 0 ");
    assert_eq!(
        format_trace("t", u32::MAX, u64::MAX, "x y"),
        "t 4294967295 18446744073709551615 x y"
    );
}

#[test]
fn the_trace_line_of_a_record_shows_its_value_as_text() {
    let record = Record::new(1, 5, b"k".to_vec(), "gr\u{fc}n".as_bytes().to_vec());
    assert_eq!(trace_line("colors", &record), "colors 1 5 gr\u{fc}n");
}

#[test]
fn the_trace_line_of_a_tombstone_ends_after_the_last_space() {
    let record = Record::new(2, 9, b"k".to_vec(), Vec::new());
    assert_eq!(trace_line("colors", &record), "colors 2 9 ");
}

#[test]
fn bytes_that_are_no_text_are_replaced_in_the_trace_line() {
    let record = Record::new(0, 1, Vec::new(), vec![b'a', 0xff, b'b']);
    assert_eq!(trace_line("t", &record), "t 0 1 a\u{fffd}b");
    let cut = Record::new(0, 2, Vec::new(), vec![0xe2, 0x82]);
    assert_eq!(trace_line("t", &cut), "t 0 2 \u{fffd}");
}
