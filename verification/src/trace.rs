//! The trace line that is printed for each record.

use crate::record::Record;
use crate::text::{decimal, decimal_text, decode_lossy, lossy_text};
use vstd::prelude::*;
use vstd::string::StringExecFns;
use vstd::utf8::{decode_utf8, valid_utf8};

verus! {

/// The line for one record: topic, partition, offset and the value as text,
/// with one space between them.
pub open spec fn trace_text(topic: Seq<char>, partition: nat, offset: nat, value: Seq<char>) -> Seq<
    char,
> {
    topic + " "@ + decimal_text(partition) + " "@ + decimal_text(offset) + " "@ + value
}

/// Puts a trace line together from its four fields.
pub fn format_trace(topic: &str, partition: u32, offset: u64, value: &str) -> (line: String)
    ensures
        line@ == trace_text(topic@, partition as nat, offset as nat, value@),
{
    let mut line = String::from_str(topic);
    line.append(" ");
    line.append(decimal(partition as u64).as_str());
    line.append(" ");
    line.append(decimal(offset).as_str());
    line.append(" ");
    line.append(value);
    line
}

/// The trace line of a record of `topic`. The value is decoded as UTF-8 as
/// far as it goes; what is no UTF-8 is replaced and never rejected.
pub fn trace_line(topic: &str, record: &Record) -> (line: String)
    ensures
        line@ == trace_text(
            topic@,
            record@.partition,
            record@.offset,
            lossy_text(record@.value),
        ),
        valid_utf8(record@.value) ==> line@ == trace_text(
            topic@,
            record@.partition,
            record@.offset,
            decode_utf8(record@.value),
        ),
{
    let value = decode_lossy(record.value.as_slice());
    format_trace(topic, record.partition, record.offset, value.as_str())
}

} // verus!
