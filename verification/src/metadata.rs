//! Identifying metadata of one event-log file.
//!
//! The application opens a candidate file through the external record parser
//! and hands the library the decoded records in order, each either a tree
//! or nothing when that record failed to decode. The library picks the first
//! record that decoded, reads the source channel and the originating host
//! out of it, and builds the descriptor. A file in which no record decodes
//! yields no descriptor at all, never one with placeholder values.

use vstd::prelude::*;
use crate::json_tree::{spec_extract_json_field, extract_json_field, JsonValue};

verus! {

/// The descriptor of one event-log file: its source channel, the host it
/// came from, and the path it was read from.
pub struct EventLog {
    pub event_log_type: String,
    pub host_name: String,
    pub event_log_path: String,
}

/// The dotted path of the source channel inside a record.
pub fn event_channel_path() -> (r: &'static str)
    ensures
        r@ == "Event.System.Channel"@,
{
    "Event.System.Channel"
}

/// The dotted path of the originating host inside a record.
pub fn event_host_path() -> (r: &'static str)
    ensures
        r@ == "Event.System.Computer"@,
{
    "Event.System.Computer"
}

/// The field stored under `path` in `v`, or the literal `"Unknown"` when the
/// lookup finds no string leaf there.
pub open spec fn spec_field_or_unknown(v: JsonValue, path: Seq<char>) -> Seq<char> {
    match spec_extract_json_field(v, path) {
        Option::Some(s) => s,
        Option::None => "Unknown"@,
    }
}

/// Reads one field of a record, defaulting to `"Unknown"` when it is absent.
pub fn field_or_unknown(record: &JsonValue, path: &str) -> (r: String)
    ensures
        r@ == spec_field_or_unknown(*record, path@),
{
    match extract_json_field(record, path) {
        Option::Some(s) => s,
        Option::None => "Unknown".to_owned(),
    }
}

/// The first record of the sequence that decoded, if any did.
pub open spec fn spec_first_parsed(records: Seq<Option<JsonValue>>) -> Option<JsonValue>
    decreases records.len(),
{
    if records.len() == 0 {
        Option::None
    } else {
        match records[0] {
            Option::Some(v) => Option::Some(v),
            Option::None => spec_first_parsed(records.skip(1)),
        }
    }
}

/// Whether `log` is the descriptor that the record `v`, read at
/// `path`, gives rise to: channel and host looked up independently, each
/// defaulting to `"Unknown"` on its own.
pub open spec fn spec_descriptor_of(log: EventLog, v: JsonValue, path: Seq<char>) -> bool {
    &&& log.event_log_type@ == spec_field_or_unknown(v, "Event.System.Channel"@)
    &&& log.host_name@ == spec_field_or_unknown(v, "Event.System.Computer"@)
    &&& log.event_log_path@ == path
}

/// Builds the descriptor of the file at `input_path` out of one decoded
/// record.
pub fn descriptor_from_record(input_path: &str, record: &JsonValue) -> (r: EventLog)
    ensures
        spec_descriptor_of(r, *record, input_path@),
{
    EventLog {
        event_log_type: field_or_unknown(record, event_channel_path()),
        host_name: field_or_unknown(record, event_host_path()),
        event_log_path: input_path.to_owned(),
    }
}

/// Extracts the descriptor of the file at `input_path` from its decoded
/// records: the first record that decoded supplies both fields, and a file
/// in which none decoded yields no descriptor.
pub fn get_event_log(input_path: &str, records: Vec<Option<JsonValue>>) -> (r: Option<EventLog>)
    ensures
        r is Some <==> spec_first_parsed(records@) is Some,
        r matches Some(log) ==> spec_first_parsed(records@) matches Some(v)
            && spec_descriptor_of(log, v, input_path@),
{
    let n = records.len();
    let mut j: usize = 0;
    proof {
        assert(records@.skip(0) =~= records@);
    }
    while j < n
        invariant
            0 <= j <= n == records@.len(),
            spec_first_parsed(records@) == spec_first_parsed(records@.skip(j as int)),
        decreases n - j,
    {
        proof {
            assert(records@.skip(j as int)[0] == records@[j as int]);
            assert(records@.skip(j as int).skip(1) =~= records@.skip(j as int + 1));
        }
        match &records[j] {
            Option::Some(v) => {
                return Option::Some(descriptor_from_record(input_path, v));
            },
            Option::None => {
                j += 1;
            },
        }
    }
    Option::None
}

} // verus!
