//! The shape that a JSON document must have to be one of the records, and
//! the decoding of a record from a document of that shape.

use crate::json::{member, spec_member, Json};
use crate::queries::{
    AggregationResult, AggregationResultView, Consistency, ConsistencyView, Event, EventResult,
    EventView,
};
use vstd::prelude::*;

verus! {

/// A JSON string as text; nothing else is text.
pub open spec fn spec_text(j: Json) -> Option<Seq<char>> {
    match j {
        Json::Text(s) => Some(s@),
        _ => None,
    }
}

/// A JSON number as a non-negative integer of at most `max`.
pub open spec fn spec_unsigned(j: Json, max: nat) -> Option<nat> {
    match j {
        Json::Number(n) => match n.unsigned {
            Some(u) => if u <= max {
                Some(u as nat)
            } else {
                None
            },
            None => None,
        },
        _ => None,
    }
}

/// A JSON number as an integer from `min` to `max`.
pub open spec fn spec_signed(j: Json, min: int, max: int) -> Option<int> {
    match j {
        Json::Number(n) => match n.signed {
            Some(i) => if min <= i <= max {
                Some(i as int)
            } else {
                None
            },
            None => None,
        },
        _ => None,
    }
}

/// Reads a value as text.
fn read_text(j: &Json) -> (r: Option<String>)
    ensures
        match r {
            Some(s) => spec_text(*j) == Some(s@),
            None => spec_text(*j).is_none(),
        },
{
    match j {
        Json::Text(s) => Some(s.clone()),
        _ => None,
    }
}

/// Reads a value as an integer that fits in 64 bits without sign.
fn read_u64(j: &Json) -> (r: Option<u64>)
    ensures
        match r {
            Some(u) => spec_unsigned(*j, u64::MAX as nat) == Some(u as nat),
            None => spec_unsigned(*j, u64::MAX as nat).is_none(),
        },
{
    match j {
        Json::Number(n) => n.unsigned,
        _ => None,
    }
}

/// Reads a value as an integer that fits in 64 bits with sign.
fn read_i64(j: &Json) -> (r: Option<i64>)
    ensures
        match r {
            Some(i) => spec_signed(*j, i64::MIN as int, i64::MAX as int) == Some(i as int),
            None => spec_signed(*j, i64::MIN as int, i64::MAX as int).is_none(),
        },
{
    match j {
        Json::Number(n) => n.signed,
        _ => None,
    }
}

/// Reads a value as an integer that fits in 32 bits without sign.
fn read_u32(j: &Json) -> (r: Option<u32>)
    ensures
        match r {
            Some(u) => spec_unsigned(*j, u32::MAX as nat) == Some(u as nat),
            None => spec_unsigned(*j, u32::MAX as nat).is_none(),
        },
{
    match read_u64(j) {
        Some(u) => if u <= 0xffff_ffffu64 {
            Some(u as u32)
        } else {
            None
        },
        None => None,
    }
}

/// Reads a value as an integer that fits in a `usize`.
fn read_usize(j: &Json) -> (r: Option<usize>)
    ensures
        match r {
            Some(u) => spec_unsigned(*j, usize::MAX as nat) == Some(u as nat),
            None => spec_unsigned(*j, usize::MAX as nat).is_none(),
        },
{
    match read_u64(j) {
        Some(u) => if u <= usize::MAX as u64 {
            Some(u as usize)
        } else {
            None
        },
        None => None,
    }
}

/// Reads a value as an integer that fits in 32 bits with sign.
fn read_i32(j: &Json) -> (r: Option<i32>)
    ensures
        match r {
            Some(i) => spec_signed(*j, i32::MIN as int, i32::MAX as int) == Some(i as int),
            None => spec_signed(*j, i32::MIN as int, i32::MAX as int).is_none(),
        },
{
    match read_i64(j) {
        Some(i) => if -0x8000_0000i64 <= i && i <= 0x7fff_ffffi64 {
            Some(i as i32)
        } else {
            None
        },
        None => None,
    }
}


/// A member that has to be there, as text.
pub open spec fn spec_text_field(m: Seq<(String, Json)>, name: Seq<char>) -> Option<Seq<char>> {
    match spec_member(m, name) {
        Some(v) => spec_text(v),
        None => None,
    }
}

/// A member that has to be there, as a non-negative integer of at most `max`.
pub open spec fn spec_unsigned_field(m: Seq<(String, Json)>, name: Seq<char>, max: nat) -> Option<
    nat,
> {
    match spec_member(m, name) {
        Some(v) => spec_unsigned(v, max),
        None => None,
    }
}

/// A member that has to be there, as an integer from `min` to `max`.
pub open spec fn spec_signed_field(
    m: Seq<(String, Json)>,
    name: Seq<char>,
    min: int,
    max: int,
) -> Option<int> {
    match spec_member(m, name) {
        Some(v) => spec_signed(v, min, max),
        None => None,
    }
}

/// Whether a member is left out or `null`, which reads as no value.
pub open spec fn spec_absent(m: Seq<(String, Json)>, name: Seq<char>) -> bool {
    spec_member(m, name) == None::<Json> || spec_member(m, name) == Some(Json::Null)
}

/// A member that may be left out, as text. The outer `None` is a member that
/// is there and is not text.
pub open spec fn spec_optional_text_field(m: Seq<(String, Json)>, name: Seq<char>) -> Option<
    Option<Seq<char>>,
> {
    if spec_absent(m, name) {
        Some(None)
    } else {
        match spec_text_field(m, name) {
            Some(t) => Some(Some(t)),
            None => None,
        }
    }
}

/// A member that may be left out, as a non-negative integer of at most `max`.
pub open spec fn spec_optional_unsigned_field(
    m: Seq<(String, Json)>,
    name: Seq<char>,
    max: nat,
) -> Option<Option<nat>> {
    if spec_absent(m, name) {
        Some(None)
    } else {
        match spec_unsigned_field(m, name, max) {
            Some(n) => Some(Some(n)),
            None => None,
        }
    }
}

/// A member that may be left out, as an integer from `min` to `max`.
pub open spec fn spec_optional_signed_field(
    m: Seq<(String, Json)>,
    name: Seq<char>,
    min: int,
    max: int,
) -> Option<Option<int>> {
    if spec_absent(m, name) {
        Some(None)
    } else {
        match spec_signed_field(m, name, min, max) {
            Some(n) => Some(Some(n)),
            None => None,
        }
    }
}

/// Looks a member up by a name given as a string slice.
fn find<'a>(m: &'a Vec<(String, Json)>, name: &str) -> (r: Option<&'a Json>)
    ensures
        match r {
            Some(v) => spec_member(m@, name@) == Some(*v),
            None => spec_member(m@, name@).is_none(),
        },
{
    let key = String::from_str(name);
    member(m, &key)
}

/// Looks a member up and takes `null` for a member that is left out.
fn find_present<'a>(m: &'a Vec<(String, Json)>, name: &str) -> (r: Option<&'a Json>)
    ensures
        match r {
            Some(v) => !spec_absent(m@, name@) && spec_member(m@, name@) == Some(*v),
            None => spec_absent(m@, name@),
        },
{
    match find(m, name) {
        Some(v) => match v {
            Json::Null => None,
            _ => Some(v),
        },
        None => None,
    }
}

/// Reads a member that has to be there as text.
fn text_field(m: &Vec<(String, Json)>, name: &str) -> (r: Option<String>)
    ensures
        match r {
            Some(s) => spec_text_field(m@, name@) == Some(s@),
            None => spec_text_field(m@, name@).is_none(),
        },
{
    match find(m, name) {
        Some(v) => read_text(v),
        None => None,
    }
}

/// Reads a member that has to be there as a `u32`.
fn u32_field(m: &Vec<(String, Json)>, name: &str) -> (r: Option<u32>)
    ensures
        match r {
            Some(u) => spec_unsigned_field(m@, name@, u32::MAX as nat) == Some(u as nat),
            None => spec_unsigned_field(m@, name@, u32::MAX as nat).is_none(),
        },
{
    match find(m, name) {
        Some(v) => read_u32(v),
        None => None,
    }
}

/// Reads a member that has to be there as an `i32`.
fn i32_field(m: &Vec<(String, Json)>, name: &str) -> (r: Option<i32>)
    ensures
        match r {
            Some(i) => spec_signed_field(m@, name@, i32::MIN as int, i32::MAX as int) == Some(
                i as int,
            ),
            None => spec_signed_field(m@, name@, i32::MIN as int, i32::MAX as int).is_none(),
        },
{
    match find(m, name) {
        Some(v) => read_i32(v),
        None => None,
    }
}

/// Reads a member that may be left out as text.
fn optional_text_field(m: &Vec<(String, Json)>, name: &str) -> (r: Option<Option<String>>)
    ensures
        match r {
            Some(Some(s)) => spec_optional_text_field(m@, name@) == Some(Some(s@)),
            Some(None) => spec_optional_text_field(m@, name@) == Some(None::<Seq<char>>),
            None => spec_optional_text_field(m@, name@).is_none(),
        },
{
    match find_present(m, name) {
        Some(v) => match read_text(v) {
            Some(s) => Some(Some(s)),
            None => None,
        },
        None => Some(None),
    }
}

/// Reads a member that may be left out as a `usize`.
fn optional_usize_field(m: &Vec<(String, Json)>, name: &str) -> (r: Option<Option<usize>>)
    ensures
        match r {
            Some(Some(u)) => spec_optional_unsigned_field(m@, name@, usize::MAX as nat) == Some(
                Some(u as nat),
            ),
            Some(None) => spec_optional_unsigned_field(m@, name@, usize::MAX as nat) == Some(
                None::<nat>,
            ),
            None => spec_optional_unsigned_field(m@, name@, usize::MAX as nat).is_none(),
        },
{
    match find_present(m, name) {
        Some(v) => match read_usize(v) {
            Some(u) => Some(Some(u)),
            None => None,
        },
        None => Some(None),
    }
}

/// Reads a member that may be left out as an `i64`.
fn optional_i64_field(m: &Vec<(String, Json)>, name: &str) -> (r: Option<Option<i64>>)
    ensures
        match r {
            Some(Some(i)) => spec_optional_signed_field(
                m@,
                name@,
                i64::MIN as int,
                i64::MAX as int,
            ) == Some(Some(i as int)),
            Some(None) => spec_optional_signed_field(m@, name@, i64::MIN as int, i64::MAX as int)
                == Some(None::<int>),
            None => spec_optional_signed_field(
                m@,
                name@,
                i64::MIN as int,
                i64::MAX as int,
            ).is_none(),
        },
{
    match find_present(m, name) {
        Some(v) => match read_i64(v) {
            Some(i) => Some(Some(i)),
            None => None,
        },
        None => Some(None),
    }
}


/// The ordering token that a document holds: an object with a text `key`
/// and a `value` that fits in 32 bits without sign. Other members are passed
/// over.
pub open spec fn spec_consistency(j: Json) -> Option<ConsistencyView> {
    match j {
        Json::Object(m) => match (
            spec_text_field(m@, "key"@),
            spec_unsigned_field(m@, "value"@, u32::MAX as nat),
        ) {
            (Some(key), Some(value)) => Some(ConsistencyView { key, value }),
            _ => None,
        },
        _ => None,
    }
}

/// The ordering token under `name`, which has to be there.
pub open spec fn spec_consistency_field(m: Seq<(String, Json)>, name: Seq<char>) -> Option<
    ConsistencyView,
> {
    match spec_member(m, name) {
        Some(v) => spec_consistency(v),
        None => None,
    }
}

/// The event that a document holds: an object with every member of an event
/// in its declared type, where `message_type`, `session_id` and
/// `timestamp_raw` may be left out or `null`. Other members are passed over.
pub open spec fn spec_event(j: Json) -> Option<EventView> {
    match j {
        Json::Object(m) => {
            let consistency = spec_consistency_field(m@, "consistency"@);
            let correlation_id = spec_unsigned_field(m@, "correlation_id"@, u32::MAX as nat);
            let event_type = spec_text_field(m@, "event_type"@);
            let message_type = spec_optional_text_field(m@, "message_type"@);
            let sender = spec_text_field(m@, "sender"@);
            let session_id = spec_optional_unsigned_field(m@, "session_id"@, usize::MAX as nat);
            let timestamp = spec_text_field(m@, "timestamp"@);
            let timestamp_raw = spec_optional_signed_field(
                m@,
                "timestamp_raw"@,
                i64::MIN as int,
                i64::MAX as int,
            );
            if consistency.is_some() && correlation_id.is_some() && event_type.is_some()
                && message_type.is_some() && sender.is_some() && session_id.is_some()
                && timestamp.is_some() && timestamp_raw.is_some() {
                Some(
                    EventView {
                        consistency: consistency.unwrap(),
                        correlation_id: correlation_id.unwrap(),
                        event_type: event_type.unwrap(),
                        message_type: message_type.unwrap(),
                        sender: sender.unwrap(),
                        session_id: session_id.unwrap(),
                        timestamp: timestamp.unwrap(),
                        timestamp_raw: timestamp_raw.unwrap(),
                    },
                )
            } else {
                None
            }
        },
        _ => None,
    }
}

/// The event in its envelope: an object whose member `events` is the event.
pub open spec fn spec_event_result(j: Json) -> Option<EventView> {
    match j {
        Json::Object(m) => match spec_member(m@, "events"@) {
            Some(v) => spec_event(v),
            None => None,
        },
        _ => None,
    }
}

/// The aggregation row that a document holds: an object with a text
/// `event_type` and an `event_count` that fits in 32 bits with sign.
pub open spec fn spec_aggregation(j: Json) -> Option<AggregationResultView> {
    match j {
        Json::Object(m) => match (
            spec_text_field(m@, "event_type"@),
            spec_signed_field(m@, "event_count"@, i32::MIN as int, i32::MAX as int),
        ) {
            (Some(event_type), Some(event_count)) => Some(
                AggregationResultView { event_type, event_count },
            ),
            _ => None,
        },
        _ => None,
    }
}

impl Consistency {
    /// Decodes an ordering token from a document.
    pub fn decode(j: &Json) -> (r: Option<Consistency>)
        ensures
            match r {
                Some(c) => spec_consistency(*j) == Some(c@),
                None => spec_consistency(*j).is_none(),
            },
    {
        match j {
            Json::Object(m) => {
                let key = match text_field(m, "key") {
                    Some(x) => x,
                    None => { return None; },
                };
                let value = match u32_field(m, "value") {
                    Some(x) => x,
                    None => { return None; },
                };
                Some(Consistency { key, value })
            },
            _ => None,
        }
    }
}

impl Event {
    /// Decodes an event from a document.
    pub fn decode(j: &Json) -> (r: Option<Event>)
        ensures
            match r {
                Some(e) => spec_event(*j) == Some(e@),
                None => spec_event(*j).is_none(),
            },
    {
        match j {
            Json::Object(m) => {
                let consistency = match find(m, "consistency") {
                    Some(v) => match Consistency::decode(v) {
                        Some(x) => x,
                        None => { return None; },
                    },
                    None => { return None; },
                };
                let correlation_id = match u32_field(m, "correlation_id") {
                    Some(x) => x,
                    None => { return None; },
                };
                let event_type = match text_field(m, "event_type") {
                    Some(x) => x,
                    None => { return None; },
                };
                let message_type = match optional_text_field(m, "message_type") {
                    Some(x) => x,
                    None => { return None; },
                };
                let sender = match text_field(m, "sender") {
                    Some(x) => x,
                    None => { return None; },
                };
                let session_id = match optional_usize_field(m, "session_id") {
                    Some(x) => x,
                    None => { return None; },
                };
                let timestamp = match text_field(m, "timestamp") {
                    Some(x) => x,
                    None => { return None; },
                };
                let timestamp_raw = match optional_i64_field(m, "timestamp_raw") {
                    Some(x) => x,
                    None => { return None; },
                };
                Some(
                    Event {
                        consistency,
                        correlation_id,
                        event_type,
                        message_type,
                        sender,
                        session_id,
                        timestamp,
                        timestamp_raw,
                    },
                )
            },
            _ => None,
        }
    }
}

impl EventResult {
    /// Decodes an event in its envelope from a document.
    pub fn decode(j: &Json) -> (r: Option<EventResult>)
        ensures
            match r {
                Some(e) => spec_event_result(*j) == Some(e@),
                None => spec_event_result(*j).is_none(),
            },
    {
        match j {
            Json::Object(m) => match find(m, "events") {
                Some(v) => match Event::decode(v) {
                    Some(events) => Some(EventResult { events }),
                    None => None,
                },
                None => None,
            },
            _ => None,
        }
    }
}

impl AggregationResult {
    /// Decodes an aggregation row from a document.
    pub fn decode(j: &Json) -> (r: Option<AggregationResult>)
        ensures
            match r {
                Some(a) => spec_aggregation(*j) == Some(a@),
                None => spec_aggregation(*j).is_none(),
            },
    {
        match j {
            Json::Object(m) => {
                let event_type = match text_field(m, "event_type") {
                    Some(x) => x,
                    None => { return None; },
                };
                let event_count = match i32_field(m, "event_count") {
                    Some(x) => x,
                    None => { return None; },
                };
                Some(AggregationResult { event_type, event_count })
            },
            _ => None,
        }
    }
}

} // verus!
