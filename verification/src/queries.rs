//! The four analytical queries: the records that they answer with, and the
//! collecting of those records from the rows that the store sends.

use crate::decode::{spec_aggregation, spec_event_result};
use crate::json::{parse_json, parsed_json};
use vstd::prelude::*;
use vstd::utf8::{decode_utf8, valid_utf8};

verus! {

/// One row of the count of events by type.
#[derive(Clone, Debug, PartialEq, Eq)]
pub struct AggregationResult {
    pub event_type: String,
    pub event_count: i32,
}

/// The ordering token of an event: the group it is read in, and its place
/// within that group.
#[derive(Clone, Debug, PartialEq, Eq)]
pub struct Consistency {
    pub key: String,
    pub value: u32,
}

/// One entry of the event log.
#[derive(Clone, Debug, PartialEq, Eq)]
pub struct Event {
    pub consistency: Consistency,
    pub correlation_id: u32,
    pub event_type: String,
    pub message_type: Option<String>,
    pub sender: String,
    pub session_id: Option<usize>,
    pub timestamp: String,
    pub timestamp_raw: Option<i64>,
}

/// The envelope of a selected row: the store puts the event under a field
/// named after the bucket.
#[derive(Clone, Debug, PartialEq, Eq)]
pub struct EventResult {
    pub events: Event,
}

/// What the row stream of a query hands out, item by item.
#[derive(Clone, Debug, PartialEq, Eq)]
pub enum QueryRow {
    /// Diagnostic information about the query's execution.
    Meta(String),
    /// A record, as the bytes of a JSON text.
    Row(Vec<u8>),
    /// The stream broke off with a transport error.
    Failed,
}

/// The one error of the four operations.
#[derive(Clone, Copy, Debug, PartialEq, Eq, Structural)]
pub enum QueryError {
    /// The stream failed, or a row did not have the expected shape.
    QueryFailed,
}

/// An aggregation row as mathematics.
pub struct AggregationResultView {
    pub event_type: Seq<char>,
    pub event_count: int,
}

/// An ordering token as mathematics.
pub struct ConsistencyView {
    pub key: Seq<char>,
    pub value: nat,
}

/// An event as mathematics: texts as sequences of characters, numbers
/// without bounds.
pub struct EventView {
    pub consistency: ConsistencyView,
    pub correlation_id: nat,
    pub event_type: Seq<char>,
    pub message_type: Option<Seq<char>>,
    pub sender: Seq<char>,
    pub session_id: Option<nat>,
    pub timestamp: Seq<char>,
    pub timestamp_raw: Option<int>,
}

impl View for AggregationResult {
    type V = AggregationResultView;

    open spec fn view(&self) -> AggregationResultView {
        AggregationResultView {
            event_type: self.event_type@,
            event_count: self.event_count as int,
        }
    }
}

impl View for Consistency {
    type V = ConsistencyView;

    open spec fn view(&self) -> ConsistencyView {
        ConsistencyView { key: self.key@, value: self.value as nat }
    }
}

impl View for Event {
    type V = EventView;

    open spec fn view(&self) -> EventView {
        EventView {
            consistency: self.consistency@,
            correlation_id: self.correlation_id as nat,
            event_type: self.event_type@,
            message_type: match self.message_type {
                Some(s) => Some(s@),
                None => None,
            },
            sender: self.sender@,
            session_id: match self.session_id {
                Some(n) => Some(n as nat),
                None => None,
            },
            timestamp: self.timestamp@,
            timestamp_raw: match self.timestamp_raw {
                Some(n) => Some(n as int),
                None => None,
            },
        }
    }
}

impl View for EventResult {
    type V = EventView;

    open spec fn view(&self) -> EventView {
        self.events@
    }
}

/// The event that the text of a data row holds, `None` where the text is no
/// JSON or the document is no event in its envelope.
pub open spec fn spec_event_row(text: Seq<char>) -> Option<EventView> {
    match parsed_json(text) {
        Some(j) => spec_event_result(j),
        None => None,
    }
}

/// The aggregation row that the text of a data row holds.
pub open spec fn spec_aggregation_row(text: Seq<char>) -> Option<AggregationResultView> {
    match parsed_json(text) {
        Some(j) => spec_aggregation(j),
        None => None,
    }
}

/// The event that the bytes of a data row hold, `None` where they are no
/// UTF-8 or their text holds no event.
pub open spec fn spec_event_bytes(bytes: Seq<u8>) -> Option<EventView> {
    if valid_utf8(bytes) {
        spec_event_row(decode_utf8(bytes))
    } else {
        None
    }
}

/// The aggregation row that the bytes of a data row hold.
pub open spec fn spec_aggregation_bytes(bytes: Seq<u8>) -> Option<AggregationResultView> {
    if valid_utf8(bytes) {
        spec_aggregation_row(decode_utf8(bytes))
    } else {
        None
    }
}

/// Whether a row makes the whole operation fail: a transport error, or a
/// data row that `decode` rejects.
pub open spec fn spec_row_fails<T>(row: QueryRow, decode: spec_fn(Seq<u8>) -> Option<T>) -> bool {
    match row {
        QueryRow::Failed => true,
        QueryRow::Row(t) => decode(t@).is_none(),
        QueryRow::Meta(_) => false,
    }
}

/// The records of a stream: every data row decoded, in the order of the
/// stream, with the meta rows passed over; `None` where a row fails.
pub open spec fn spec_collect<T>(
    rows: Seq<QueryRow>,
    decode: spec_fn(Seq<u8>) -> Option<T>,
) -> Option<Seq<T>>
    decreases rows.len(),
{
    if rows.len() == 0 {
        Some(Seq::empty())
    } else {
        match rows[0] {
            QueryRow::Failed => None,
            QueryRow::Meta(_) => spec_collect(rows.drop_first(), decode),
            QueryRow::Row(t) => match decode(t@) {
                Some(x) => spec_prepend(seq![x], spec_collect(rows.drop_first(), decode)),
                None => None,
            },
        }
    }
}

/// `head` in front of the records in `tail`, where there are any.
pub open spec fn spec_prepend<T>(head: Seq<T>, tail: Option<Seq<T>>) -> Option<Seq<T>> {
    match tail {
        Some(s) => Some(head + s),
        None => None,
    }
}

/// A record that a data row of a query holds.
pub trait RowRecord: View + Sized {
    /// The record that the bytes of a data row hold, `None` where they hold
    /// none.
    spec fn spec_of_bytes(bytes: Seq<u8>) -> Option<Self::V>;

    /// Decodes the bytes of one data row.
    fn of_bytes(bytes: &[u8]) -> (r: Option<Self>)
        ensures
            match r {
                Some(x) => Self::spec_of_bytes(bytes@) == Some(x@),
                None => Self::spec_of_bytes(bytes@).is_none(),
            },
    ;
}

impl RowRecord for Event {
    open spec fn spec_of_bytes(bytes: Seq<u8>) -> Option<EventView> {
        spec_event_bytes(bytes)
    }

    fn of_bytes(bytes: &[u8]) -> (r: Option<Event>) {
        match text_of_bytes(bytes) {
            Ok(text) => decode_event_row(text),
            Err(_) => None,
        }
    }
}

impl RowRecord for AggregationResult {
    open spec fn spec_of_bytes(bytes: Seq<u8>) -> Option<AggregationResultView> {
        spec_aggregation_bytes(bytes)
    }

    fn of_bytes(bytes: &[u8]) -> (r: Option<AggregationResult>) {
        match text_of_bytes(bytes) {
            Ok(text) => decode_aggregation_row(text),
            Err(_) => None,
        }
    }
}

/// The records of kind `R` of a stream.
pub open spec fn spec_records<R: RowRecord>(rows: Seq<QueryRow>) -> Option<Seq<R::V>> {
    spec_collect(rows, |b: Seq<u8>| R::spec_of_bytes(b))
}

/// The events of a stream.
pub open spec fn spec_events(rows: Seq<QueryRow>) -> Option<Seq<EventView>> {
    spec_records::<Event>(rows)
}

/// The aggregation rows of a stream.
pub open spec fn spec_aggregations(rows: Seq<QueryRow>) -> Option<Seq<AggregationResultView>> {
    spec_records::<AggregationResult>(rows)
}

/// The views of a sequence of records, one for one.
pub open spec fn record_views<R: View>(v: Seq<R>) -> Seq<R::V> {
    Seq::new(v.len(), |i: int| v[i]@)
}

/// Decodes the text of one data row of an event query.
pub fn decode_event_row(text: &str) -> (r: Option<Event>)
    ensures
        match r {
            Some(e) => spec_event_row(text@) == Some(e@),
            None => spec_event_row(text@).is_none(),
        },
{
    match parse_json(text) {
        Some(j) => match EventResult::decode(&j) {
            Some(e) => Some(e.events),
            None => None,
        },
        None => None,
    }
}

/// Decodes the text of one data row of the aggregation query.
pub fn decode_aggregation_row(text: &str) -> (r: Option<AggregationResult>)
    ensures
        match r {
            Some(a) => spec_aggregation_row(text@) == Some(a@),
            None => spec_aggregation_row(text@).is_none(),
        },
{
    match parse_json(text) {
        Some(j) => AggregationResult::decode(&j),
        None => None,
    }
}

/// The error of `std::str::from_utf8`, which verified code only tells from a
/// success.
#[verifier::external_type_specification]
#[verifier::external_body]
pub struct ExUtf8Error(std::str::Utf8Error);

/// Calls `std::str::from_utf8`, which returns the text that the bytes
/// encode where they are valid UTF-8, and an error where they are not.
#[verifier::external_body]
fn text_of_bytes(bytes: &[u8]) -> (r: Result<&str, std::str::Utf8Error>)
    ensures
        match r {
            Ok(text) => valid_utf8(bytes@) && text@ == decode_utf8(bytes@),
            Err(_) => !valid_utf8(bytes@),
        },
{
    std::str::from_utf8(bytes)
}

/// Collects the records of a stream, in its order; fails as a whole on the
/// first row that fails.
fn collect<R: RowRecord>(rows: &Vec<QueryRow>) -> (r: Result<Vec<R>, QueryError>)
    ensures
        match r {
            Ok(v) => spec_records::<R>(rows@) == Some(record_views(v@)),
            Err(e) => e == QueryError::QueryFailed && spec_records::<R>(rows@).is_none(),
        },
{
    let mut out: Vec<R> = Vec::new();
    let mut i: usize = 0;
    assert(rows@.skip(0) =~= rows@);
    assert(record_views(out@) + spec_records::<R>(rows@).unwrap() =~= spec_records::<R>(
        rows@,
    ).unwrap());
    while i < rows.len()
        invariant
            i <= rows.len(),
            spec_records::<R>(rows@) == spec_prepend(
                record_views(out@),
                spec_records::<R>(rows@.skip(i as int)),
            ),
        decreases rows.len() - i,
    {
        let ghost rest = rows@.skip(i as int);
        let ghost before = record_views(out@);
        assert(rest[0] == rows@[i as int]);
        assert(rest.drop_first() =~= rows@.skip(i + 1));
        match &rows[i] {
            QueryRow::Failed => {
                return Err(QueryError::QueryFailed);
            },
            QueryRow::Meta(_) => {},
            QueryRow::Row(bytes) => {
                match R::of_bytes(bytes.as_slice()) {
                    Some(x) => {
                        out.push(x);
                        proof {
                            assert(record_views(out@) =~= before.push(x@));
                            let tail = spec_records::<R>(rows@.skip(i + 1));
                            if tail.is_some() {
                                assert(before + (seq![x@] + tail.unwrap()) =~= before.push(x@)
                                    + tail.unwrap());
                            }
                        }
                    },
                    None => {
                        return Err(QueryError::QueryFailed);
                    },
                }
            },
        }
        i += 1;
    }
    assert(record_views(out@) + Seq::<R::V>::empty() =~= record_views(out@));
    Ok(out)
}

/// Collects the rows of the aggregation query, in the order of the stream;
/// the store has put them in descending order of `event_count`. The
/// operation fails as a whole on the first row that fails.
pub fn make_aggregations_of_event_types(rows: &Vec<QueryRow>) -> (r: Result<
    Vec<AggregationResult>,
    QueryError,
>)
    ensures
        match r {
            Ok(v) => spec_aggregations(rows@) == Some(record_views(v@)),
            Err(e) => e == QueryError::QueryFailed && spec_aggregations(rows@).is_none(),
        },
{
    collect(rows)
}

/// Collects the events that answer the query for the latest events, in the
/// order of the stream; the store has put them in descending order of
/// `timestamp_raw` and cut them off at the limit. The operation fails as a
/// whole on the first row that fails.
pub fn get_last_n_events(rows: &Vec<QueryRow>) -> (r: Result<Vec<Event>, QueryError>)
    ensures
        match r {
            Ok(v) => spec_events(rows@) == Some(record_views(v@)),
            Err(e) => e == QueryError::QueryFailed && spec_events(rows@).is_none(),
        },
{
    collect(rows)
}

/// Collects the events that answer the query by consistency key, in the
/// order of the stream; the store has put them in ascending order of
/// `consistency.value`. The operation fails as a whole on the first row that
/// fails.
pub fn get_events_for_consistency_key(rows: &Vec<QueryRow>) -> (r: Result<Vec<Event>, QueryError>)
    ensures
        match r {
            Ok(v) => spec_events(rows@) == Some(record_views(v@)),
            Err(e) => e == QueryError::QueryFailed && spec_events(rows@).is_none(),
        },
{
    collect(rows)
}

/// Collects the events that answer the query by correlation id, in the
/// order of the stream; the store has put them in ascending order of
/// `timestamp_raw`. The operation fails as a whole on the first row that
/// fails.
pub fn get_events_for_correlation_id(rows: &Vec<QueryRow>) -> (r: Result<Vec<Event>, QueryError>)
    ensures
        match r {
            Ok(v) => spec_events(rows@) == Some(record_views(v@)),
            Err(e) => e == QueryError::QueryFailed && spec_events(rows@).is_none(),
        },
{
    collect(rows)
}


/// The records of two streams, one after the other, are the records of the
/// first followed by the records of the second, and there are none where
/// either fails: the records come out in the order of the rows, none left
/// out, none twice.
pub proof fn lemma_collect_concat<T>(
    a: Seq<QueryRow>,
    b: Seq<QueryRow>,
    decode: spec_fn(Seq<u8>) -> Option<T>,
)
    ensures
        spec_collect(a + b, decode) == match spec_collect(a, decode) {
            Some(x) => spec_prepend(x, spec_collect(b, decode)),
            None => None,
        },
    decreases a.len(),
{
    if a.len() == 0 {
        assert(a + b =~= b);
        if spec_collect(b, decode).is_some() {
            assert(Seq::<T>::empty() + spec_collect(b, decode).unwrap() =~= spec_collect(
                b,
                decode,
            ).unwrap());
        }
    } else {
        assert((a + b)[0] == a[0]);
        assert((a + b).drop_first() =~= a.drop_first() + b);
        lemma_collect_concat(a.drop_first(), b, decode);
        match a[0] {
            QueryRow::Row(t) => {
                let first = decode(t@);
                let rest = spec_collect(a.drop_first(), decode);
                let tail = spec_collect(b, decode);
                if first.is_some() && rest.is_some() && tail.is_some() {
                    assert(seq![first.unwrap()] + (rest.unwrap() + tail.unwrap()) =~= (seq![
                        first.unwrap(),
                    ] + rest.unwrap()) + tail.unwrap());
                }
            },
            _ => {},
        }
    }
}

/// An operation fails exactly where some row of the stream fails: one row
/// that does not decode, or one transport error, anywhere in the stream,
/// leaves no records at all.
pub proof fn lemma_collect_fails_iff<T>(
    rows: Seq<QueryRow>,
    decode: spec_fn(Seq<u8>) -> Option<T>,
)
    ensures
        spec_collect(rows, decode).is_none() <==> exists|i: int|
            0 <= i < rows.len() && spec_row_fails(#[trigger] rows[i], decode),
    decreases rows.len(),
{
    if rows.len() > 0 {
        let rest = rows.drop_first();
        lemma_collect_fails_iff(rest, decode);
        if spec_row_fails(rows[0], decode) {
        } else if spec_collect(rest, decode).is_none() {
            let i = choose|i: int| 0 <= i < rest.len() && spec_row_fails(#[trigger] rest[i], decode);
            assert(rows[i + 1] == rest[i]);
        } else {
            assert forall|i: int| 0 <= i < rows.len() implies !spec_row_fails(
                #[trigger] rows[i],
                decode,
            ) by {
                if i > 0 {
                    assert(rows[i] == rest[i - 1]);
                }
            }
        }
    }
}

/// A stream without data rows, the empty stream first of all, is a success
/// with no records, which is not a failure.
pub proof fn lemma_collect_without_data<T>(
    rows: Seq<QueryRow>,
    decode: spec_fn(Seq<u8>) -> Option<T>,
)
    requires
        forall|i: int| 0 <= i < rows.len() ==> #[trigger] rows[i] is Meta,
    ensures
        spec_collect(rows, decode) == Some(Seq::<T>::empty()),
    decreases rows.len(),
{
    if rows.len() > 0 {
        let rest = rows.drop_first();
        assert forall|i: int| 0 <= i < rest.len() implies #[trigger] rest[i] is Meta by {
            assert(rest[i] == rows[i + 1]);
        }
        lemma_collect_without_data(rest, decode);
        assert(rows[0] is Meta);
    }
}

/// The three laws above, of the records of one kind: of the events of a
/// stream, and of its aggregation rows.
pub proof fn lemma_records<R: RowRecord>(a: Seq<QueryRow>, b: Seq<QueryRow>)
    ensures
        spec_records::<R>(a + b) == match spec_records::<R>(a) {
            Some(x) => spec_prepend(x, spec_records::<R>(b)),
            None => None,
        },
        spec_records::<R>(a).is_none() <==> exists|i: int|
            0 <= i < a.len() && match #[trigger] a[i] {
                QueryRow::Failed => true,
                QueryRow::Row(t) => R::spec_of_bytes(t@).is_none(),
                QueryRow::Meta(_) => false,
            },
        (forall|i: int| 0 <= i < a.len() ==> #[trigger] a[i] is Meta) ==> spec_records::<R>(a)
            == Some(Seq::<R::V>::empty()),
        spec_records::<R>(Seq::empty()) == Some(Seq::<R::V>::empty()),
{
    let decode = |b: Seq<u8>| R::spec_of_bytes(b);
    lemma_collect_concat(a, b, decode);
    lemma_collect_fails_iff(a, decode);
    if forall|i: int| 0 <= i < a.len() ==> #[trigger] a[i] is Meta {
        lemma_collect_without_data(a, decode);
    }
    if spec_records::<R>(a).is_none() {
        let i = choose|i: int| 0 <= i < a.len() && spec_row_fails(#[trigger] a[i], decode);
        assert(match a[i] {
            QueryRow::Failed => true,
            QueryRow::Row(t) => R::spec_of_bytes(t@).is_none(),
            QueryRow::Meta(_) => false,
        });
    } else {
        assert forall|i: int| 0 <= i < a.len() implies !match #[trigger] a[i] {
            QueryRow::Failed => true,
            QueryRow::Row(t) => R::spec_of_bytes(t@).is_none(),
            QueryRow::Meta(_) => false,
        } by {
            assert(!spec_row_fails(a[i], decode));
        }
    }
}

} // verus!
