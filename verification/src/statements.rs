//! The four queries as they are sent: their text, and what is bound to it.

use crate::db::BUCKET_NAME;
use vstd::prelude::*;

verus! {

/// A query as it is sent: its text, and the values that are bound to its
/// positional placeholders `$1`, `$2`, ... in that order. A bound value is
/// handed to the store as one text value and is no part of the query's
/// text.
#[derive(Clone, Debug, PartialEq, Eq)]
pub struct Statement {
    pub text: String,
    pub parameters: Vec<String>,
}

/// The decimal digits of a natural number, without leading zeros.
pub open spec fn spec_decimal_digits(n: nat) -> Seq<char>
    decreases n,
{
    let last = seq!['0', '1', '2', '3', '4', '5', '6', '7', '8', '9'][(n % 10) as int];
    if n < 10 {
        seq![last]
    } else {
        spec_decimal_digits(n / 10).push(last)
    }
}

/// An integer in decimal, with a minus sign where it is negative.
pub open spec fn spec_decimal(n: int) -> Seq<char> {
    if n < 0 {
        seq!['-'] + spec_decimal_digits((-n) as nat)
    } else {
        spec_decimal_digits(n as nat)
    }
}

/// The text of the aggregation query: the count of events by type, the
/// largest count first.
pub open spec fn spec_aggregation_query() -> Seq<char> {
    "\n        SELECT event_type, COUNT(event_type) event_count \n        FROM "@ + BUCKET_NAME@
        + "\n        GROUP BY event_type\n        ORDER BY event_count DESC\n        "@
}

/// The text of the query for the latest events: all fields, the newest
/// first, cut off at `limit` rows.
pub open spec fn spec_last_n_events_query(limit: int) -> Seq<char> {
    "\n        SELECT *\n        FROM "@ + BUCKET_NAME@
        + "\n        ORDER BY timestamp_raw DESC\n        LIMIT "@ + spec_decimal(limit)
        + "\n        "@
}

/// The text of the query by consistency key: all fields of the events of
/// the group that is bound to the placeholder, in the order of their place
/// in it. The text is the same for every key.
pub open spec fn spec_consistency_key_query() -> Seq<char> {
    "\n        SELECT *\n        FROM "@ + BUCKET_NAME@
        + "\n        WHERE consistency.`KEY`i = $1\n        ORDER BY consistency.`VALUE`i\n        "@
}

/// The text of the query by correlation id: all fields of the events whose
/// id is the number that the bound text spells, the oldest first. The text
/// is the same for every id; a bound text that spells no number matches no
/// event.
pub open spec fn spec_correlation_id_query() -> Seq<char> {
    "\n        SELECT *\n        FROM "@ + BUCKET_NAME@
        + "\n        WHERE correlation_id = TONUMBER($1)\n        ORDER BY timestamp_raw\n        "@
}

/// One decimal digit as text.
fn digit_text(d: u32) -> (t: &'static str)
    requires
        d < 10,
    ensures
        t@ == seq![seq!['0', '1', '2', '3', '4', '5', '6', '7', '8', '9'][d as int]],
{
    proof {
        reveal_strlit("0");
        reveal_strlit("1");
        reveal_strlit("2");
        reveal_strlit("3");
        reveal_strlit("4");
        reveal_strlit("5");
        reveal_strlit("6");
        reveal_strlit("7");
        reveal_strlit("8");
        reveal_strlit("9");
    }
    let t = if d == 0 {
        "0"
    } else if d == 1 {
        "1"
    } else if d == 2 {
        "2"
    } else if d == 3 {
        "3"
    } else if d == 4 {
        "4"
    } else if d == 5 {
        "5"
    } else if d == 6 {
        "6"
    } else if d == 7 {
        "7"
    } else if d == 8 {
        "8"
    } else {
        "9"
    };
    assert(t@ =~= seq![seq!['0', '1', '2', '3', '4', '5', '6', '7', '8', '9'][d as int]]);
    t
}

/// Writes the decimal digits of `n` at the end of `q`.
fn append_digits(q: &mut String, n: u32)
    ensures
        final(q)@ == old(q)@ + spec_decimal_digits(n as nat),
    decreases n,
{
    if n >= 10 {
        append_digits(q, n / 10);
    }
    let ghost before = q@;
    q.append(digit_text(n % 10));
    proof {
        let last = seq!['0', '1', '2', '3', '4', '5', '6', '7', '8', '9'][(n % 10) as int];
        if n >= 10 {
            assert(q@ =~= old(q)@ + spec_decimal_digits((n / 10) as nat).push(last));
        } else {
            assert(q@ =~= old(q)@ + seq![last]);
        }
    }
}

/// Writes `n` in decimal at the end of `q`.
fn append_decimal(q: &mut String, n: i32)
    ensures
        final(q)@ == old(q)@ + spec_decimal(n as int),
{
    if n < 0 {
        proof {
            reveal_strlit("-");
        }
        q.append("-");
        assert(q@ =~= old(q)@ + seq!['-']);
        let magnitude: i64 = 0 - (n as i64);
        append_digits(q, magnitude as u32);
        assert(q@ =~= old(q)@ + (seq!['-'] + spec_decimal_digits((-n) as nat)));
    } else {
        append_digits(q, n as u32);
    }
}

/// Builds the aggregation query, which binds nothing.
pub fn aggregation_query() -> (q: Statement)
    ensures
        q.text@ == spec_aggregation_query(),
        q.parameters@.len() == 0,
{
    let mut text = String::from_str(
        "\n        SELECT event_type, COUNT(event_type) event_count \n        FROM ",
    );
    text.append(BUCKET_NAME);
    text.append("\n        GROUP BY event_type\n        ORDER BY event_count DESC\n        ");
    Statement { text, parameters: Vec::new() }
}

/// Builds the query for the latest `num_of_events` events, which binds
/// nothing: the limit stands in the text, in decimal.
pub fn last_n_events_query(num_of_events: i32) -> (q: Statement)
    ensures
        q.text@ == spec_last_n_events_query(num_of_events as int),
        q.parameters@.len() == 0,
{
    let mut text = String::from_str("\n        SELECT *\n        FROM ");
    text.append(BUCKET_NAME);
    text.append("\n        ORDER BY timestamp_raw DESC\n        LIMIT ");
    append_decimal(&mut text, num_of_events);
    text.append("\n        ");
    Statement { text, parameters: Vec::new() }
}

/// Builds the query for the events of one consistency key. The key is bound
/// to the placeholder unchanged and does not reach the text.
pub fn consistency_key_query(consistency_key: &str) -> (q: Statement)
    ensures
        q.text@ == spec_consistency_key_query(),
        q.parameters@.len() == 1,
        q.parameters@[0]@ == consistency_key@,
{
    let mut text = String::from_str("\n        SELECT *\n        FROM ");
    text.append(BUCKET_NAME);
    text.append(
        "\n        WHERE consistency.`KEY`i = $1\n        ORDER BY consistency.`VALUE`i\n        ",
    );
    let mut parameters: Vec<String> = Vec::new();
    parameters.push(String::from_str(consistency_key));
    Statement { text, parameters }
}

/// Builds the query for the events of one correlation id. The id is bound
/// to the placeholder unchanged and does not reach the text.
pub fn correlation_id_query(correlation_id: &str) -> (q: Statement)
    ensures
        q.text@ == spec_correlation_id_query(),
        q.parameters@.len() == 1,
        q.parameters@[0]@ == correlation_id@,
{
    let mut text = String::from_str("\n        SELECT *\n        FROM ");
    text.append(BUCKET_NAME);
    text.append(
        "\n        WHERE correlation_id = TONUMBER($1)\n        ORDER BY timestamp_raw\n        ",
    );
    let mut parameters: Vec<String> = Vec::new();
    parameters.push(String::from_str(correlation_id));
    Statement { text, parameters }
}

} // verus!
