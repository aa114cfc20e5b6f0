use event_reports::json::{parse_json, Json, JsonNumber};
use event_reports::queries::{
    decode_aggregation_row, decode_event_row, get_events_for_consistency_key,
    get_events_for_correlation_id, get_last_n_events, make_aggregations_of_event_types,
    AggregationResult, Consistency, Event, EventResult, QueryError, QueryRow, RowRecord,
};
use event_reports::statements::{
    aggregation_query, consistency_key_query, correlation_id_query, last_n_events_query,
};

fn event(key: &str, value: u32, timestamp_raw: i64) -> Event {
    Event {
        consistency: Consistency { key: key.to_string(), value },
        correlation_id: 7,
        event_type: "login".to_string(),
        message_type: Some("command".to_string()),
        sender: "gateway".to_string(),
        session_id: Some(12),
        timestamp: "2017-03-01 10:00:00".to_string(),
        timestamp_raw: Some(timestamp_raw),
    }
}

fn event_text(key: &str, value: u32, timestamp_raw: i64) -> String {
    format!(
        "{{\"events\": {{\"consistency\": {{\"key\": \"{}\", \"value\": {}}}, \
         \"correlation_id\": 7, \"event_type\": \"login\", \"message_type\": \"command\", \
         \"sender\": \"gateway\", \"session_id\": 12, \"timestamp\": \"2017-03-01 10:00:00\", \
         \"timestamp_raw\": {}}}}}",
        key, value, timestamp_raw
    )
}

fn event_row(key: &str, value: u32, timestamp_raw: i64) -> QueryRow {
    QueryRow::Row(event_text(key, value, timestamp_raw).into_bytes())
}

fn aggregation_row(event_type: &str, event_count: i32) -> QueryRow {
    QueryRow::Row(
        format!("{{\"event_type\": \"{}\", \"event_count\": {}}}", event_type, event_count)
            .into_bytes(),
    )
}

fn aggregation(event_type: &str, event_count: i32) -> AggregationResult {
    AggregationResult { event_type: event_type.to_string(), event_count }
}

fn meta() -> QueryRow {
    QueryRow::Meta("{\"status\": \"success\"}".to_string())
}

// The text of the queries.

#[test]
fn aggregation_query_text() {
    let q = aggregation_query();
    assert_eq!(
        q.text,
        "\n        SELECT event_type, COUNT(event_type) event_count \n        FROM events\n        GROUP BY event_type\n        ORDER BY event_count DESC\n        "
    );
    assert!(q.parameters.is_empty());
}

#[test]
fn last_n_events_query_text() {
    let q = last_n_events_query(20);
    assert_eq!(
        q.text,
        "\n        SELECT *\n        FROM events\n        ORDER BY timestamp_raw DESC\n        LIMIT 20\n        "
    );
    assert!(q.parameters.is_empty());
}

#[test]
fn last_n_events_query_writes_the_limit_in_decimal() {
    let text = |n: i32| last_n_events_query(n).text;
    assert!(text(0).contains("LIMIT 0\n"));
    assert!(text(7).contains("LIMIT 7\n"));
    assert!(text(10).contains("LIMIT 10\n"));
    assert!(text(1005).contains("LIMIT 1005\n"));
    assert!(text(-5).contains("LIMIT -5\n"));
    assert!(text(i32::MAX).contains("LIMIT 2147483647\n"));
    assert!(text(i32::MIN).contains("LIMIT -2147483648\n"));
}

fn consistency_key_text() -> &'static str {
    "\n        SELECT *\n        FROM events\n        WHERE consistency.`KEY`i = $1\n        ORDER BY consistency.`VALUE`i\n        "
}

fn correlation_id_text() -> &'static str {
    "\n        SELECT *\n        FROM events\n        WHERE correlation_id = TONUMBER($1)\n        ORDER BY timestamp_raw\n        "
}

#[test]
fn consistency_key_query_binds_the_key() {
    let q = consistency_key_query("g1");
    assert_eq!(q.text, consistency_key_text());
    assert_eq!(q.parameters, vec!["g1".to_string()]);
}

#[test]
fn consistency_key_query_keeps_the_key_out_of_the_text() {
    for key in ["x\" OR \"1\"=\"1", "", "\"", "`; DROP", "$1", "a\nb"] {
        let q = consistency_key_query(key);
        assert_eq!(q.text, consistency_key_text());
        assert_eq!(q.parameters, vec![key.to_string()]);
    }
}

#[test]
fn correlation_id_query_binds_the_id() {
    let q = correlation_id_query("42");
    assert_eq!(q.text, correlation_id_text());
    assert_eq!(q.parameters, vec!["42".to_string()]);
}

#[test]
fn correlation_id_query_keeps_the_id_out_of_the_text() {
    for id in ["7 OR 1=1", "", "7; SELECT 1", "abc"] {
        let q = correlation_id_query(id);
        assert_eq!(q.text, correlation_id_text());
        assert_eq!(q.parameters, vec![id.to_string()]);
    }
}

// One row.

#[test]
fn decodes_an_event_in_its_envelope() {
    assert_eq!(decode_event_row(&event_text("g1", 3, 1488362400)), Some(event("g1", 3, 1488362400)));
}

#[test]
fn decodes_an_event_without_its_optional_members() {
    let text = "{\"events\": {\"consistency\": {\"key\": \"k\", \"value\": 0}, \
                \"correlation_id\": 4294967295, \"event_type\": \"t\", \"sender\": \"s\", \
                \"timestamp\": \"now\", \"extra\": [1, 2]}}";
    let expected = Event {
        consistency: Consistency { key: "k".to_string(), value: 0 },
        correlation_id: u32::MAX,
        event_type: "t".to_string(),
        message_type: None,
        sender: "s".to_string(),
        session_id: None,
        timestamp: "now".to_string(),
        timestamp_raw: None,
    };
    assert_eq!(decode_event_row(text), Some(expected));
}

#[test]
fn null_reads_as_no_value_where_a_member_is_optional() {
    let text = "{\"events\": {\"consistency\": {\"key\": \"k\", \"value\": 1}, \
                \"correlation_id\": 1, \"event_type\": \"t\", \"message_type\": null, \
                \"sender\": \"s\", \"session_id\": null, \"timestamp\": \"now\", \
                \"timestamp_raw\": null}}";
    let e = decode_event_row(text).unwrap();
    assert_eq!(e.message_type, None);
    assert_eq!(e.session_id, None);
    assert_eq!(e.timestamp_raw, None);
}

#[test]
fn negative_timestamp_is_kept() {
    let e = decode_event_row(&event_text("k", 1, -5)).unwrap();
    assert_eq!(e.timestamp_raw, Some(-5));
    let e = decode_event_row(&event_text("k", 1, i64::MIN)).unwrap();
    assert_eq!(e.timestamp_raw, Some(i64::MIN));
}

fn event_text_with(member_name: &str, replacement: Option<&str>) -> String {
    let members = [
        ("consistency", "{\"key\": \"k\", \"value\": 1}"),
        ("correlation_id", "1"),
        ("event_type", "\"t\""),
        ("message_type", "\"m\""),
        ("sender", "\"s\""),
        ("session_id", "2"),
        ("timestamp", "\"now\""),
        ("timestamp_raw", "3"),
    ];
    let mut parts: Vec<String> = Vec::new();
    for (name, value) in members {
        if name == member_name {
            if let Some(r) = replacement {
                parts.push(format!("\"{}\": {}", name, r));
            }
        } else {
            parts.push(format!("\"{}\": {}", name, value));
        }
    }
    format!("{{\"events\": {{{}}}}}", parts.join(", "))
}

#[test]
fn the_unchanged_text_decodes() {
    assert!(decode_event_row(&event_text_with("none", None)).is_some());
}

#[test]
fn a_required_member_left_out_is_a_failure() {
    for name in ["consistency", "correlation_id", "event_type", "sender", "timestamp"] {
        assert_eq!(decode_event_row(&event_text_with(name, None)), None, "{}", name);
        assert_eq!(decode_event_row(&event_text_with(name, Some("null"))), None, "{}", name);
    }
}

#[test]
fn an_optional_member_left_out_is_no_failure() {
    for name in ["message_type", "session_id", "timestamp_raw"] {
        assert!(decode_event_row(&event_text_with(name, None)).is_some(), "{}", name);
        assert!(decode_event_row(&event_text_with(name, Some("null"))).is_some(), "{}", name);
    }
}

#[test]
fn a_member_of_another_type_is_a_failure() {
    let cases = [
        ("consistency", "\"k\""),
        ("consistency", "{\"key\": \"k\"}"),
        ("consistency", "{\"key\": 1, \"value\": 1}"),
        ("consistency", "{\"key\": \"k\", \"value\": -1}"),
        ("consistency", "{\"key\": \"k\", \"value\": 4294967296}"),
        ("correlation_id", "\"1\""),
        ("correlation_id", "-1"),
        ("correlation_id", "1.0"),
        ("correlation_id", "4294967296"),
        ("event_type", "5"),
        ("message_type", "5"),
        ("sender", "true"),
        ("session_id", "-2"),
        ("session_id", "\"2\""),
        ("timestamp", "[]"),
        ("timestamp_raw", "9223372036854775808"),
        ("timestamp_raw", "1.5"),
        ("timestamp_raw", "\"3\""),
    ];
    for (name, value) in cases {
        assert_eq!(decode_event_row(&event_text_with(name, Some(value))), None, "{} {}", name, value);
    }
}

#[test]
fn an_event_outside_its_envelope_is_a_failure() {
    assert_eq!(decode_event_row("{\"consistency\": {\"key\": \"k\", \"value\": 1}, \"correlation_id\": 1, \"event_type\": \"t\", \"sender\": \"s\", \"timestamp\": \"now\"}"), None);
    assert_eq!(decode_event_row("{\"events\": 5}"), None);
    assert_eq!(decode_event_row("{}"), None);
    assert_eq!(decode_event_row("[]"), None);
    assert_eq!(decode_event_row("not json"), None);
    assert_eq!(decode_event_row(""), None);
}

#[test]
fn decodes_from_a_document() {
    let text = Json::Text("k".to_string());
    let nine = Json::Number(JsonNumber { unsigned: Some(9), signed: Some(9) });
    let token = Json::Object(vec![("value".to_string(), nine), ("key".to_string(), text)]);
    assert_eq!(Consistency::decode(&token), Some(Consistency { key: "k".to_string(), value: 9 }));
    assert_eq!(Consistency::decode(&Json::Null), None);
    assert_eq!(Consistency::decode(&Json::Object(vec![])), None);

    let parsed = parse_json(&event_text("g", 2, 10)).unwrap();
    assert_eq!(EventResult::decode(&parsed), Some(EventResult { events: event("g", 2, 10) }));
    assert_eq!(Event::decode(&parsed), None);
    let row = parse_json("{\"event_type\": \"login\", \"event_count\": 4}").unwrap();
    assert_eq!(AggregationResult::decode(&row), Some(aggregation("login", 4)));
}

#[test]
fn decodes_an_aggregation_row() {
    assert_eq!(
        decode_aggregation_row("{\"event_type\": \"login\", \"event_count\": 12}"),
        Some(aggregation("login", 12))
    );
    assert_eq!(
        decode_aggregation_row("{\"event_count\": -2147483648, \"event_type\": \"\"}"),
        Some(aggregation("", i32::MIN))
    );
    assert_eq!(
        decode_aggregation_row("{\"event_type\": \"x\", \"event_count\": 2147483647}"),
        Some(aggregation("x", i32::MAX))
    );
}

#[test]
fn rejects_an_aggregation_row_of_another_shape() {
    assert_eq!(decode_aggregation_row("{\"event_count\": 12}"), None);
    assert_eq!(decode_aggregation_row("{\"event_type\": \"login\"}"), None);
    assert_eq!(decode_aggregation_row("{\"event_type\": \"x\", \"event_count\": 2147483648}"), None);
    assert_eq!(decode_aggregation_row("{\"event_type\": \"x\", \"event_count\": -2147483649}"), None);
    assert_eq!(decode_aggregation_row("{\"event_type\": \"x\", \"event_count\": 1.5}"), None);
    assert_eq!(decode_aggregation_row("{\"event_type\": \"x\", \"event_count\": \"1\"}"), None);
    assert_eq!(decode_aggregation_row("{\"event_type\": null, \"event_count\": 1}"), None);
    assert_eq!(decode_aggregation_row("{\"event_type\": \"x\", \"event_count\": null}"), None);
    assert_eq!(decode_aggregation_row("[\"x\""), None);
}

// Whole streams.

#[test]
fn aggregation_rows_come_out_in_the_order_of_the_store() {
    let rows = vec![aggregation_row("B", 9), aggregation_row("A", 5), aggregation_row("C", 1), meta()];
    assert_eq!(
        make_aggregations_of_event_types(&rows),
        Ok(vec![aggregation("B", 9), aggregation("A", 5), aggregation("C", 1)])
    );
}

#[test]
fn recent_events_come_out_newest_first_and_as_many_as_the_store_sent() {
    let rows: Vec<QueryRow> = (0..20).map(|i| event_row("g", i, 1050 - i as i64)).collect();
    let events = get_last_n_events(&rows).unwrap();
    assert_eq!(events.len(), 20);
    for i in 0..20 {
        assert_eq!(events[i], event("g", i as u32, 1050 - i as i64));
    }
    for pair in events.windows(2) {
        assert!(pair[0].timestamp_raw.unwrap() > pair[1].timestamp_raw.unwrap());
    }
}

#[test]
fn events_of_a_consistency_key_come_out_by_value() {
    let rows = vec![event_row("g1", 1, 30), meta(), event_row("g1", 2, 10), event_row("g1", 3, 20)];
    let events = get_events_for_consistency_key(&rows).unwrap();
    let values: Vec<u32> = events.iter().map(|e| e.consistency.value).collect();
    assert_eq!(values, vec![1, 2, 3]);
    assert_eq!(events, vec![event("g1", 1, 30), event("g1", 2, 10), event("g1", 3, 20)]);
}

#[test]
fn events_of_a_correlation_id_come_out_as_sent() {
    let rows = vec![event_row("a", 5, 1), event_row("b", 4, 2), event_row("a", 5, 1)];
    assert_eq!(
        get_events_for_correlation_id(&rows),
        Ok(vec![event("a", 5, 1), event("b", 4, 2), event("a", 5, 1)])
    );
}

#[test]
fn a_row_without_a_required_member_fails_every_operation() {
    let broken = QueryRow::Row(event_text_with("event_type", None).into_bytes());
    let rows = vec![event_row("g", 1, 1), broken, event_row("g", 2, 2)];
    assert_eq!(get_last_n_events(&rows), Err(QueryError::QueryFailed));
    assert_eq!(get_events_for_consistency_key(&rows), Err(QueryError::QueryFailed));
    assert_eq!(get_events_for_correlation_id(&rows), Err(QueryError::QueryFailed));
    let rows = vec![
        aggregation_row("A", 2),
        QueryRow::Row(b"{\"event_count\": 1}".to_vec()),
        aggregation_row("B", 1),
    ];
    assert_eq!(make_aggregations_of_event_types(&rows), Err(QueryError::QueryFailed));
}

#[test]
fn a_failure_in_the_last_row_leaves_no_records() {
    let rows = vec![event_row("g", 1, 1), event_row("g", 2, 2), QueryRow::Row(b"{".to_vec())];
    assert_eq!(get_last_n_events(&rows), Err(QueryError::QueryFailed));
    let rows = vec![aggregation_row("A", 2), QueryRow::Row(Vec::new())];
    assert_eq!(make_aggregations_of_event_types(&rows), Err(QueryError::QueryFailed));
}

#[test]
fn a_transport_error_fails_every_operation() {
    let rows = vec![event_row("g", 1, 1), QueryRow::Failed];
    assert_eq!(get_last_n_events(&rows), Err(QueryError::QueryFailed));
    assert_eq!(get_events_for_consistency_key(&rows), Err(QueryError::QueryFailed));
    assert_eq!(get_events_for_correlation_id(&rows), Err(QueryError::QueryFailed));
    let rows = vec![QueryRow::Failed, aggregation_row("A", 2)];
    assert_eq!(make_aggregations_of_event_types(&rows), Err(QueryError::QueryFailed));
}

#[test]
fn no_rows_is_a_success_without_records() {
    let rows: Vec<QueryRow> = Vec::new();
    assert_eq!(get_last_n_events(&rows), Ok(vec![]));
    assert_eq!(get_events_for_consistency_key(&rows), Ok(vec![]));
    assert_eq!(get_events_for_correlation_id(&rows), Ok(vec![]));
    assert_eq!(make_aggregations_of_event_types(&rows), Ok(vec![]));
    assert_ne!(get_last_n_events(&rows), Err(QueryError::QueryFailed));
}

#[test]
fn meta_rows_alone_are_a_success_without_records() {
    let rows = vec![meta(), QueryRow::Meta("not even json".to_string())];
    assert_eq!(get_last_n_events(&rows), Ok(vec![]));
    assert_eq!(make_aggregations_of_event_types(&rows), Ok(vec![]));
}

#[test]
fn an_event_row_is_no_aggregation_row() {
    let rows = vec![event_row("g", 1, 1)];
    assert_eq!(make_aggregations_of_event_types(&rows), Err(QueryError::QueryFailed));
    let rows = vec![aggregation_row("A", 1)];
    assert_eq!(get_last_n_events(&rows), Err(QueryError::QueryFailed));
}

#[test]
fn two_streams_in_a_row_give_their_records_in_a_row() {
    let a = vec![event_row("g", 1, 1), meta()];
    let b = vec![event_row("h", 2, 2), event_row("i", 3, 3)];
    let mut both = a.clone();
    both.extend(b.clone());
    let mut expected = get_last_n_events(&a).unwrap();
    expected.extend(get_last_n_events(&b).unwrap());
    assert_eq!(get_last_n_events(&both), Ok(expected));
}

#[test]
fn bytes_that_are_no_utf8_are_a_failure() {
    let mut bytes = event_text("g", 1, 1).into_bytes();
    assert_eq!(Event::of_bytes(&bytes), Some(event("g", 1, 1)));
    bytes[20] = 0xff;
    assert_eq!(Event::of_bytes(&bytes), None);
    assert_eq!(get_last_n_events(&vec![QueryRow::Row(bytes)]), Err(QueryError::QueryFailed));
    assert_eq!(AggregationResult::of_bytes(&[0xc3, 0x28]), None);
    assert_eq!(
        make_aggregations_of_event_types(&vec![QueryRow::Row(vec![0xc3, 0x28])]),
        Err(QueryError::QueryFailed)
    );
}

#[test]
fn text_beyond_ascii_is_decoded() {
    let bytes = "{\"event_type\": \"caf\u{e9} \u{1f600}\", \"event_count\": 3}".as_bytes();
    assert_eq!(AggregationResult::of_bytes(bytes), Some(aggregation("caf\u{e9} \u{1f600}", 3)));
}
