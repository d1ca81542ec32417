use browsertools::json::{JsonNumber, JsonValue};
use browsertools::trace::{trace_events_value, trace_text};

fn to_value(v: &serde_json::Value) -> JsonValue {
    match v {
        serde_json::Value::Null => JsonValue::Null,
        serde_json::Value::Bool(b) => JsonValue::Bool(*b),
        serde_json::Value::Number(n) => match (n.as_u64(), n.as_i64()) {
            (Some(u), _) => JsonValue::Number(JsonNumber::PosInt(u)),
            (None, Some(i)) => JsonValue::Number(JsonNumber::NegInt(i)),
            _ => JsonValue::Number(JsonNumber::Float(n.to_string())),
        },
        serde_json::Value::String(s) => JsonValue::String(s.clone()),
        serde_json::Value::Array(a) => JsonValue::Array(a.iter().map(to_value).collect()),
        serde_json::Value::Object(m) => {
            JsonValue::Object(m.iter().map(|(k, v)| (k.clone(), to_value(v))).collect())
        }
    }
}

fn events_of(data: &[u8]) -> Vec<JsonValue> {
    let text = trace_text(data).unwrap();
    let value: serde_json::Value = serde_json::from_str(&text).unwrap();
    match trace_events_value(&to_value(&value)).unwrap() {
        JsonValue::Array(events) => events,
        _ => panic!("events are not an array"),
    }
}

#[test]
fn test_parse_array_format() {
    let json = r#"[{"name":"test","cat":"","ph":"X","ts":0,"pid":1,"tid":1}]"#;
    let events = events_of(json.as_bytes());
    assert_eq!(events.len(), 1);
    assert_eq!(events[0].get("name").and_then(|n| n.as_str()), Some("test"));
}

#[test]
fn test_parse_object_format() {
    let json = r#"{"traceEvents":[{"name":"test","cat":"","ph":"X","ts":0,"pid":1,"tid":1}]}"#;
    let events = events_of(json.as_bytes());
    assert_eq!(events.len(), 1);
}
