use browsertools::json::{JsonNumber, JsonValue};
use browsertools::json_write::to_json_text;
use browsertools::keyboard::parse_key_combination;

#[test]
fn modifiers_ignore_case_and_last_key_wins() {
    assert_eq!(parse_key_combination("CTRL+SHIFT+x"), ("x".to_string(), 10));
    assert_eq!(parse_key_combination("Alt+Option+Cmd+Command+Meta+Shift+Control"), (String::new(), 15));
    assert_eq!(parse_key_combination("a+b"), ("b".to_string(), 0));
    assert_eq!(parse_key_combination(""), (String::new(), 0));
    assert_eq!(parse_key_combination("Control+"), (String::new(), 2));
}

#[test]
fn json_set_then_get() {
    let mut v = JsonValue::Null;
    v.set("b".to_string(), JsonValue::Bool(true));
    v.set("a".to_string(), JsonValue::Number(JsonNumber::PosInt(1)));
    v.set("b".to_string(), JsonValue::String("x".to_string()));
    assert_eq!(to_json_text(&v), "{\"b\":\"x\",\"a\":1}");
    assert_eq!(v.get("b").and_then(|x| x.as_str()), Some("x"));
    assert_eq!(v.get("a").and_then(|x| x.as_u64()), Some(1));
    assert!(v.get("c").is_none());
    assert_eq!(v.get_str_or("a", "dflt"), "dflt");
    assert_eq!(JsonValue::Number(JsonNumber::PosInt(u64::MAX)).as_i64(), None);
    assert_eq!(JsonValue::Number(JsonNumber::NegInt(-4)).as_i64(), Some(-4));
}
