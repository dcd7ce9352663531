//! JSON values and their compact text.

use convergio_ceo::json::{put, single, Json, JsonNumber};

fn to_value(json: &Json) -> serde_json::Value {
    match json {
        Json::Null => serde_json::Value::Null,
        Json::Bool(b) => serde_json::Value::Bool(*b),
        Json::Number(JsonNumber::PosInt(n)) => serde_json::Value::from(*n),
        Json::Number(JsonNumber::NegInt(n)) => serde_json::Value::from(*n),
        Json::Number(JsonNumber::Float(t)) => serde_json::from_str(t).unwrap(),
        Json::Text(t) => serde_json::Value::from(t.as_str()),
        Json::Array(values) => serde_json::Value::Array(values.iter().map(to_value).collect()),
        Json::Object(members) => serde_json::Value::Object(
            members
                .iter()
                .map(|(key, value)| (key.clone(), to_value(value)))
                .collect(),
        ),
    }
}

fn text(s: &str) -> Json {
    Json::Text(s.to_string())
}

#[test]
fn scalars_are_written() {
    assert_eq!(Json::Null.to_text(), "null");
    assert_eq!(Json::Bool(true).to_text(), "true");
    assert_eq!(Json::Bool(false).to_text(), "false");
    assert_eq!(Json::from_int(0).to_text(), "0");
    assert_eq!(Json::from_int(-1).to_text(), "-1");
    assert_eq!(Json::from_int(i64::MIN).to_text(), "-9223372036854775808");
    assert_eq!(Json::from_int(i64::MAX).to_text(), "9223372036854775807");
    assert_eq!(Json::from_nat(u64::MAX).to_text(), "18446744073709551615");
    assert_eq!(Json::Number(JsonNumber::Float("0.0001".into())).to_text(), "0.0001");
}

#[test]
fn strings_are_quoted_and_escaped() {
    assert_eq!(text("").to_text(), "\"\"");
    assert_eq!(text("a/b").to_text(), "\"a/b\"");
    assert_eq!(text("\"\\").to_text(), "\"\\\"\\\\\"");
    assert_eq!(
        text("\u{8}\t\n\u{c}\r\u{0}\u{1f}\u{7f}é").to_text(),
        "\"\\b\\t\\n\\f\\r\\u0000\\u001f\u{7f}é\""
    );
}

#[test]
fn every_escape_is_that_of_the_json_crate() {
    for n in 0u32..0x3000 {
        if let Some(c) = char::from_u32(n) {
            let s = format!("x{c}y");
            assert_eq!(text(&s).to_text(), serde_json::Value::from(s.as_str()).to_string());
        }
    }
}

#[test]
fn compact_text_is_that_of_the_json_crate() {
    let mut members: Vec<(String, Json)> = Vec::new();
    put(&mut members, "a \"key\"", Json::Array(vec![]));
    put(&mut members, "b", Json::Object(vec![]));
    put(
        &mut members,
        "c",
        Json::Array(vec![
            Json::Null,
            Json::Bool(true),
            Json::from_int(-7),
            Json::from_nat(7),
            Json::Number(JsonNumber::Float("1.5".into())),
            text("line\nbreak"),
            single("deep", Json::Array(vec![single("er", Json::Bool(false))])),
        ]),
    );
    let json = Json::Object(members);
    assert_eq!(json.to_text(), to_value(&json).to_string());
    assert_eq!(
        json.to_text(),
        "{\"a \\\"key\\\"\":[],\"b\":{},\"c\":[null,true,-7,7,1.5,\"line\\nbreak\",\
         {\"deep\":[{\"er\":false}]}]}"
    );
    assert_eq!(json.clone(), json);
}

#[test]
fn members_are_looked_up() {
    let json = Json::Object(vec![
        ("a".to_string(), Json::from_int(1)),
        ("b".to_string(), text("x")),
        ("a".to_string(), Json::from_int(2)),
    ]);
    assert_eq!(json.get("a"), Some(&Json::from_int(1)));
    assert_eq!(json.get("b").unwrap().as_str(), Some("x"));
    assert_eq!(json.get("c"), None);
    assert_eq!(json.as_str(), None);
    assert_eq!(text("a").get("a"), None);
    assert_eq!(Json::Array(vec![Json::Null]).get("0"), None);
    assert_eq!(Json::empty_object(), Json::Object(vec![]));
}
