use qdctl::dict::Dict;
use qdctl::json::Json;
use qdctl::json_text::{json_to_string, json_to_string_pretty, parse_json, parse_json_object};

fn number(x: f64) -> Json {
    Json::Number(serde_json::Number::from_f64(x).unwrap())
}

fn object(members: Vec<(&str, Json)>) -> Json {
    let mut dict = Dict::new();
    for (name, value) in members {
        dict.insert(name.to_string(), value);
    }
    Json::Object(dict)
}

fn nested(depth: usize) -> String {
    let mut text = String::new();
    for _ in 0..depth {
        text.push('[');
    }
    for _ in 0..depth {
        text.push(']');
    }
    text
}

#[test]
fn dict_keeps_the_order_of_its_names() {
    let mut dict: Dict<u32> = Dict::new();
    dict.insert("b".to_string(), 1);
    dict.insert("a".to_string(), 2);
    dict.insert("b".to_string(), 3);
    assert_eq!(dict.len(), 2);
    assert_eq!(dict.entry(0), (&"b".to_string(), &3));
    assert_eq!(dict.entry(1), (&"a".to_string(), &2));
    assert_eq!(dict.get("a"), Some(&2));
    assert_eq!(dict.get("c"), None);
    dict.push("c".to_string(), 4);
    assert_eq!(dict.get("c"), Some(&4));
}

#[test]
fn numbers_are_held_as_integers_or_doubles() {
    assert_eq!(Json::unsigned(u64::MAX).as_u64(), Some(u64::MAX));
    assert_eq!(Json::unsigned(u64::MAX).as_i64(), None);
    assert_eq!(Json::signed(i64::MIN).as_i64(), Some(i64::MIN));
    assert_eq!(Json::signed(i64::MIN).as_u64(), None);
    assert_eq!(Json::signed(7).as_u64(), Some(7));
    assert_eq!(Json::unsigned(7).as_i64(), Some(7));
    assert_eq!(number(7.0).as_i64(), None);
    assert_eq!(number(7.0).as_u64(), None);
    assert_eq!(Json::text("7").as_u64(), None);
    assert_eq!(Json::text("7").as_i64(), None);
}

#[test]
fn accessors_give_what_a_value_is() {
    let value = object(vec![("a", Json::Bool(true)), ("b", Json::Array(vec![Json::Null]))]);
    assert_eq!(value.get("a"), Some(&Json::Bool(true)));
    assert_eq!(value.get("c"), None);
    assert_eq!(Json::Null.get("a"), None);
    assert_eq!(value.get("a").unwrap().as_bool(), Some(true));
    assert_eq!(value.as_bool(), None);
    assert_eq!(value.get("b").unwrap().as_array(), Some(&vec![Json::Null]));
    assert_eq!(value.as_array(), None);
    assert_eq!(value.as_object().unwrap().len(), 2);
    assert_eq!(Json::Null.as_object(), None);
    assert_eq!(Json::text("x").as_text(), Some(&"x".to_string()));
    assert_eq!(Json::Null.as_text(), None);
}

#[test]
fn compact_text_is_exact() {
    let value = object(vec![
        ("a", Json::Null),
        ("b", Json::Array(vec![Json::Bool(true), Json::unsigned(1), Json::signed(-1)])),
        ("c", number(1.5)),
        ("d", Json::text("x\"y\n")),
        ("e", object(vec![])),
    ]);
    assert_eq!(
        json_to_string(&value).unwrap(),
        "{\"a\":null,\"b\":[true,1,-1],\"c\":1.5,\"d\":\"x\\\"y\\n\",\"e\":{}}"
    );
}

#[test]
fn indented_text_is_exact() {
    let value = object(vec![("a", Json::Array(vec![Json::unsigned(1)])), ("b", number(2.0))]);
    assert_eq!(
        json_to_string_pretty(&value).unwrap(),
        "{\n  \"a\": [\n    1\n  ],\n  \"b\": 2.0\n}"
    );
}

#[test]
fn values_are_read_back_from_their_text() {
    let value = object(vec![
        ("a", Json::Array(vec![Json::unsigned(u64::MAX), Json::signed(i64::MIN), Json::Null])),
        ("b", Json::text("\u{0}\u{1f600}")),
        ("c", Json::Bool(false)),
        ("d", number(-0.25)),
    ]);
    let compact = json_to_string(&value).unwrap();
    let pretty = json_to_string_pretty(&value).unwrap();
    assert_eq!(parse_json(&compact).unwrap(), value);
    assert_eq!(parse_json(&pretty).unwrap(), value);
}

#[test]
fn integers_too_large_are_read_as_doubles() {
    let value = parse_json("[18446744073709551615, 18446744073709551616, -9223372036854775809]");
    let value = value.unwrap();
    let items = value.as_array().unwrap();
    assert_eq!(items[0].as_u64(), Some(u64::MAX));
    assert_eq!(items[1], number(18446744073709551616.0));
    assert_eq!(items[2], number(-9223372036854775809.0));
}

#[test]
fn the_later_of_two_members_of_one_name_counts() {
    let members = parse_json_object("{\"a\": 1, \"a\": 2}").unwrap();
    assert_eq!(members.len(), 1);
    assert_eq!(members.get("a"), Some(&Json::unsigned(2)));
}

#[test]
fn texts_that_are_not_json_are_refused() {
    assert!(parse_json("").is_err());
    assert!(parse_json("{").is_err());
    assert!(parse_json("1 2").is_err());
    assert!(parse_json("NaN").is_err());
}

#[test]
fn only_objects_are_read_as_objects() {
    assert!(parse_json("[]").is_ok());
    assert!(parse_json_object("[]").is_err());
    assert!(parse_json_object("null").is_err());
    assert!(parse_json_object("{").is_err());
    assert_eq!(parse_json_object("{}").unwrap().len(), 0);
}

#[test]
fn values_are_read_down_to_a_depth() {
    let deep = parse_json(&nested(127)).unwrap();
    assert_eq!(json_to_string(&deep).unwrap(), nested(127));
    assert!(parse_json(&nested(128)).is_err());
}

#[test]
fn values_deeper_than_that_are_written() {
    let mut value = Json::Array(vec![]);
    for _ in 0..127 {
        value = Json::Array(vec![value]);
    }
    let text = json_to_string(&value).unwrap();
    assert_eq!(text, nested(128));
    assert!(parse_json(&text).is_err());
}
