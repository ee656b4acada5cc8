use qdctl::backup::{payload_to_json, qdrant_value_to_json};
use qdctl::dict::Dict;
use qdctl::json::Json;
use qdctl::json_text::{json_to_string, parse_json, parse_json_object};
use qdctl::points::PayloadValue;
use qdctl::restore::{json_map_to_qdrant_payload, json_to_qdrant_value};

fn double(x: f64) -> PayloadValue {
    PayloadValue::Double(serde_json::Number::from_f64(x))
}

fn text(s: &str) -> PayloadValue {
    PayloadValue::Text(s.to_string())
}

fn fields(entries: Vec<(&str, PayloadValue)>) -> Dict<PayloadValue> {
    let mut dict = Dict::new();
    for (name, value) in entries {
        dict.insert(name.to_string(), value);
    }
    dict
}

#[test]
fn each_kind_of_value_has_its_json() {
    assert_eq!(qdrant_value_to_json(&PayloadValue::Unset), Json::Null);
    assert_eq!(qdrant_value_to_json(&PayloadValue::Null), Json::Null);
    assert_eq!(qdrant_value_to_json(&PayloadValue::Bool(true)), Json::Bool(true));
    assert_eq!(qdrant_value_to_json(&PayloadValue::Integer(-3)), Json::signed(-3));
    assert_eq!(
        qdrant_value_to_json(&double(0.5)),
        Json::Number(serde_json::Number::from_f64(0.5).unwrap())
    );
    assert_eq!(qdrant_value_to_json(&text("x")), Json::text("x"));
    assert_eq!(
        qdrant_value_to_json(&PayloadValue::List(vec![PayloadValue::Null, text("y")])),
        Json::Array(vec![Json::Null, Json::text("y")])
    );
}

#[test]
fn doubles_that_are_not_finite_are_stored_as_null() {
    assert_eq!(double(f64::NAN), PayloadValue::Double(None));
    assert_eq!(qdrant_value_to_json(&double(f64::NAN)), Json::Null);
    assert_eq!(qdrant_value_to_json(&double(f64::INFINITY)), Json::Null);
}

#[test]
fn the_text_of_a_payload_is_exact() {
    let payload = fields(vec![
        ("city", text("Oslo")),
        ("geo", PayloadValue::Struct(fields(vec![("lat", double(59.9)), ("lon", double(10.7))]))),
        ("tags", PayloadValue::List(vec![PayloadValue::Integer(1), PayloadValue::Unset])),
    ]);
    assert_eq!(
        json_to_string(&Json::Object(payload_to_json(&payload))).unwrap(),
        "{\"city\":\"Oslo\",\"geo\":{\"lat\":59.9,\"lon\":10.7},\"tags\":[1,null]}"
    );
}

#[test]
fn each_kind_of_json_has_its_value() {
    let parsed = parse_json("[null, false, 5, -5, 2.5, \"s\", [1], {\"a\": null}]").unwrap();
    assert_eq!(
        json_to_qdrant_value(&parsed),
        PayloadValue::List(vec![
            PayloadValue::Null,
            PayloadValue::Bool(false),
            PayloadValue::Integer(5),
            PayloadValue::Integer(-5),
            double(2.5),
            text("s"),
            PayloadValue::List(vec![PayloadValue::Integer(1)]),
            PayloadValue::Struct(fields(vec![("a", PayloadValue::Null)])),
        ])
    );
}

#[test]
fn integers_that_do_not_fit_are_restored_as_doubles() {
    let restored = json_to_qdrant_value(&Json::unsigned(9223372036854775808));
    match restored {
        PayloadValue::Double(Some(n)) => assert_eq!(n.as_f64(), Some(9223372036854775808.0)),
        other => panic!("{other:?}"),
    }
    assert_eq!(
        json_to_qdrant_value(&Json::unsigned(9223372036854775807)),
        PayloadValue::Integer(i64::MAX)
    );
}

#[test]
fn plain_payloads_are_restored_as_they_were() {
    let payload = || {
        fields(vec![
            ("a", PayloadValue::Integer(i64::MIN)),
            ("b", double(-1.25)),
            ("c", PayloadValue::List(vec![PayloadValue::Bool(true), PayloadValue::Null])),
            ("d", PayloadValue::Struct(fields(vec![("e", text("f"))]))),
        ])
    };
    let text = json_to_string(&Json::Object(payload_to_json(&payload()))).unwrap();
    let restored = json_map_to_qdrant_payload(&parse_json_object(&text).unwrap());
    assert_eq!(restored, payload());
}

#[test]
fn values_are_restored_from_their_json_as_they_were() {
    let value = || {
        PayloadValue::List(vec![
            double(0.1),
            double(1.7976931348623157e308),
            PayloadValue::Struct(fields(vec![
                ("z", double(5e-324)),
                ("a", PayloadValue::Integer(-1)),
            ])),
        ])
    };
    assert_eq!(json_to_qdrant_value(&qdrant_value_to_json(&value())), value());
}

#[test]
fn json_is_stored_again_as_it_was() {
    let text = "{\"a\":[9223372036854775807,-9223372036854775808,0,1.0,-0.5],\"b\":{\"c\":null,\"d\":[[true],\"x\"]}}";
    let json = parse_json(text).unwrap();
    let again = qdrant_value_to_json(&json_to_qdrant_value(&json));
    assert_eq!(again, json);
    assert_eq!(json_to_string(&again).unwrap(), text);
}

#[test]
fn what_has_no_place_in_json_is_restored_as_null() {
    let payload = fields(vec![("a", PayloadValue::Unset), ("b", PayloadValue::Double(None))]);
    let restored = json_map_to_qdrant_payload(&payload_to_json(&payload));
    assert_eq!(restored, fields(vec![("a", PayloadValue::Null), ("b", PayloadValue::Null)]));
}
