use apache_avro::types::Value;
use apache_avro::{Reader, Writer};
use qdctl::avro_schema::{point_schema, AvroPoint, AvroValue, POINT_SCHEMA};
use qdctl::backup::{avro_record, page_to_avro_records, point_to_avro_record};
use qdctl::dict::Dict;
use qdctl::error::StoreError;
use qdctl::points::{
    PayloadValue, PointId, PointIdOptions, PointStruct, RetrievedPoint, Vector, VectorOutput,
    Vectors, VectorsOutput,
};
use qdctl::restore::{avro_point_to_qdrant, point_from_json, restore_id};
use serde_json::Number;

fn number(x: f64) -> Number {
    Number::from_f64(x).unwrap()
}

fn fields(entries: Vec<(&str, PayloadValue)>) -> Dict<PayloadValue> {
    let mut dict = Dict::new();
    for (name, value) in entries {
        dict.insert(name.to_string(), value);
    }
    dict
}

fn point(id: PointIdOptions, vectors: Option<VectorsOutput>) -> RetrievedPoint {
    RetrievedPoint {
        id: Some(PointId { point_id_options: Some(id) }),
        payload: fields(vec![
            ("name", PayloadValue::Text("n".to_string())),
            ("rank", PayloadValue::Integer(3)),
        ]),
        vectors,
    }
}

fn dense(data: &[f64]) -> Option<VectorsOutput> {
    let data = data.iter().map(|x| Some(number(*x))).collect();
    Some(VectorsOutput::Single(Some(VectorOutput::Dense(data))))
}

fn uuid() -> PointIdOptions {
    PointIdOptions::Uuid("c0ffee00-0000-4000-8000-000000000000".to_string())
}

fn text(s: &str) -> AvroValue {
    AvroValue::Text(s.to_string())
}

fn some(value: AvroValue) -> AvroValue {
    AvroValue::Union(1, Box::new(value))
}

fn none() -> AvroValue {
    AvroValue::Union(0, Box::new(AvroValue::Null))
}

fn record(fields: Vec<(&str, AvroValue)>) -> AvroValue {
    AvroValue::Record(fields.into_iter().map(|(name, v)| (name.to_string(), v)).collect())
}

fn to_avro(v: AvroValue) -> Value {
    match v {
        AvroValue::Null => Value::Null,
        AvroValue::Long(n) => Value::Long(n),
        AvroValue::Text(s) => Value::String(s),
        AvroValue::Enum(i, s) => Value::Enum(i, s),
        AvroValue::Union(i, v) => Value::Union(i, Box::new(to_avro(*v))),
        AvroValue::Record(fields) => {
            Value::Record(fields.into_iter().map(|(name, v)| (name, to_avro(v))).collect())
        }
    }
}

fn optional(value: &Value) -> Option<Value> {
    match value {
        Value::Union(_, inner) => match inner.as_ref() {
            Value::Null => None,
            other => Some(other.clone()),
        },
        other => panic!("{other:?}"),
    }
}

fn string(value: Value) -> String {
    match value {
        Value::String(s) | Value::Enum(_, s) => s,
        other => panic!("{other:?}"),
    }
}

fn long(value: Value) -> i64 {
    match value {
        Value::Long(n) => n,
        other => panic!("{other:?}"),
    }
}

/// The stored points that apache_avro reads from the records that it wrote.
fn through_avro(records: Vec<AvroValue>) -> Vec<AvroPoint> {
    let schema = point_schema().unwrap();
    let mut writer = Writer::new(&schema, Vec::new());
    for r in records {
        writer.append_value_ref(&to_avro(r)).unwrap();
    }
    let bytes = writer.into_inner().unwrap();
    let reader = Reader::with_schema(&schema, &bytes[..]).unwrap();
    reader
        .map(|value| match value.unwrap() {
            Value::Record(fields) => {
                let get = |i: usize, name: &str| -> Value {
                    assert_eq!(fields[i].0, name);
                    fields[i].1.clone()
                };
                AvroPoint {
                    id_type: string(get(0, "id_type")),
                    id_num: optional(&get(1, "id_num")).map(long),
                    id_uuid: optional(&get(2, "id_uuid")).map(string),
                    payload: string(get(3, "payload")),
                    vectors: optional(&get(4, "vectors")).map(string),
                }
            }
            other => panic!("{other:?}"),
        })
        .collect()
}

fn stored(id_type: &str) -> AvroPoint {
    AvroPoint {
        id_type: id_type.to_string(),
        id_num: Some(5),
        id_uuid: Some("u".to_string()),
        payload: "{\"a\":1}".to_string(),
        vectors: None,
    }
}

#[test]
fn the_schema_is_read() {
    let schema = point_schema().unwrap();
    assert_eq!(schema, apache_avro::Schema::parse_str(POINT_SCHEMA).unwrap());
    assert!(format!("{schema:?}").contains("QdrantPoint"));
}

#[test]
fn a_numbered_point_has_its_record() {
    let r = point_to_avro_record(&point(PointIdOptions::Num(42), dense(&[1.0, 0.5]))).unwrap();
    assert_eq!(
        r,
        record(vec![
            ("id_type", AvroValue::Enum(0, "num".to_string())),
            ("id_num", some(AvroValue::Long(42))),
            ("id_uuid", none()),
            ("payload", text("{\"name\":\"n\",\"rank\":3}")),
            ("vectors", some(text("{\"vector\":{\"dense\":[1.0,0.5]}}"))),
        ])
    );
}

#[test]
fn a_point_with_a_uuid_has_its_record() {
    let r = point_to_avro_record(&point(uuid(), None)).unwrap();
    assert_eq!(
        r,
        record(vec![
            ("id_type", AvroValue::Enum(1, "uuid".to_string())),
            ("id_num", none()),
            ("id_uuid", some(text("c0ffee00-0000-4000-8000-000000000000"))),
            ("payload", text("{\"name\":\"n\",\"rank\":3}")),
            ("vectors", none()),
        ])
    );
}

#[test]
fn large_numbers_wrap_in_the_record() {
    let r = avro_record(&PointIdOptions::Num(u64::MAX), "{}".to_string(), None);
    assert_eq!(
        r,
        record(vec![
            ("id_type", AvroValue::Enum(0, "num".to_string())),
            ("id_num", some(AvroValue::Long(-1))),
            ("id_uuid", none()),
            ("payload", text("{}")),
            ("vectors", none()),
        ])
    );
    assert_eq!(
        restore_id("num".to_string(), Some(-1), None).unwrap(),
        PointIdOptions::Num(u64::MAX)
    );
}

#[test]
fn points_without_an_id_are_refused() {
    let mut p = point(uuid(), None);
    p.id = Some(PointId { point_id_options: None });
    let e = point_to_avro_record(&p).unwrap_err();
    assert!(matches!(e, StoreError::NoIdOptions));
    assert_eq!(e.context(), Some("Point has no ID options".to_string()));
    p.id = None;
    let e = point_to_avro_record(&p).unwrap_err();
    assert!(matches!(e, StoreError::NoId));
    assert_eq!(e.context(), Some("Point has no ID".to_string()));
}

#[test]
fn a_page_is_stored_up_to_the_point_that_is_refused() {
    let mut page = vec![point(PointIdOptions::Num(1), None), point(PointIdOptions::Num(2), None)];
    let (records, refused) = page_to_avro_records(&page);
    assert_eq!(records.len(), 2);
    assert!(refused.is_none());
    page.insert(1, RetrievedPoint { id: None, payload: Dict::new(), vectors: None });
    let (records, refused) = page_to_avro_records(&page);
    assert_eq!(records.len(), 1);
    assert!(matches!(refused, Some(StoreError::NoId)));
    let (records, refused) = page_to_avro_records(&vec![]);
    assert!(records.is_empty());
    assert!(refused.is_none());
}

#[test]
fn points_are_restored_from_their_records() {
    let page = vec![
        point(PointIdOptions::Num(0), dense(&[1.5])),
        point(PointIdOptions::Num(9223372036854775808), None),
        point(PointIdOptions::Num(u64::MAX), None),
        point(uuid(), dense(&[])),
    ];
    let (records, refused) = page_to_avro_records(&page);
    assert!(refused.is_none());
    let restored: Vec<PointStruct> = through_avro(records)
        .into_iter()
        .map(|ap| avro_point_to_qdrant(ap).unwrap())
        .collect();
    assert_eq!(restored.len(), 4);
    assert_eq!(restored[0].id, PointIdOptions::Num(0));
    assert_eq!(restored[1].id, PointIdOptions::Num(9223372036854775808));
    assert_eq!(restored[2].id, PointIdOptions::Num(u64::MAX));
    assert_eq!(restored[3].id, uuid());
    for (was, is) in page.iter().zip(&restored) {
        assert_eq!(was.payload, is.payload);
    }
    assert_eq!(
        restored[0].vectors,
        Some(Vectors::Single(Vector::Dense(vec![number(1.5)])))
    );
    assert_eq!(restored[1].vectors, None);
    assert_eq!(restored[3].vectors, Some(Vectors::Single(Vector::Dense(vec![]))));
}

#[test]
fn what_is_kept_of_a_point_comes_back() {
    let p = RetrievedPoint {
        id: Some(PointId { point_id_options: Some(uuid()) }),
        payload: fields(vec![
            ("a", PayloadValue::Unset),
            ("b", PayloadValue::Double(None)),
            ("c", PayloadValue::Double(Some(number(2.5)))),
        ]),
        vectors: Some(VectorsOutput::Single(Some(VectorOutput::Dense(vec![
            None,
            Some(number(0.5)),
        ])))),
    };
    let mut read = through_avro(vec![point_to_avro_record(&p).unwrap()]);
    assert_eq!(
        avro_point_to_qdrant(read.pop().unwrap()).unwrap(),
        PointStruct {
            id: uuid(),
            payload: fields(vec![
                ("a", PayloadValue::Null),
                ("b", PayloadValue::Null),
                ("c", PayloadValue::Double(Some(number(2.5)))),
            ]),
            vectors: Some(Vectors::Single(Vector::Dense(vec![Number::from(0u64), number(0.5)]))),
        }
    );
}

#[test]
fn a_record_holds_one_point() {
    let r = avro_record(&uuid(), "{}".to_string(), Some("null".to_string()));
    let read = through_avro(vec![r]);
    assert_eq!(
        read,
        vec![AvroPoint {
            id_type: "uuid".to_string(),
            id_num: None,
            id_uuid: Some("c0ffee00-0000-4000-8000-000000000000".to_string()),
            payload: "{}".to_string(),
            vectors: Some("null".to_string()),
        }]
    );
}

#[test]
fn ids_are_restored_by_their_type() {
    assert_eq!(avro_point_to_qdrant(stored("num")).unwrap().id, PointIdOptions::Num(5));
    assert_eq!(
        avro_point_to_qdrant(stored("uuid")).unwrap().id,
        PointIdOptions::Uuid("u".to_string())
    );
}

#[test]
fn ids_that_are_missing_or_unknown_are_refused() {
    let mut ap = stored("num");
    ap.id_num = None;
    let e = avro_point_to_qdrant(ap).unwrap_err();
    assert!(matches!(e, StoreError::NoIdNum));
    assert_eq!(e.context(), Some("id_type is 'num' but id_num is null".to_string()));
    let mut ap = stored("uuid");
    ap.id_uuid = None;
    let e = avro_point_to_qdrant(ap).unwrap_err();
    assert!(matches!(e, StoreError::NoIdUuid));
    assert_eq!(e.context(), Some("id_type is 'uuid' but id_uuid is null".to_string()));
    let e = avro_point_to_qdrant(stored("Num")).unwrap_err();
    assert!(matches!(e, StoreError::UnknownIdType(_)));
    assert_eq!(e.context(), Some("Unknown id_type: Num".to_string()));
}

#[test]
fn payloads_that_are_no_objects_are_refused() {
    for payload in ["", "[1]", "null", "{\"a\":}"] {
        let mut ap = stored("num");
        ap.payload = payload.to_string();
        let e = avro_point_to_qdrant(ap).unwrap_err();
        assert!(matches!(e, StoreError::Payload(_)));
        assert_eq!(e.context(), Some("Failed to parse payload JSON".to_string()));
    }
}

#[test]
fn vectors_that_are_not_json_are_refused() {
    let mut ap = stored("num");
    ap.vectors = Some("{".to_string());
    let e = avro_point_to_qdrant(ap).unwrap_err();
    assert!(matches!(e, StoreError::Vectors(_)));
    assert_eq!(e.context(), Some("Failed to parse vectors JSON".to_string()));
    let mut ap = stored("num");
    ap.vectors = Some("null".to_string());
    assert!(matches!(avro_point_to_qdrant(ap), Err(StoreError::NotVectors(_))));
    let mut ap = stored("num");
    ap.vectors = Some("{\"vector\":[]}".to_string());
    assert!(matches!(avro_point_to_qdrant(ap), Err(StoreError::NotVector(_))));
}

#[test]
fn the_first_thing_that_is_wrong_is_said() {
    let ap = AvroPoint {
        id_type: "other".to_string(),
        id_num: None,
        id_uuid: None,
        payload: "[".to_string(),
        vectors: Some("{".to_string()),
    };
    assert!(matches!(avro_point_to_qdrant(ap), Err(StoreError::UnknownIdType(_))));
    let mut ap = stored("num");
    ap.payload = "[".to_string();
    ap.vectors = Some("{".to_string());
    assert!(matches!(avro_point_to_qdrant(ap), Err(StoreError::Payload(_))));
}

#[test]
fn points_without_vectors_have_none() {
    let restored = point_from_json(PointIdOptions::Num(1), &Dict::new(), None).unwrap();
    assert_eq!(
        restored,
        PointStruct { id: PointIdOptions::Num(1), payload: Dict::new(), vectors: None }
    );
}

#[test]
fn payloads_that_are_nested_too_deeply_are_stored_and_not_restored() {
    let nest = |depth: usize| {
        let mut value = PayloadValue::List(vec![]);
        for _ in 1..depth {
            value = PayloadValue::List(vec![value]);
        }
        RetrievedPoint {
            id: Some(PointId { point_id_options: Some(uuid()) }),
            payload: fields(vec![("a", value)]),
            vectors: None,
        }
    };
    let (records, refused) = page_to_avro_records(&vec![nest(126), nest(127)]);
    assert!(refused.is_none());
    let mut read = through_avro(records);
    assert!(matches!(avro_point_to_qdrant(read.pop().unwrap()), Err(StoreError::Payload(_))));
    assert_eq!(avro_point_to_qdrant(read.pop().unwrap()).unwrap().payload, nest(126).payload);
}
