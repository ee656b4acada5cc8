use qdctl::backup::{vector_output_to_json, vectors_output_to_json};
use qdctl::dict::Dict;
use qdctl::error::StoreError;
use qdctl::json::Json;
use qdctl::json_text::{json_to_string, parse_json};
use qdctl::points::{Vector, VectorOutput, Vectors, VectorsOutput};
use qdctl::restore::{json_to_vectors, parse_single_vector};
use serde_json::Number;

fn component(x: f32) -> Option<Number> {
    Number::from_f64(f64::from(x))
}

fn fetched(data: &[f32]) -> Vec<Option<Number>> {
    data.iter().map(|x| component(*x)).collect()
}

fn numbers(data: &[f32]) -> Vec<Number> {
    data.iter().map(|x| component(*x).unwrap()).collect()
}

fn zero() -> Number {
    Number::from(0u64)
}

fn vector(text: &str) -> Result<Vector, StoreError> {
    parse_single_vector(&parse_json(text).unwrap())
}

fn vectors(text: &str) -> Result<Vectors, StoreError> {
    json_to_vectors(&parse_json(text).unwrap())
}

fn text_of(v: &VectorsOutput) -> String {
    json_to_string(&vectors_output_to_json(v)).unwrap()
}

#[test]
fn each_kind_of_vector_has_its_text() {
    let dense = Some(VectorOutput::Dense(fetched(&[1.0, -0.5])));
    assert_eq!(json_to_string(&vector_output_to_json(&dense)).unwrap(), "{\"dense\":[1.0,-0.5]}");
    let sparse =
        Some(VectorOutput::Sparse { values: fetched(&[0.25]), indices: vec![4294967295] });
    assert_eq!(
        json_to_string(&vector_output_to_json(&sparse)).unwrap(),
        "{\"sparse\":{\"indices\":[4294967295],\"values\":[0.25]}}"
    );
    let multi = Some(VectorOutput::MultiDense(vec![fetched(&[1.0]), fetched(&[])]));
    assert_eq!(
        json_to_string(&vector_output_to_json(&multi)).unwrap(),
        "{\"multi_dense\":[[1.0],[]]}"
    );
    assert_eq!(vector_output_to_json(&None), Json::Null);
}

#[test]
fn single_and_named_vectors_have_their_text() {
    assert_eq!(text_of(&VectorsOutput::Unset), "null");
    assert_eq!(text_of(&VectorsOutput::Single(None)), "{\"vector\":null}");
    assert_eq!(
        text_of(&VectorsOutput::Single(Some(VectorOutput::Dense(fetched(&[2.0]))))),
        "{\"vector\":{\"dense\":[2.0]}}"
    );
    let mut named = Dict::new();
    named.insert("image".to_string(), Some(VectorOutput::Dense(fetched(&[1.0]))));
    named.insert("text".to_string(), None);
    assert_eq!(
        text_of(&VectorsOutput::Named(named)),
        "{\"vectors\":{\"image\":{\"dense\":[1.0]},\"text\":null}}"
    );
}

#[test]
fn vectors_are_restored_as_they_were() {
    let stored = text_of(&VectorsOutput::Single(Some(VectorOutput::MultiDense(vec![
        fetched(&[0.5, 2.0]),
        fetched(&[]),
        fetched(&[-1.0]),
    ]))));
    assert_eq!(
        vectors(&stored).unwrap(),
        Vectors::Single(Vector::MultiDense(vec![
            numbers(&[0.5, 2.0]),
            numbers(&[]),
            numbers(&[-1.0]),
        ]))
    );
    let mut named = Dict::new();
    named.insert("a".to_string(), Some(VectorOutput::Dense(fetched(&[1.0]))));
    named.insert(
        "b".to_string(),
        Some(VectorOutput::Sparse { values: fetched(&[3.0, 4.0]), indices: vec![7, 0] }),
    );
    let mut expected = Dict::new();
    expected.insert("a".to_string(), Vector::Dense(numbers(&[1.0])));
    expected
        .insert("b".to_string(), Vector::Sparse { values: numbers(&[3.0, 4.0]), indices: vec![7, 0] });
    assert_eq!(
        vectors(&text_of(&VectorsOutput::Named(named))).unwrap(),
        Vectors::Named(expected)
    );
}

#[test]
fn vectors_are_restored_from_their_json_as_they_were() {
    let data: Vec<f32> = vec![0.1, -1.1754944e-38, 3.4028235e38, 7.7];
    let dense = VectorsOutput::Single(Some(VectorOutput::Dense(fetched(&data))));
    assert_eq!(
        json_to_vectors(&vectors_output_to_json(&dense)).unwrap(),
        Vectors::Single(Vector::Dense(numbers(&data)))
    );
    let mut named = Dict::new();
    named.insert(
        "s".to_string(),
        Some(VectorOutput::Sparse { values: fetched(&data), indices: vec![9, 8, 7, 6] }),
    );
    named.insert(
        "m".to_string(),
        Some(VectorOutput::MultiDense(vec![fetched(&data), fetched(&[])])),
    );
    let mut expected = Dict::new();
    expected.insert(
        "s".to_string(),
        Vector::Sparse { values: numbers(&data), indices: vec![9, 8, 7, 6] },
    );
    expected
        .insert("m".to_string(), Vector::MultiDense(vec![numbers(&data), numbers(&[])]));
    assert_eq!(
        json_to_vectors(&vectors_output_to_json(&VectorsOutput::Named(named))).unwrap(),
        Vectors::Named(expected)
    );
}

#[test]
fn components_keep_their_value_through_the_text() {
    let data: Vec<f32> = vec![0.1, 1.0e-38, 3.4028235e38, -7.7, 16777217.0, 0.333333343];
    let stored = text_of(&VectorsOutput::Single(Some(VectorOutput::Dense(fetched(&data)))));
    match vectors(&stored).unwrap() {
        Vectors::Single(Vector::Dense(numbers)) => {
            let restored: Vec<f32> = numbers.iter().map(|n| n.as_f64().unwrap() as f32).collect();
            assert_eq!(restored, data);
        }
        other => panic!("{other:?}"),
    }
}

#[test]
fn components_that_are_not_finite_are_restored_as_zero() {
    let data = fetched(&[f32::NAN, 1.0, f32::NEG_INFINITY]);
    assert_eq!(data[0], None);
    let stored = text_of(&VectorsOutput::Single(Some(VectorOutput::Dense(data))));
    assert_eq!(stored, "{\"vector\":{\"dense\":[null,1.0,null]}}");
    assert_eq!(
        vectors(&stored).unwrap(),
        Vectors::Single(Vector::Dense(vec![zero(), component(1.0).unwrap(), zero()]))
    );
}

#[test]
fn what_is_no_number_is_a_zero_component() {
    assert_eq!(
        vector("{\"dense\": [\"1\", 2, true]}").unwrap(),
        Vector::Dense(vec![zero(), Number::from(2u64), zero()])
    );
}

#[test]
fn dense_comes_before_sparse_and_multi_dense() {
    let all = "{\"dense\": [], \"sparse\": {}, \"multi_dense\": [[]]}";
    assert_eq!(vector(all).unwrap(), Vector::Dense(vec![]));
    let no_array = "{\"dense\": 1, \"sparse\": null, \"multi_dense\": [[]]}";
    assert_eq!(
        vector(no_array).unwrap(),
        Vector::Sparse { values: vec![], indices: vec![] }
    );
    let multi = "{\"dense\": 1, \"multi_dense\": [[1], 2, [], null]}";
    assert_eq!(
        vector(multi).unwrap(),
        Vector::MultiDense(vec![vec![Number::from(1u64)], vec![]])
    );
}

#[test]
fn sparse_indices_keep_their_low_bits() {
    assert_eq!(
        vector("{\"sparse\": {\"values\": 5, \"indices\": [4294967297, -1, 1.5, \"2\", 3]}}").unwrap(),
        Vector::Sparse { values: vec![], indices: vec![1, 0, 0, 0, 3] }
    );
}

#[test]
fn values_without_a_vector_are_refused_with_their_text() {
    match vector("{\"multi_dense\": {\"b\": 1, \"a\": 2}}") {
        Err(e) => {
            assert!(matches!(&e, StoreError::NotVector(_)));
            assert_eq!(
                e.context(),
                Some(
                    "Cannot parse single vector JSON: {\"multi_dense\":{\"a\":2,\"b\":1}}".to_string()
                )
            );
        }
        Ok(v) => panic!("{v:?}"),
    }
}

#[test]
fn values_without_vectors_are_refused_with_their_text() {
    for (stored, said) in [
        ("null", "Cannot parse vectors JSON: null"),
        ("{\"vectors\": [1]}", "Cannot parse vectors JSON: {\"vectors\":[1]}"),
        ("{\"vector\": null}", "Cannot parse single vector JSON: null"),
        (
            "{\"vector\": 3, \"vectors\": {\"a\": {\"dense\": []}}}",
            "Cannot parse single vector JSON: 3",
        ),
    ] {
        match vectors(stored) {
            Err(e) => assert_eq!(e.context(), Some(said.to_string())),
            Ok(v) => panic!("{v:?}"),
        }
    }
}

#[test]
fn the_first_name_without_a_vector_is_blamed() {
    let mut named = Dict::new();
    named.insert("z".to_string(), Json::unsigned(1));
    named.insert("m".to_string(), Json::unsigned(2));
    named.insert("a".to_string(), parse_json("{\"dense\": []}").unwrap());
    named.insert("n".to_string(), Json::unsigned(3));
    let mut outer = Dict::new();
    outer.insert("vectors".to_string(), Json::Object(named));
    match json_to_vectors(&Json::Object(outer)) {
        Err(StoreError::NotVector(text)) => assert_eq!(text, "2"),
        other => panic!("{other:?}"),
    }
}

#[test]
fn no_named_vectors_are_restored_as_none() {
    assert_eq!(vectors("{\"vectors\": {}}").unwrap(), Vectors::Named(Dict::new()));
}

#[test]
fn missing_vectors_are_refused() {
    assert!(vectors(&text_of(&VectorsOutput::Unset)).is_err());
    assert!(vectors(&text_of(&VectorsOutput::Single(None))).is_err());
    let mut named = Dict::new();
    named.insert("a".to_string(), Some(VectorOutput::Dense(vec![])));
    named.insert("b".to_string(), None);
    assert!(vectors(&text_of(&VectorsOutput::Named(named))).is_err());
}
