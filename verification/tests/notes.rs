use qdctl::backup::{build_metadata, extract_vectors_config, metadata_text, vp_to_json};
use qdctl::collections::{
    CollectionConfig, CollectionInfo, CollectionParams, MultiVectorConfig, VectorParams,
    VectorsConfig, VectorsConfigKind,
};
use qdctl::dict::Dict;
use qdctl::error::StoreError;
use qdctl::json::Json;
use qdctl::json_text::{json_to_string, parse_json};
use qdctl::restore::{
    collection_name, json_to_vector_params, read_collection_name, vectors_config_from_json,
    vectors_config_from_metadata,
};

fn bare(size: u64, distance: i32) -> VectorParams {
    VectorParams { size, distance, on_disk: None, datatype: None, multivector_config: None }
}

fn full() -> VectorParams {
    VectorParams {
        size: u64::MAX,
        distance: i32::MIN,
        on_disk: Some(false),
        datatype: Some(2),
        multivector_config: Some(MultiVectorConfig { comparator: 0 }),
    }
}

fn named() -> VectorsConfigKind {
    let mut map = Dict::new();
    map.insert("image".to_string(), full());
    map.insert("text".to_string(), bare(8, 3));
    VectorsConfigKind::ParamsMap(map)
}

fn info(config: Option<VectorsConfigKind>) -> CollectionInfo {
    CollectionInfo {
        points_count: Some(3),
        indexed_vectors_count: None,
        segments_count: 2,
        config: Some(CollectionConfig {
            params: Some(CollectionParams { vectors_config: Some(VectorsConfig { config }) }),
        }),
        config_debug: "Some(..)".to_string(),
    }
}

fn config(text: &str) -> Result<VectorsConfigKind, StoreError> {
    vectors_config_from_metadata("c", text)
}

fn said(r: Result<VectorsConfigKind, StoreError>) -> String {
    r.unwrap_err().context().unwrap()
}

#[test]
fn parameters_that_are_not_set_are_left_out() {
    assert_eq!(
        json_to_string(&vp_to_json(&bare(4, 1))).unwrap(),
        "{\"distance\":1,\"size\":4}"
    );
    assert_eq!(
        json_to_string(&vp_to_json(&full())).unwrap(),
        "{\"datatype\":2,\"distance\":-2147483648,\"multivector_comparator\":0,\
         \"on_disk\":false,\"size\":18446744073709551615}"
    );
}

#[test]
fn parameters_are_restored_as_they_were() {
    assert_eq!(json_to_vector_params(&vp_to_json(&bare(4, 1))).unwrap(), bare(4, 1));
    assert_eq!(json_to_vector_params(&vp_to_json(&full())).unwrap(), full());
}

#[test]
fn parameters_of_other_types_are_not_set() {
    let params = parse_json(
        "{\"size\": 1, \"distance\": \"x\", \"on_disk\": 1, \"datatype\": 1.5, \
         \"multivector_comparator\": 4294967296}",
    );
    assert_eq!(
        json_to_vector_params(&params.unwrap()).unwrap(),
        VectorParams {
            size: 1,
            distance: 0,
            on_disk: None,
            datatype: None,
            multivector_config: Some(MultiVectorConfig { comparator: 0 }),
        }
    );
}

#[test]
fn parameters_keep_their_low_bits() {
    let params = parse_json("{\"size\": 1, \"distance\": 4294967297, \"datatype\": 2147483648}");
    let restored = json_to_vector_params(&params.unwrap()).unwrap();
    assert_eq!(restored.distance, 1);
    assert_eq!(restored.datatype, Some(i32::MIN));
}

#[test]
fn parameters_without_a_size_are_refused() {
    for text in ["{}", "null", "{\"size\": -1}", "{\"size\": 1.0}", "{\"size\": \"1\"}"] {
        let e = json_to_vector_params(&parse_json(text).unwrap()).unwrap_err();
        assert!(matches!(e, StoreError::NoSize));
        assert_eq!(e.context(), Some("vector params missing 'size'".to_string()));
    }
}

#[test]
fn a_configuration_that_is_not_known_is_noted_as_null() {
    assert_eq!(extract_vectors_config(&info(None)), Json::Null);
    let mut i = info(None);
    i.config = Some(CollectionConfig { params: Some(CollectionParams { vectors_config: None }) });
    assert_eq!(extract_vectors_config(&i), Json::Null);
    i.config = Some(CollectionConfig { params: None });
    assert_eq!(extract_vectors_config(&i), Json::Null);
    i.config = None;
    assert_eq!(extract_vectors_config(&i), Json::Null);
}

#[test]
fn the_notes_on_a_collection_are_exact() {
    let text = metadata_text("c", &info(Some(VectorsConfigKind::Params(bare(4, 1))))).unwrap();
    assert_eq!(
        text,
        "{\n  \"collection_name\": \"c\",\n  \"config_debug\": \"Some(..)\",\n  \
         \"indexed_vectors_count\": null,\n  \"points_count\": 3,\n  \"segments_count\": 2,\n  \
         \"vectors_config\": {\n    \"params\": {\n      \"distance\": 1,\n      \"size\": 4\n    \
         },\n    \"type\": \"single\"\n  }\n}"
    );
}

#[test]
fn the_notes_are_read_back_as_they_were() {
    for kind in [None, Some(VectorsConfigKind::Params(full())), Some(named())] {
        let i = info(kind);
        let text = metadata_text("c", &i).unwrap();
        let written = json_to_string(&build_metadata("c", &i)).unwrap();
        assert_eq!(json_to_string(&parse_json(&text).unwrap()).unwrap(), written);
    }
}

#[test]
fn collections_are_restored_from_the_notes() {
    let text = metadata_text("a \"b\"", &info(Some(VectorsConfigKind::Params(full())))).unwrap();
    assert_eq!(read_collection_name(&text).unwrap(), "a \"b\"");
    assert_eq!(config(&text).unwrap(), VectorsConfigKind::Params(full()));
    let text = metadata_text("", &info(Some(named()))).unwrap();
    assert_eq!(read_collection_name(&text).unwrap(), "");
    assert_eq!(config(&text).unwrap(), named());
}

#[test]
fn notes_of_the_older_form_are_read() {
    assert_eq!(
        config("{\"vectors_config\": {\"type\": \"single\", \"size\": 4, \"distance\": 2}}").unwrap(),
        VectorsConfigKind::Params(bare(4, 2))
    );
    assert_eq!(
        config("{\"vectors_config\": {\"type\": \"single\", \"size\": 4, \"params\": [1]}}").unwrap(),
        VectorsConfigKind::Params(bare(4, 0))
    );
}

#[test]
fn notes_without_a_configuration_are_refused() {
    let text = metadata_text("c", &info(None)).unwrap();
    for text in [text.as_str(), "{}", "7", "{\"vectors_config\": null}"] {
        let r = config(text);
        assert!(matches!(&r, Err(StoreError::NoVectorsConfig(_))));
        assert_eq!(
            said(r),
            "Cannot auto-create 'c': metadata.json has no 'vectors_config' (re-run backup to \
             capture it, or create the collection manually from 'config_debug')"
        );
    }
    let r = vectors_config_from_json("d", &Json::Null);
    assert!(matches!(r, Err(StoreError::NoVectorsConfig(name)) if name == "d"));
}

#[test]
fn configurations_without_a_known_type_are_refused() {
    for text in ["{\"vectors_config\": {}}", "{\"vectors_config\": {\"type\": 1}}",
        "{\"vectors_config\": []}"]
    {
        let r = config(text);
        assert!(matches!(&r, Err(StoreError::NoVectorsConfigType)));
        assert_eq!(said(r), "vectors_config.type missing");
    }
    let r = config("{\"vectors_config\": {\"type\": \"Single\"}}");
    assert!(matches!(&r, Err(StoreError::UnknownVectorsConfigType(_))));
    assert_eq!(said(r), "Unknown vectors_config type: Single");
}

#[test]
fn configurations_without_their_parameters_are_refused() {
    let r = config("{\"vectors_config\": {\"type\": \"named\", \"params\": [1]}}");
    assert!(matches!(&r, Err(StoreError::NoNamedParams)));
    assert_eq!(said(r), "vectors_config.params missing for named vectors");
    let r = config("{\"vectors_config\": {\"type\": \"named\", \"params\": {\"a\": {}}}}");
    assert!(matches!(r, Err(StoreError::NoSize)));
    let r = config("{\"vectors_config\": {\"type\": \"single\", \"params\": {}, \"size\": 3}}");
    assert!(matches!(r, Err(StoreError::NoSize)));
}

#[test]
fn notes_that_are_not_json_are_refused() {
    let r = config("{");
    assert!(matches!(&r, Err(StoreError::Json(_))));
    assert_eq!(r.unwrap_err().context(), None);
    assert!(matches!(read_collection_name("{"), Err(StoreError::Json(_))));
}

#[test]
fn notes_that_name_no_collection_are_refused() {
    for text in ["{}", "[]", "{\"collection_name\": 1}", "{\"collection_name\": null}"] {
        let e = collection_name(&parse_json(text).unwrap()).unwrap_err();
        assert!(matches!(e, StoreError::NoCollectionName));
        assert_eq!(
            e.context(),
            Some(
                "No collection name: pass --collection or ensure metadata.json has \
                 'collection_name'"
                    .to_string()
            )
        );
    }
    assert_eq!(
        collection_name(&parse_json("{\"collection_name\": \"x\"}").unwrap()).unwrap(),
        "x"
    );
}
