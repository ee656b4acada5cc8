//! Why a point or the notes on a collection could not be written or read.
use vstd::prelude::*;

verus! {

/// Why a point or the notes on a collection could not be written or read.
#[derive(Debug)]
pub enum StoreError {
    /// The point has no id.
    NoId,
    /// The point has an id that holds nothing.
    NoIdOptions,
    /// The text is not JSON, or the value has no text.
    Json(serde_json::Error),
    /// The payload is not JSON, or no object.
    Payload(serde_json::Error),
    /// The vectors are not JSON.
    Vectors(serde_json::Error),
    /// The stored point is said to have a number for an id, and has none.
    NoIdNum,
    /// The stored point is said to have a UUID for an id, and has none.
    NoIdUuid,
    /// The stored point is said to have an id of a type that there is not.
    UnknownIdType(String),
    /// The value, whose text this is, holds no vectors.
    NotVectors(String),
    /// The value, whose text this is, holds no vector.
    NotVector(String),
    /// The notes do not name the collection.
    NoCollectionName,
    /// The notes on the collection of this name do not say how its vectors are configured.
    NoVectorsConfig(String),
    /// The configuration of the vectors does not say what type it has.
    NoVectorsConfigType,
    /// The configuration of the vectors has a type that there is not.
    UnknownVectorsConfigType(String),
    /// The configuration of named vectors names none.
    NoNamedParams,
    /// The parameters of a vector do not say its size.
    NoSize,
}

impl StoreError {
    /// What `context` says.
    pub open spec fn context_text(self) -> Option<Seq<char>> {
        match self {
            StoreError::NoId => Some("Point has no ID"@),
            StoreError::NoIdOptions => Some("Point has no ID options"@),
            StoreError::Json(_) => None,
            StoreError::Payload(_) => Some("Failed to parse payload JSON"@),
            StoreError::Vectors(_) => Some("Failed to parse vectors JSON"@),
            StoreError::NoIdNum => Some("id_type is 'num' but id_num is null"@),
            StoreError::NoIdUuid => Some("id_type is 'uuid' but id_uuid is null"@),
            StoreError::UnknownIdType(s) => Some("Unknown id_type: "@ + s@),
            StoreError::NotVectors(s) => Some("Cannot parse vectors JSON: "@ + s@),
            StoreError::NotVector(s) => Some("Cannot parse single vector JSON: "@ + s@),
            StoreError::NoCollectionName => Some(
                "No collection name: pass --collection or ensure metadata.json has 'collection_name'"@,
            ),
            StoreError::NoVectorsConfig(s) => Some(
                "Cannot auto-create '"@ + s@
                    + "': metadata.json has no 'vectors_config' (re-run backup to capture it, or create the collection manually from 'config_debug')"@,
            ),
            StoreError::NoVectorsConfigType => Some("vectors_config.type missing"@),
            StoreError::UnknownVectorsConfigType(s) => Some("Unknown vectors_config type: "@ + s@),
            StoreError::NoNamedParams => Some("vectors_config.params missing for named vectors"@),
            StoreError::NoSize => Some("vector params missing 'size'"@),
        }
    }

    /// What the error says for itself; nothing where all that there is to say is what serde_json
    /// says.
    pub fn context(&self) -> (r: Option<String>)
        ensures
            match r {
                Some(s) => self.context_text() == Some(s@),
                None => self.context_text() is None,
            },
    {
        match self {
            StoreError::NoId => Some("Point has no ID".to_owned()),
            StoreError::NoIdOptions => Some("Point has no ID options".to_owned()),
            StoreError::Json(_) => None,
            StoreError::Payload(_) => Some("Failed to parse payload JSON".to_owned()),
            StoreError::Vectors(_) => Some("Failed to parse vectors JSON".to_owned()),
            StoreError::NoIdNum => Some("id_type is 'num' but id_num is null".to_owned()),
            StoreError::NoIdUuid => Some("id_type is 'uuid' but id_uuid is null".to_owned()),
            StoreError::UnknownIdType(s) => Some("Unknown id_type: ".to_owned().concat(s.as_str())),
            StoreError::NotVectors(s) => Some(
                "Cannot parse vectors JSON: ".to_owned().concat(s.as_str()),
            ),
            StoreError::NotVector(s) => Some(
                "Cannot parse single vector JSON: ".to_owned().concat(s.as_str()),
            ),
            StoreError::NoCollectionName => Some(
                "No collection name: pass --collection or ensure metadata.json has 'collection_name'".to_owned(),
            ),
            StoreError::NoVectorsConfig(s) => Some(
                "Cannot auto-create '".to_owned().concat(s.as_str()).concat(
                    "': metadata.json has no 'vectors_config' (re-run backup to capture it, or create the collection manually from 'config_debug')",
                ),
            ),
            StoreError::NoVectorsConfigType => Some("vectors_config.type missing".to_owned()),
            StoreError::UnknownVectorsConfigType(s) => Some(
                "Unknown vectors_config type: ".to_owned().concat(s.as_str()),
            ),
            StoreError::NoNamedParams => Some(
                "vectors_config.params missing for named vectors".to_owned(),
            ),
            StoreError::NoSize => Some("vector params missing 'size'".to_owned()),
        }
    }
}

} // verus!
