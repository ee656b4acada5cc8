//! Collections: how their vectors are configured, and what a backup notes of them.
use crate::dict::Dict;
use vstd::prelude::*;

verus! {

/// How several vectors of one point are compared.
#[derive(Debug, Clone, Copy, PartialEq, Eq)]
pub struct MultiVectorConfig {
    pub comparator: i32,
}

/// How a vector is stored and compared.
#[derive(Debug, Clone, Copy, PartialEq, Eq)]
pub struct VectorParams {
    pub size: u64,
    pub distance: i32,
    pub on_disk: Option<bool>,
    pub datatype: Option<i32>,
    pub multivector_config: Option<MultiVectorConfig>,
}

/// How the vectors of a collection are configured: one vector, or vectors by name.
#[derive(Debug, PartialEq)]
pub enum VectorsConfigKind {
    Params(VectorParams),
    ParamsMap(Dict<VectorParams>),
}

/// What a `VectorsConfigKind` stands for.
#[verifier::ext_equal]
pub enum ConfigTree {
    Params(VectorParams),
    ParamsMap(Map<Seq<char>, VectorParams>),
}

impl VectorsConfigKind {
    /// The configuration that this value stands for.
    pub open spec fn tree(self) -> ConfigTree {
        match self {
            VectorsConfigKind::Params(p) => ConfigTree::Params(p),
            VectorsConfigKind::ParamsMap(m) => ConfigTree::ParamsMap(m@),
        }
    }
}

/// The configuration of vectors as it is fetched, where it may be missing.
#[derive(Debug, PartialEq)]
pub struct VectorsConfig {
    pub config: Option<VectorsConfigKind>,
}

/// The parameters of a collection as they are fetched.
#[derive(Debug, PartialEq)]
pub struct CollectionParams {
    pub vectors_config: Option<VectorsConfig>,
}

/// The configuration of a collection as it is fetched.
#[derive(Debug, PartialEq)]
pub struct CollectionConfig {
    pub params: Option<CollectionParams>,
}

/// A collection as it is fetched.
#[derive(Debug, PartialEq)]
pub struct CollectionInfo {
    pub points_count: Option<u64>,
    pub indexed_vectors_count: Option<u64>,
    pub segments_count: u64,
    pub config: Option<CollectionConfig>,
    /// The configuration in words, for a reader.
    pub config_debug: String,
}

impl CollectionInfo {
    /// The configuration of the collection's vectors, where it is known.
    pub open spec fn vectors_config(self) -> Option<ConfigTree> {
        match self.config {
            Some(CollectionConfig {
                params: Some(
                    CollectionParams { vectors_config: Some(VectorsConfig { config: Some(kind) }) },
                ),
            }) => Some(kind.tree()),
            _ => None,
        }
    }
}

} // verus!
