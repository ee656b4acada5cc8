//! Points of a collection: their ids, payloads and vectors.
use crate::dict::{lemma_value_smaller, Dict};
use crate::json::{numeral, Numeral};
use vstd::prelude::*;

verus! {

/// What identifies a point.
#[derive(Debug, PartialEq)]
pub enum PointIdOptions {
    Num(u64),
    Uuid(String),
}

/// The id of a point as it is fetched, where what identifies the point may be missing.
#[derive(Debug, PartialEq)]
pub struct PointId {
    pub point_id_options: Option<PointIdOptions>,
}

/// What a `PointIdOptions` stands for.
#[verifier::ext_equal]
pub enum IdTree {
    Num(u64),
    Uuid(Seq<char>),
}

impl PointIdOptions {
    /// The id that this value stands for.
    pub open spec fn tree(self) -> IdTree {
        match self {
            PointIdOptions::Num(n) => IdTree::Num(n),
            PointIdOptions::Uuid(u) => IdTree::Uuid(u@),
        }
    }

    /// The same id again.
    pub fn duplicate(&self) -> (r: PointIdOptions)
        ensures
            r == *self,
    {
        match self {
            PointIdOptions::Num(n) => PointIdOptions::Num(*n),
            PointIdOptions::Uuid(u) => PointIdOptions::Uuid(u.clone()),
        }
    }
}

impl PointId {
    /// The id that this value stands for, where it holds one.
    pub open spec fn tree(self) -> Option<IdTree> {
        match self.point_id_options {
            Some(options) => Some(options.tree()),
            None => None,
        }
    }

    /// The same id again.
    pub fn duplicate(&self) -> (r: PointId)
        ensures
            r == *self,
    {
        match &self.point_id_options {
            Some(options) => PointId { point_id_options: Some(options.duplicate()) },
            None => PointId { point_id_options: None },
        }
    }
}

/// A value in the payload of a point. A double is held as the JSON number that stands for it, and
/// a double that is not finite, for which there is none, as `None`.
#[derive(Debug, PartialEq)]
pub enum PayloadValue {
    /// A value of no kind at all.
    Unset,
    Null,
    Bool(bool),
    Integer(i64),
    Double(Option<serde_json::Number>),
    Text(String),
    List(Vec<PayloadValue>),
    Struct(Dict<PayloadValue>),
}

/// What a `PayloadValue` stands for.
#[verifier::ext_equal]
pub enum PayloadTree {
    Unset,
    Null,
    Bool(bool),
    Integer(i64),
    Double(Option<Numeral>),
    Text(Seq<char>),
    List(Seq<PayloadTree>),
    Struct(Map<Seq<char>, PayloadTree>),
}

/// What a number that may be missing holds.
pub open spec fn component(n: Option<serde_json::Number>) -> Option<Numeral> {
    match n {
        Some(n) => Some(numeral(n)),
        None => None,
    }
}

/// The trees of a list of payload values.
pub open spec fn payload_list_trees(items: Seq<PayloadValue>) -> Seq<PayloadTree> {
    Seq::new(items.len(), |i: int| items[i].tree())
}

/// The trees of the values of a payload.
pub open spec fn payload_trees(fields: Map<Seq<char>, PayloadValue>) -> Map<
    Seq<char>,
    PayloadTree,
> {
    Map::new(|k: Seq<char>| fields.contains_key(k), |k: Seq<char>| fields[k].tree())
}

impl PayloadValue {
    /// The payload value that this value stands for.
    pub open spec fn tree(self) -> PayloadTree
        decreases self,
        via Self::tree_decreases
    {
        match self {
            PayloadValue::Unset => PayloadTree::Unset,
            PayloadValue::Null => PayloadTree::Null,
            PayloadValue::Bool(b) => PayloadTree::Bool(b),
            PayloadValue::Integer(i) => PayloadTree::Integer(i),
            PayloadValue::Double(n) => PayloadTree::Double(component(n)),
            PayloadValue::Text(s) => PayloadTree::Text(s@),
            PayloadValue::List(v) => PayloadTree::List(
                Seq::new(
                    v@.len(),
                    |i: int|
                        if 0 <= i < v@.len() {
                            v@[i].tree()
                        } else {
                            PayloadTree::Unset
                        },
                ),
            ),
            PayloadValue::Struct(d) => PayloadTree::Struct(
                Map::new(
                    |k: Seq<char>| d@.contains_key(k),
                    |k: Seq<char>|
                        if d@.contains_key(k) {
                            d@[k].tree()
                        } else {
                            PayloadTree::Unset
                        },
                ),
            ),
        }
    }

    #[via_fn]
    proof fn tree_decreases(self) {
        match self {
            PayloadValue::Struct(d) => {
                assert forall|k: Seq<char>| d@.contains_key(k) implies decreases_to!(
                    self => #[trigger] d@[k]) by {
                    lemma_value_smaller(d, k);
                    assert(decreases_to!(self => d));
                }
            },
            _ => {},
        }
    }
}

/// The tree of a list is made of the trees of its items.
pub proof fn lemma_list_tree(v: Vec<PayloadValue>)
    ensures
        PayloadValue::List(v).tree() == PayloadTree::List(payload_list_trees(v@)),
{
    let t = PayloadValue::List(v).tree()->List_0;
    assert forall|i: int| 0 <= i < v@.len() implies #[trigger] t[i] == payload_list_trees(
        v@,
    )[i] by {
        assert(t[i] == v@[i].tree());
    }
    assert(t =~= payload_list_trees(v@));
}

/// The tree of a struct is made of the trees of its fields.
pub proof fn lemma_struct_tree(d: Dict<PayloadValue>)
    ensures
        PayloadValue::Struct(d).tree() == PayloadTree::Struct(payload_trees(d@)),
{
    let t = PayloadValue::Struct(d).tree()->Struct_0;
    assert forall|k: Seq<char>| d@.contains_key(k) implies #[trigger] t[k] == payload_trees(
        d@,
    )[k] by {
        assert(t[k] == d@[k].tree());
    }
    assert(t =~= payload_trees(d@));
}

/// One more field of a payload is one more tree.
pub proof fn lemma_payload_trees_insert(
    m: Map<Seq<char>, PayloadValue>,
    k: Seq<char>,
    v: PayloadValue,
)
    ensures
        payload_trees(m.insert(k, v)) == payload_trees(m).insert(k, v.tree()),
{
    assert(payload_trees(m.insert(k, v)) =~= payload_trees(m).insert(k, v.tree()));
}

/// A vector as it is fetched. A component is held as the JSON number that stands for it, and one
/// that is not finite, for which there is none, as `None`.
#[derive(Debug, PartialEq)]
pub enum VectorOutput {
    Dense(Vec<Option<serde_json::Number>>),
    Sparse { values: Vec<Option<serde_json::Number>>, indices: Vec<u32> },
    MultiDense(Vec<Vec<Option<serde_json::Number>>>),
}

/// What a `VectorOutput` stands for.
#[verifier::ext_equal]
pub enum VectorOutputTree {
    Dense(Seq<Option<Numeral>>),
    Sparse { values: Seq<Option<Numeral>>, indices: Seq<u32> },
    MultiDense(Seq<Seq<Option<Numeral>>>),
}

/// What the components of a vector that is fetched hold.
pub open spec fn components(data: Seq<Option<serde_json::Number>>) -> Seq<Option<Numeral>> {
    Seq::new(data.len(), |i: int| component(data[i]))
}

/// What the components of each of some vectors that are fetched hold.
pub open spec fn component_rows(rows: Seq<Vec<Option<serde_json::Number>>>) -> Seq<
    Seq<Option<Numeral>>,
> {
    Seq::new(rows.len(), |i: int| components(rows[i]@))
}

impl VectorOutput {
    /// The vector that this value stands for.
    pub open spec fn tree(self) -> VectorOutputTree {
        match self {
            VectorOutput::Dense(data) => VectorOutputTree::Dense(components(data@)),
            VectorOutput::Sparse { values, indices } => VectorOutputTree::Sparse {
                values: components(values@),
                indices: indices@,
            },
            VectorOutput::MultiDense(rows) => VectorOutputTree::MultiDense(component_rows(rows@)),
        }
    }
}

/// The tree of a vector that may be missing.
pub open spec fn option_vector_tree(v: Option<VectorOutput>) -> Option<VectorOutputTree> {
    match v {
        Some(v) => Some(v.tree()),
        None => None,
    }
}

/// A vector that is to be written. A component is held as the JSON number that stands for it.
#[derive(Debug, PartialEq)]
pub enum Vector {
    Dense(Vec<serde_json::Number>),
    Sparse { values: Vec<serde_json::Number>, indices: Vec<u32> },
    MultiDense(Vec<Vec<serde_json::Number>>),
}

/// What a `Vector` stands for.
#[verifier::ext_equal]
pub enum VectorTree {
    Dense(Seq<Numeral>),
    Sparse { values: Seq<Numeral>, indices: Seq<u32> },
    MultiDense(Seq<Seq<Numeral>>),
}

/// What some numbers hold.
pub open spec fn numerals(data: Seq<serde_json::Number>) -> Seq<Numeral> {
    Seq::new(data.len(), |i: int| numeral(data[i]))
}

/// What the numbers in each of some rows hold.
pub open spec fn numeral_rows(rows: Seq<Vec<serde_json::Number>>) -> Seq<Seq<Numeral>> {
    Seq::new(rows.len(), |i: int| numerals(rows[i]@))
}

impl Vector {
    /// The vector that this value stands for.
    pub open spec fn tree(self) -> VectorTree {
        match self {
            Vector::Dense(data) => VectorTree::Dense(numerals(data@)),
            Vector::Sparse { values, indices } => VectorTree::Sparse {
                values: numerals(values@),
                indices: indices@,
            },
            Vector::MultiDense(rows) => VectorTree::MultiDense(numeral_rows(rows@)),
        }
    }
}

/// The vectors of a point as they are fetched, any of which may be missing.
#[derive(Debug, PartialEq)]
pub enum VectorsOutput {
    /// Neither one vector nor named ones.
    Unset,
    Single(Option<VectorOutput>),
    Named(Dict<Option<VectorOutput>>),
}

/// What a `VectorsOutput` stands for.
#[verifier::ext_equal]
pub enum VectorsOutputTree {
    Unset,
    Single(Option<VectorOutputTree>),
    Named(Map<Seq<char>, Option<VectorOutputTree>>),
}

/// The trees of named vectors, any of which may be missing.
pub open spec fn named_output_trees(named: Map<Seq<char>, Option<VectorOutput>>) -> Map<
    Seq<char>,
    Option<VectorOutputTree>,
> {
    Map::new(|k: Seq<char>| named.contains_key(k), |k: Seq<char>| option_vector_tree(named[k]))
}

impl VectorsOutput {
    /// The vectors that this value stands for.
    pub open spec fn tree(self) -> VectorsOutputTree {
        match self {
            VectorsOutput::Unset => VectorsOutputTree::Unset,
            VectorsOutput::Single(v) => VectorsOutputTree::Single(option_vector_tree(v)),
            VectorsOutput::Named(named) => VectorsOutputTree::Named(named_output_trees(named@)),
        }
    }
}

/// The vectors of a point that is to be written.
#[derive(Debug, PartialEq)]
pub enum Vectors {
    Single(Vector),
    Named(Dict<Vector>),
}

/// What a `Vectors` stands for.
#[verifier::ext_equal]
pub enum VectorsTree {
    Single(VectorTree),
    Named(Map<Seq<char>, VectorTree>),
}

/// The trees of named vectors.
pub open spec fn named_trees(named: Map<Seq<char>, Vector>) -> Map<Seq<char>, VectorTree> {
    Map::new(|k: Seq<char>| named.contains_key(k), |k: Seq<char>| named[k].tree())
}

impl Vectors {
    /// The vectors that this value stands for.
    pub open spec fn tree(self) -> VectorsTree {
        match self {
            Vectors::Single(v) => VectorsTree::Single(v.tree()),
            Vectors::Named(named) => VectorsTree::Named(named_trees(named@)),
        }
    }
}

/// A point as it is fetched.
#[derive(Debug, PartialEq)]
pub struct RetrievedPoint {
    pub id: Option<PointId>,
    pub payload: Dict<PayloadValue>,
    pub vectors: Option<VectorsOutput>,
}

/// What a `RetrievedPoint` stands for; the id is `None` where the point has none or an empty one.
#[verifier::ext_equal]
pub struct RetrievedTree {
    pub id: Option<IdTree>,
    pub payload: Map<Seq<char>, PayloadTree>,
    pub vectors: Option<VectorsOutputTree>,
}

impl RetrievedPoint {
    /// The point that this value stands for.
    pub open spec fn tree(self) -> RetrievedTree {
        RetrievedTree {
            id: match self.id {
                Some(id) => id.tree(),
                None => None,
            },
            payload: payload_trees(self.payload@),
            vectors: match self.vectors {
                Some(v) => Some(v.tree()),
                None => None,
            },
        }
    }
}

/// A point that is to be written.
#[derive(Debug, PartialEq)]
pub struct PointStruct {
    pub id: PointIdOptions,
    pub payload: Dict<PayloadValue>,
    pub vectors: Option<Vectors>,
}

/// What a `PointStruct` stands for.
#[verifier::ext_equal]
pub struct PointTree {
    pub id: IdTree,
    pub payload: Map<Seq<char>, PayloadTree>,
    pub vectors: Option<VectorsTree>,
}

impl PointStruct {
    /// The point that this value stands for.
    pub open spec fn tree(self) -> PointTree {
        PointTree {
            id: self.id.tree(),
            payload: payload_trees(self.payload@),
            vectors: match self.vectors {
                Some(v) => Some(v.tree()),
                None => None,
            },
        }
    }
}

} // verus!
