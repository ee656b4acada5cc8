//! Restoring: from what is stored of points and collections back to them.
use crate::avro_schema::{lemma_id_types_differ, AvroPoint, AvroPointTree};
use crate::collections::{ConfigTree, MultiVectorConfig, VectorParams, VectorsConfigKind};
use crate::dict::Dict;
use crate::directories::BackupDir;
use crate::error::StoreError;
use crate::json::{
    lemma_array_tree, lemma_object_tree, list_trees, map_trees, number_of_unsigned, numeral, Json,
    Numeral, Tree,
};
use crate::json_text::{
    is_refused_with, json_text, json_to_string, object_error, parse_json, parse_json_object,
    read_text,
};
use crate::points::{
    lemma_list_tree, lemma_payload_trees_insert, lemma_struct_tree, named_trees, numeral_rows,
    numerals, payload_list_trees, payload_trees, IdTree, PayloadTree, PayloadValue, PointIdOptions,
    PointStruct, PointTree, Vector, VectorTree, Vectors, VectorsTree,
};
use crate::text_order::{
    lemma_asymmetric, lemma_irreflexive, lemma_less_not_less, precedes, text_less,
};
use vstd::prelude::*;

verus! {

/// The payload value that is restored from a JSON value. A number is an integer where it is one
/// that fits, and a double otherwise.
pub open spec fn json_value(t: Tree) -> PayloadTree
    decreases t,
{
    match t {
        Tree::Null => PayloadTree::Null,
        Tree::Bool(b) => PayloadTree::Bool(b),
        Tree::Number(n) => match n.signed() {
            Some(i) => PayloadTree::Integer(i),
            None => PayloadTree::Double(Some(n)),
        },
        Tree::Text(s) => PayloadTree::Text(s),
        Tree::Array(s) => PayloadTree::List(
            Seq::new(
                s.len(),
                |i: int|
                    if 0 <= i < s.len() {
                        json_value(s[i])
                    } else {
                        PayloadTree::Null
                    },
            ),
        ),
        Tree::Object(m) => PayloadTree::Struct(
            Map::new(
                |k: Seq<char>| m.contains_key(k),
                |k: Seq<char>|
                    if m.contains_key(k) {
                        json_value(m[k])
                    } else {
                        PayloadTree::Null
                    },
            ),
        ),
    }
}

/// The payload that is restored from the members of a JSON object.
pub open spec fn json_payload(m: Map<Seq<char>, Tree>) -> Map<Seq<char>, PayloadTree> {
    Map::new(|k: Seq<char>| m.contains_key(k), |k: Seq<char>| json_value(m[k]))
}

/// An object is restored as the struct of what its members are restored as.
proof fn lemma_object_value(m: Map<Seq<char>, Tree>)
    ensures
        json_value(Tree::Object(m)) == PayloadTree::Struct(json_payload(m)),
{
    let t = json_value(Tree::Object(m))->Struct_0;
    assert forall|k: Seq<char>| m.contains_key(k) implies #[trigger] t[k] == json_payload(m)[k] by {
        assert(t[k] == json_value(m[k]));
    }
    assert(t =~= json_payload(m));
}

/// The payload that is restored from a JSON object.
pub fn json_map_to_qdrant_payload(map: &Dict<Json>) -> (r: Dict<PayloadValue>)
    ensures
        payload_trees(r@) == json_payload(map_trees(map@)),
    decreases *map,
{
    let n = map.len();
    let mut r: Dict<PayloadValue> = Dict::new();
    let mut i: usize = 0;
    proof {
        assert(payload_trees(r@) =~= json_payload(map_trees(map.prefix(0))));
    }
    while i < n
        invariant
            i <= n,
            n == map.entries().len(),
            payload_trees(r@) == json_payload(map_trees(map.prefix(i as int))),
        decreases n - i,
    {
        let (name, json) = map.entry(i);
        let value = json_to_qdrant_value(json);
        proof {
            assert(!payload_trees(r@).contains_key(name@));
            lemma_payload_trees_insert(r@, name@, value);
        }
        r.push(name.clone(), value);
        i += 1;
        proof {
            assert(payload_trees(r@) =~= json_payload(map_trees(map.prefix(i as int))));
        }
    }
    r
}

/// The payload value that is restored from a JSON value.
pub fn json_to_qdrant_value(v: &Json) -> (r: PayloadValue)
    ensures
        r.tree() == json_value(v.tree()),
    decreases *v,
{
    match v {
        Json::Null => PayloadValue::Null,
        Json::Bool(b) => PayloadValue::Bool(*b),
        Json::Number(n) => match n.as_i64() {
            Some(i) => PayloadValue::Integer(i),
            None => PayloadValue::Double(Some(n.clone())),
        },
        Json::Text(s) => PayloadValue::Text(s.clone()),
        Json::Array(items) => {
            let mut values: Vec<PayloadValue> = Vec::new();
            let mut i: usize = 0;
            while i < items.len()
                invariant
                    i <= items@.len(),
                    decreases_to!(*v => *items),
                    values@.len() == i,
                    forall|k: int|
                        0 <= k < i ==> (#[trigger] values@[k]).tree() == json_value(
                            items@[k].tree(),
                        ),
                decreases items@.len() - i,
            {
                assert(decreases_to!(*items => items@));
                assert(decreases_to!(items@ => items@[i as int]));
                values.push(json_to_qdrant_value(&items[i]));
                i += 1;
            }
            proof {
                lemma_array_tree(*items);
                lemma_list_tree(values);
                let s = list_trees(items@);
                let t = json_value(Tree::Array(s))->List_0;
                assert forall|k: int| 0 <= k < s.len() implies #[trigger] t[k]
                    == payload_list_trees(values@)[k] by {
                    assert(t[k] == json_value(s[k]));
                    assert(values@[k].tree() == json_value(items@[k].tree()));
                }
                assert(t =~= payload_list_trees(values@));
            }
            PayloadValue::List(values)
        },
        Json::Object(members) => {
            let fields = json_map_to_qdrant_payload(members);
            proof {
                lemma_object_tree(*members);
                lemma_object_value(map_trees(members@));
                lemma_struct_tree(fields);
            }
            PayloadValue::Struct(fields)
        },
    }
}

/// The component that is restored from a JSON value: a number, and zero from anything else.
pub open spec fn json_component(t: Tree) -> Numeral {
    match t.as_number() {
        Some(n) => n,
        None => Numeral::Unsigned(0),
    }
}

/// The components that are restored from a JSON array.
pub open spec fn json_components(items: Seq<Tree>) -> Seq<Numeral> {
    Seq::new(items.len(), |i: int| json_component(items[i]))
}

/// The index that is restored from a JSON value: the low bits of an unsigned integer, and zero
/// from anything else.
pub open spec fn json_index(t: Tree) -> u32 {
    match t.as_u64() {
        Some(u) => u as u32,
        None => 0,
    }
}

/// The indices that are restored from a JSON array.
pub open spec fn json_indices(items: Seq<Tree>) -> Seq<u32> {
    Seq::new(items.len(), |i: int| json_index(items[i]))
}

/// The vectors that are restored from a JSON array: what is no array is left out.
pub open spec fn json_rows(items: Seq<Tree>) -> Seq<Seq<Numeral>>
    decreases items.len(),
{
    if items.len() == 0 {
        Seq::empty()
    } else {
        match items.last().as_array() {
            Some(row) => json_rows(items.drop_last()).push(json_components(row)),
            None => json_rows(items.drop_last()),
        }
    }
}

/// The items of an array, none of any other value.
pub open spec fn items_of(t: Tree) -> Seq<Tree> {
    match t.as_array() {
        Some(items) => items,
        None => Seq::empty(),
    }
}

/// The vector that is restored from a JSON value, where it holds one: a dense one, else a sparse
/// one, else several dense ones.
pub open spec fn json_vector(t: Tree) -> Option<VectorTree> {
    match t.field("dense"@).as_array() {
        Some(data) => Some(VectorTree::Dense(json_components(data))),
        None => match t.get("sparse"@) {
            Some(sparse) => Some(
                VectorTree::Sparse {
                    values: json_components(items_of(sparse.field("values"@))),
                    indices: json_indices(items_of(sparse.field("indices"@))),
                },
            ),
            None => match t.field("multi_dense"@).as_array() {
                Some(rows) => Some(VectorTree::MultiDense(json_rows(rows))),
                None => None,
            },
        },
    }
}

/// The components that are restored from the items of a JSON array.
fn json_to_components(items: &Vec<Json>) -> (r: Vec<serde_json::Number>)
    ensures
        numerals(r@) == json_components(list_trees(items@)),
{
    let mut r: Vec<serde_json::Number> = Vec::new();
    let mut i: usize = 0;
    while i < items.len()
        invariant
            i <= items@.len(),
            r@.len() == i,
            forall|k: int|
                0 <= k < i ==> numeral(#[trigger] r@[k]) == json_component(items@[k].tree()),
        decreases items@.len() - i,
    {
        let c = match &items[i] {
            Json::Number(n) => n.clone(),
            _ => number_of_unsigned(0),
        };
        r.push(c);
        i += 1;
    }
    assert(numerals(r@) =~= json_components(list_trees(items@)));
    r
}

/// The indices that are restored from the items of a JSON array.
fn json_to_indices(items: &Vec<Json>) -> (r: Vec<u32>)
    ensures
        r@ == json_indices(list_trees(items@)),
{
    let mut r: Vec<u32> = Vec::new();
    let mut i: usize = 0;
    while i < items.len()
        invariant
            i <= items@.len(),
            r@.len() == i,
            forall|k: int| 0 <= k < i ==> #[trigger] r@[k] == json_index(items@[k].tree()),
        decreases items@.len() - i,
    {
        let u: u64 = match items[i].as_u64() {
            Some(u) => u,
            None => 0,
        };
        r.push(#[verifier::truncate] (u as u32));
        i += 1;
    }
    assert(r@ =~= json_indices(list_trees(items@)));
    r
}

/// The vectors that are restored from the items of a JSON array.
fn json_to_rows(items: &Vec<Json>) -> (r: Vec<Vec<serde_json::Number>>)
    ensures
        numeral_rows(r@) == json_rows(list_trees(items@)),
{
    let mut r: Vec<Vec<serde_json::Number>> = Vec::new();
    let mut i: usize = 0;
    let ghost trees = list_trees(items@);
    assert(numeral_rows(r@) =~= json_rows(trees.take(0)));
    while i < items.len()
        invariant
            i <= items@.len(),
            trees == list_trees(items@),
            numeral_rows(r@) == json_rows(trees.take(i as int)),
        decreases items@.len() - i,
    {
        proof {
            assert(trees.take(i + 1).drop_last() =~= trees.take(i as int));
        }
        match items[i].as_array() {
            Some(row) => {
                let ghost before = numeral_rows(r@);
                r.push(json_to_components(row));
                proof {
                    assert(numeral_rows(r@) =~= before.push(json_components(list_trees(row@))));
                }
            },
            None => {},
        }
        i += 1;
    }
    assert(trees.take(i as int) =~= trees);
    r
}

/// The items of the array under a name, none where there is no array.
fn array_under<'a>(json: &'a Json, name: &str) -> (r: Option<&'a Vec<Json>>)
    ensures
        match r {
            Some(items) => json.tree().field(name@).as_array() == Some(list_trees(items@)),
            None => json.tree().field(name@).as_array() is None,
        },
{
    match json.get(name) {
        Some(value) => value.as_array(),
        None => None,
    }
}

/// The text of a JSON value.
fn text_of(v: &Json) -> (r: Result<String, StoreError>)
    ensures
        r matches Ok(s) && s@ == json_text(v.tree()),
{
    match json_to_string(v) {
        Ok(s) => Ok(s),
        Err(e) => Err(StoreError::Json(e)),
    }
}

/// The vector that is restored from a JSON value.
pub fn parse_single_vector(v: &Json) -> (r: Result<Vector, StoreError>)
    ensures
        match r {
            Ok(vector) => json_vector(v.tree()) == Some(vector.tree()),
            Err(StoreError::NotVector(text)) => json_vector(v.tree()) is None && text@
                == json_text(v.tree()),
            Err(_) => false,
        },
{
    if let Some(data) = array_under(v, "dense") {
        return Ok(Vector::Dense(json_to_components(data)));
    }
    if let Some(sparse) = v.get("sparse") {
        let values = match array_under(sparse, "values") {
            Some(items) => json_to_components(items),
            None => Vec::new(),
        };
        let indices = match array_under(sparse, "indices") {
            Some(items) => json_to_indices(items),
            None => Vec::new(),
        };
        let ghost t = sparse.tree();
        assert(numerals(values@) =~= json_components(items_of(t.field("values"@))));
        assert(indices@ =~= json_indices(items_of(t.field("indices"@))));
        return Ok(Vector::Sparse { values, indices });
    }
    if let Some(rows) = array_under(v, "multi_dense") {
        return Ok(Vector::MultiDense(json_to_rows(rows)));
    }
    match text_of(v) {
        Ok(text) => Err(StoreError::NotVector(text)),
        Err(e) => Err(e),
    }
}

/// Whether each of the values holds a vector.
pub open spec fn all_vectors(m: Map<Seq<char>, Tree>) -> bool {
    forall|k: Seq<char>| #[trigger] m.contains_key(k) ==> json_vector(m[k]) is Some
}

/// The named vectors that are restored from the members of a JSON object.
pub open spec fn json_named(m: Map<Seq<char>, Tree>) -> Map<Seq<char>, VectorTree> {
    Map::new(|k: Seq<char>| m.contains_key(k), |k: Seq<char>| json_vector(m[k]).unwrap())
}

/// The vectors that are restored from a JSON value, where it holds any: the one under `vector`,
/// else those by name under `vectors`.
pub open spec fn json_vectors(t: Tree) -> Option<VectorsTree> {
    match t.get("vector"@) {
        Some(inner) => match json_vector(inner) {
            Some(v) => Some(VectorsTree::Single(v)),
            None => None,
        },
        None => match t.field("vectors"@).as_object() {
            Some(m) => if all_vectors(m) {
                Some(VectorsTree::Named(json_named(m)))
            } else {
                None
            },
            None => None,
        },
    }
}

/// Whether, of the values by name that hold no vector, this is the name that comes first.
pub open spec fn is_first_without_vector(m: Map<Seq<char>, Tree>, name: Seq<char>) -> bool {
    &&& m.contains_key(name)
    &&& json_vector(m[name]) is None
    &&& forall|k: Seq<char>| #[trigger]
        m.contains_key(k) && json_vector(m[k]) is None ==> !text_less(k, name)
}

/// Whether this is the text of the value on account of which no vectors are restored from a
/// value: the one under `vector`, or that of the first name under `vectors`, that holds no vector.
pub open spec fn is_blamed_text(t: Tree, text: Seq<char>) -> bool {
    match t.get("vector"@) {
        Some(inner) => json_vector(inner) is None && text == json_text(inner),
        None => match t.field("vectors"@).as_object() {
            Some(m) => exists|name: Seq<char>| #[trigger]
                is_first_without_vector(m, name) && text == json_text(m[name]),
            None => false,
        },
    }
}

/// One more name changes which one comes first among those without a vector where its value holds
/// none, and it comes before the one so far.
proof fn lemma_first_without_vector(
    m: Map<Seq<char>, Tree>,
    first: Option<Seq<char>>,
    name: Seq<char>,
    value: Tree,
)
    requires
        !m.contains_key(name),
        match first {
            Some(k) => is_first_without_vector(m, k),
            None => all_vectors(m),
        },
    ensures
        json_vector(value) is Some ==> match first {
            Some(k) => is_first_without_vector(m.insert(name, value), k),
            None => all_vectors(m.insert(name, value)),
        },
        json_vector(value) is None ==> match first {
            Some(k) => is_first_without_vector(
                m.insert(name, value),
                if text_less(name, k) {
                    name
                } else {
                    k
                },
            ),
            None => is_first_without_vector(m.insert(name, value), name),
        },
{
    let m2 = m.insert(name, value);
    assert forall|k: Seq<char>| #[trigger] m2.contains_key(k) && k != name implies m.contains_key(
        k,
    ) && m2[k] == m[k] by {}
    lemma_irreflexive(name);
    if let Some(first) = first {
        if json_vector(value) is None && text_less(name, first) {
            assert forall|k: Seq<char>| #[trigger]
                m2.contains_key(k) && json_vector(m2[k]) is None implies !text_less(k, name) by {
                if k != name && text_less(k, name) {
                    lemma_asymmetric(name, first);
                    lemma_less_not_less(k, name, first);
                }
            }
        }
    }
}

/// The named vectors that are restored from a JSON object.
fn json_to_named(map: &Dict<Json>) -> (r: Result<Dict<Vector>, StoreError>)
    ensures
        match r {
            Ok(named) => all_vectors(map_trees(map@)) && named_trees(named@) == json_named(
                map_trees(map@),
            ),
            Err(StoreError::NotVector(text)) => exists|name: Seq<char>| #[trigger]
                is_first_without_vector(map_trees(map@), name) && text@ == json_text(
                    map_trees(map@)[name],
                ),
            Err(_) => false,
        },
{
    let n = map.len();
    let mut named: Dict<Vector> = Dict::new();
    let mut bad: Option<(String, String)> = None;
    let mut i: usize = 0;
    proof {
        assert(named_trees(named@) =~= json_named(map_trees(map.prefix(0))));
    }
    while i < n
        invariant
            i <= n,
            n == map.entries().len(),
            match bad {
                Some((name, text)) => {
                    &&& is_first_without_vector(map_trees(map.prefix(i as int)), name@)
                    &&& text@ == json_text(map_trees(map.prefix(i as int))[name@])
                },
                None => {
                    &&& all_vectors(map_trees(map.prefix(i as int)))
                    &&& named_trees(named@) == json_named(map_trees(map.prefix(i as int)))
                },
            },
        decreases n - i,
    {
        let (name, json) = map.entry(i);
        let parsed = parse_single_vector(json);
        proof {
            let m = map_trees(map.prefix(i as int));
            assert(map_trees(map.prefix(i + 1)) =~= m.insert(name@, json.tree()));
            let first = match &bad {
                Some((first, _)) => Some(first@),
                None => None,
            };
            lemma_first_without_vector(m, first, name@, json.tree());
        }
        match parsed {
            Ok(vector) => {
                if bad.is_none() {
                    let ghost before = named@;
                    proof {
                        assert(!named_trees(named@).contains_key(name@));
                    }
                    named.push(name.clone(), vector);
                    proof {
                        let m = map_trees(map.prefix(i as int));
                        assert(named_trees(named@) =~= named_trees(before).insert(
                            name@,
                            vector.tree(),
                        ));
                        assert(json_named(m.insert(name@, json.tree())) =~= json_named(m).insert(
                            name@,
                            vector.tree(),
                        ));
                    }
                }
            },
            Err(StoreError::NotVector(text)) => {
                let is_first = match &bad {
                    Some((first, _)) => precedes(name.as_str(), first.as_str()),
                    None => true,
                };
                if is_first {
                    bad = Some((name.clone(), text));
                }
            },
            Err(e) => {
                return Err(e);
            },
        }
        i += 1;
    }
    match bad {
        Some((_, text)) => Err(StoreError::NotVector(text)),
        None => Ok(named),
    }
}

/// The vectors that are restored from a JSON value.
pub fn json_to_vectors(v: &Json) -> (r: Result<Vectors, StoreError>)
    ensures
        match r {
            Ok(vectors) => json_vectors(v.tree()) == Some(vectors.tree()),
            Err(StoreError::NotVector(text)) => is_blamed_text(v.tree(), text@),
            Err(StoreError::NotVectors(text)) => {
                &&& v.tree().get("vector"@) is None
                &&& v.tree().field("vectors"@).as_object() is None
                &&& text@ == json_text(v.tree())
            },
            Err(_) => false,
        },
{
    if let Some(inner) = v.get("vector") {
        return match parse_single_vector(inner) {
            Ok(vector) => Ok(Vectors::Single(vector)),
            Err(e) => Err(e),
        };
    }
    if let Some(value) = v.get("vectors") {
        if let Some(map) = value.as_object() {
            return match json_to_named(map) {
                Ok(named) => Ok(Vectors::Named(named)),
                Err(e) => Err(e),
            };
        }
    }
    match text_of(v) {
        Ok(text) => Err(StoreError::NotVectors(text)),
        Err(e) => Err(e),
    }
}

/// The id that is restored from a stored point, where it has one of the type that it says.
pub open spec fn restored_id(p: AvroPointTree) -> Option<IdTree> {
    if p.id_type == "num"@ {
        match p.id_num {
            Some(n) => Some(IdTree::Num(n as u64)),
            None => None,
        }
    } else if p.id_type == "uuid"@ {
        match p.id_uuid {
            Some(u) => Some(IdTree::Uuid(u)),
            None => None,
        }
    } else {
        None
    }
}

/// The vectors that are restored from the text of a stored point.
pub open spec fn restored_vectors(text: Seq<char>) -> Option<VectorsTree> {
    match read_text(text) {
        Ok(t) => json_vectors(t),
        Err(_) => None,
    }
}

/// The point that is restored from a stored one, where its id, its payload and its vectors are
/// what they should be.
pub open spec fn restored_point(p: AvroPointTree) -> Option<PointTree> {
    match (restored_id(p), read_text(p.payload)) {
        (Some(id), Ok(Tree::Object(m))) => match p.vectors {
            Some(text) => match restored_vectors(text) {
                Some(v) => Some(PointTree { id, payload: json_payload(m), vectors: Some(v) }),
                None => None,
            },
            None => Some(PointTree { id, payload: json_payload(m), vectors: None }),
        },
        _ => None,
    }
}

/// Whether two texts are the same.
fn same_text(a: &String, b: &str) -> (r: bool)
    ensures
        r == (a@ == b@),
{
    let b = b.to_owned();
    *a == b
}

/// The id that is restored from what is stored of it.
pub fn restore_id(id_type: String, id_num: Option<i64>, id_uuid: Option<String>) -> (r: Result<
    PointIdOptions,
    StoreError,
>)
    ensures
        match r {
            Ok(id) => if id_type@ == "num"@ {
                id_num matches Some(n) && id.tree() == IdTree::Num(n as u64)
            } else {
                id_type@ == "uuid"@ && (id_uuid matches Some(u) && id.tree() == IdTree::Uuid(u@))
            },
            Err(StoreError::NoIdNum) => id_type@ == "num"@ && id_num is None,
            Err(StoreError::NoIdUuid) => id_type@ == "uuid"@ && id_uuid is None,
            Err(StoreError::UnknownIdType(t)) => t@ == id_type@ && t@ != "num"@ && t@ != "uuid"@,
            Err(_) => false,
        },
{
    proof {
        lemma_id_types_differ();
    }
    if same_text(&id_type, "num") {
        match id_num {
            Some(n) => Ok(PointIdOptions::Num(#[verifier::truncate] (n as u64))),
            None => Err(StoreError::NoIdNum),
        }
    } else if same_text(&id_type, "uuid") {
        match id_uuid {
            Some(u) => Ok(PointIdOptions::Uuid(u)),
            None => Err(StoreError::NoIdUuid),
        }
    } else {
        Err(StoreError::UnknownIdType(id_type))
    }
}

/// The point with an id, and with the payload and the vectors that are restored from the JSON
/// values.
pub fn point_from_json(id: PointIdOptions, payload: &Dict<Json>, vectors: Option<&Json>) -> (r:
    Result<PointStruct, StoreError>)
    ensures
        match r {
            Ok(point) => {
                &&& point.tree().id == id.tree()
                &&& point.tree().payload == json_payload(map_trees(payload@))
                &&& match vectors {
                    Some(v) => json_vectors(v.tree()) is Some && point.tree().vectors
                        == json_vectors(v.tree()),
                    None => point.tree().vectors is None,
                }
            },
            Err(StoreError::NotVector(text)) => vectors matches Some(v) && is_blamed_text(
                v.tree(),
                text@,
            ),
            Err(StoreError::NotVectors(text)) => {
                &&& vectors matches Some(v)
                &&& v.tree().get("vector"@) is None
                &&& v.tree().field("vectors"@).as_object() is None
                &&& text@ == json_text(v.tree())
            },
            Err(_) => false,
        },
{
    let payload = json_map_to_qdrant_payload(payload);
    let vectors = match vectors {
        Some(v) => match json_to_vectors(v) {
            Ok(vectors) => Some(vectors),
            Err(e) => {
                return Err(e);
            },
        },
        None => None,
    };
    Ok(PointStruct { id, payload, vectors })
}

/// The point that is restored from a stored one.
///
/// The first thing that is wrong with the stored point says why none is restored from it: its id,
/// its payload, or its vectors.
pub fn avro_point_to_qdrant(ap: AvroPoint) -> (r: Result<PointStruct, StoreError>)
    ensures
        match r {
            Ok(point) => restored_point(ap.tree()) == Some(point.tree()),
            Err(_) => restored_point(ap.tree()) is None,
        },
        match r {
            Ok(_) => true,
            Err(StoreError::NoIdNum) => ap.id_type@ == "num"@ && ap.id_num is None,
            Err(StoreError::NoIdUuid) => ap.id_type@ == "uuid"@ && ap.id_uuid is None,
            Err(StoreError::UnknownIdType(t)) => {
                &&& t@ == ap.id_type@
                &&& t@ != "num"@
                &&& t@ != "uuid"@
            },
            Err(StoreError::Payload(e)) => {
                &&& restored_id(ap.tree()) is Some
                &&& !(read_text(ap.payload@) matches Ok(Tree::Object(_)))
                &&& e == object_error(ap.payload@)
            },
            Err(StoreError::Vectors(e)) => {
                &&& restored_id(ap.tree()) is Some
                &&& read_text(ap.payload@) matches Ok(Tree::Object(_))
                &&& ap.tree().vectors matches Some(s)
                &&& is_refused_with(s, e)
            },
            Err(StoreError::NotVector(text)) => {
                &&& restored_id(ap.tree()) is Some
                &&& read_text(ap.payload@) matches Ok(Tree::Object(_))
                &&& ap.tree().vectors matches Some(s)
                &&& read_text(s) matches Ok(t)
                &&& is_blamed_text(t, text@)
            },
            Err(StoreError::NotVectors(text)) => {
                &&& restored_id(ap.tree()) is Some
                &&& read_text(ap.payload@) matches Ok(Tree::Object(_))
                &&& ap.tree().vectors matches Some(s)
                &&& read_text(s) matches Ok(t)
                &&& t.get("vector"@) is None
                &&& t.field("vectors"@).as_object() is None
                &&& text@ == json_text(t)
            },
            Err(_) => false,
        },
{
    proof {
        lemma_id_types_differ();
    }
    let id = match restore_id(ap.id_type, ap.id_num, ap.id_uuid) {
        Ok(id) => id,
        Err(e) => {
            return Err(e);
        },
    };
    let payload = match parse_json_object(ap.payload.as_str()) {
        Ok(payload) => payload,
        Err(e) => {
            return Err(StoreError::Payload(e));
        },
    };
    match ap.vectors {
        Some(text) => match parse_json(text.as_str()) {
            Ok(v) => point_from_json(id, &payload, Some(&v)),
            Err(e) => Err(StoreError::Vectors(e)),
        },
        None => point_from_json(id, &payload, None),
    }
}

/// The low bits of a signed integer.
pub open spec fn low_bits(i: i64) -> i32 {
    i as i32
}

/// The parameters of a vector that are restored from a JSON value, where it says the size.
pub open spec fn json_params(t: Tree) -> Option<VectorParams> {
    match t.field("size"@).as_u64() {
        Some(size) => Some(
            VectorParams {
                size,
                distance: match t.field("distance"@).as_i64() {
                    Some(d) => low_bits(d),
                    None => 0,
                },
                on_disk: t.field("on_disk"@).as_bool(),
                datatype: match t.field("datatype"@).as_i64() {
                    Some(d) => Some(low_bits(d)),
                    None => None,
                },
                multivector_config: match t.field("multivector_comparator"@).as_i64() {
                    Some(c) => Some(MultiVectorConfig { comparator: low_bits(c) }),
                    None => None,
                },
            },
        ),
        None => None,
    }
}

/// Whether each of the values says the size of a vector.
pub open spec fn all_params(m: Map<Seq<char>, Tree>) -> bool {
    forall|k: Seq<char>| #[trigger] m.contains_key(k) ==> json_params(m[k]) is Some
}

/// The parameters of named vectors that are restored from the members of a JSON object.
pub open spec fn json_params_map(m: Map<Seq<char>, Tree>) -> Map<Seq<char>, VectorParams> {
    Map::new(|k: Seq<char>| m.contains_key(k), |k: Seq<char>| json_params(m[k]).unwrap())
}

/// The value that holds the parameters of the one vector: the object under `params`, or, in notes
/// of the older form, the configuration itself.
pub open spec fn single_params(config: Tree) -> Tree {
    if config.field("params"@) is Object {
        config.field("params"@)
    } else {
        config
    }
}

/// How vectors are configured according to a JSON value, where it says so.
pub open spec fn json_config(config: Tree) -> Option<ConfigTree> {
    match config.field("type"@).as_text() {
        Some(kind) => if kind == "single"@ {
            match json_params(single_params(config)) {
                Some(vp) => Some(ConfigTree::Params(vp)),
                None => None,
            }
        } else if kind == "named"@ {
            match config.field("params"@).as_object() {
                Some(m) => if all_params(m) {
                    Some(ConfigTree::ParamsMap(json_params_map(m)))
                } else {
                    None
                },
                None => None,
            }
        } else {
            None
        },
        None => None,
    }
}

/// The unsigned integer under a name.
fn unsigned_under(json: &Json, name: &str) -> (r: Option<u64>)
    ensures
        r == json.tree().field(name@).as_u64(),
{
    match json.get(name) {
        Some(value) => value.as_u64(),
        None => None,
    }
}

/// The low bits of the signed integer under a name.
fn signed_under(json: &Json, name: &str) -> (r: Option<i32>)
    ensures
        r == (match json.tree().field(name@).as_i64() {
            Some(i) => Some(low_bits(i)),
            None => None,
        }),
{
    match json.get(name) {
        Some(value) => match value.as_i64() {
            Some(i) => Some(#[verifier::truncate] (i as i32)),
            None => None,
        },
        None => None,
    }
}

/// The parameters of a vector that are restored from a JSON value.
pub fn json_to_vector_params(vp: &Json) -> (r: Result<VectorParams, StoreError>)
    ensures
        match r {
            Ok(params) => json_params(vp.tree()) == Some(params),
            Err(StoreError::NoSize) => json_params(vp.tree()) is None,
            Err(_) => false,
        },
{
    let size = match unsigned_under(vp, "size") {
        Some(size) => size,
        None => {
            return Err(StoreError::NoSize);
        },
    };
    let distance: i32 = match signed_under(vp, "distance") {
        Some(d) => d,
        None => 0,
    };
    let on_disk = match vp.get("on_disk") {
        Some(value) => value.as_bool(),
        None => None,
    };
    let datatype = signed_under(vp, "datatype");
    let multivector_config = match signed_under(vp, "multivector_comparator") {
        Some(comparator) => Some(MultiVectorConfig { comparator }),
        None => None,
    };
    Ok(VectorParams { size, distance, on_disk, datatype, multivector_config })
}

/// The parameters of named vectors that are restored from a JSON object.
fn json_to_params_map(map: &Dict<Json>) -> (r: Result<Dict<VectorParams>, StoreError>)
    ensures
        match r {
            Ok(named) => all_params(map_trees(map@)) && named@ == json_params_map(map_trees(map@)),
            Err(StoreError::NoSize) => !all_params(map_trees(map@)),
            Err(_) => false,
        },
{
    let n = map.len();
    let mut named: Dict<VectorParams> = Dict::new();
    let mut i: usize = 0;
    proof {
        assert(named@ =~= json_params_map(map_trees(map.prefix(0))));
    }
    while i < n
        invariant
            i <= n,
            n == map.entries().len(),
            all_params(map_trees(map.prefix(i as int))),
            named@ == json_params_map(map_trees(map.prefix(i as int))),
        decreases n - i,
    {
        let (name, json) = map.entry(i);
        match json_to_vector_params(json) {
            Ok(params) => {
                proof {
                    assert(!named@.contains_key(name@));
                    let m = map_trees(map.prefix(i as int));
                    let m2 = map_trees(map.prefix(i + 1));
                    assert(m2 =~= m.insert(name@, json.tree()));
                    assert forall|k: Seq<char>| #[trigger] m2.contains_key(k) implies json_params(
                        m2[k],
                    ) is Some by {
                        if k != name@ {
                            assert(m.contains_key(k));
                        }
                    }
                    assert(json_params_map(m2) =~= json_params_map(m).insert(name@, params));
                }
                named.push(name.clone(), params);
            },
            Err(e) => {
                proof {
                    assert(map_trees(map@).contains_key(name@));
                }
                return Err(e);
            },
        }
        i += 1;
    }
    Ok(named)
}

/// Whether this is how the vectors of a collection are configured according to a JSON value, or
/// why the value does not say so.
pub open spec fn is_config_outcome(
    collection: Seq<char>,
    config: Tree,
    r: Result<VectorsConfigKind, StoreError>,
) -> bool {
    let kind = config.field("type"@).as_text();
    match r {
        Ok(found) => json_config(config) == Some(found.tree()),
        Err(e) => {
            &&& json_config(config) is None
            &&& match e {
                StoreError::NoVectorsConfig(name) => config is Null && name@ == collection,
                StoreError::NoVectorsConfigType => config !is Null && kind is None,
                StoreError::UnknownVectorsConfigType(name) => {
                    &&& kind == Some(name@)
                    &&& name@ != "single"@
                    &&& name@ != "named"@
                },
                StoreError::NoNamedParams => {
                    &&& kind == Some("named"@)
                    &&& config.field("params"@).as_object() is None
                },
                StoreError::NoSize => {
                    ||| kind == Some("single"@)
                    ||| kind == Some("named"@) && config.field("params"@).as_object() is Some
                },
                _ => false,
            }
        },
    }
}

/// How the vectors of a collection are configured, according to the notes on it.
pub fn vectors_config_from_json(collection: &str, metadata: &Json) -> (r: Result<
    VectorsConfigKind,
    StoreError,
>)
    ensures
        is_config_outcome(collection@, metadata.tree().field("vectors_config"@), r),
{
    proof {
        reveal_strlit("single");
        reveal_strlit("named");
        assert("single"@.len() != "named"@.len());
    }
    let config = match metadata.get("vectors_config") {
        Some(config) => config,
        None => {
            return Err(StoreError::NoVectorsConfig(collection.to_owned()));
        },
    };
    if let Json::Null = config {
        return Err(StoreError::NoVectorsConfig(collection.to_owned()));
    }
    let kind = match config.get("type") {
        Some(value) => match value.as_text() {
            Some(kind) => kind,
            None => {
                return Err(StoreError::NoVectorsConfigType);
            },
        },
        None => {
            return Err(StoreError::NoVectorsConfigType);
        },
    };
    if same_text(kind, "single") {
        let params = match config.get("params") {
            Some(value) => match value {
                Json::Object(_) => value,
                _ => config,
            },
            None => config,
        };
        match json_to_vector_params(params) {
            Ok(params) => Ok(VectorsConfigKind::Params(params)),
            Err(e) => Err(e),
        }
    } else if same_text(kind, "named") {
        let params = match config.get("params") {
            Some(value) => match value.as_object() {
                Some(params) => params,
                None => {
                    return Err(StoreError::NoNamedParams);
                },
            },
            None => {
                return Err(StoreError::NoNamedParams);
            },
        };
        match json_to_params_map(params) {
            Ok(named) => Ok(VectorsConfigKind::ParamsMap(named)),
            Err(e) => Err(e),
        }
    } else {
        Err(StoreError::UnknownVectorsConfigType(kind.clone()))
    }
}

/// How the vectors of a collection are configured, according to the text of the notes on it.
pub fn vectors_config_from_metadata(collection: &str, text: &str) -> (r: Result<
    VectorsConfigKind,
    StoreError,
>)
    ensures
        match r {
            Err(StoreError::Json(e)) => is_refused_with(text@, e),
            _ => {
                &&& read_text(text@) matches Ok(t)
                &&& is_config_outcome(collection@, t.field("vectors_config"@), r)
            },
        },
{
    match parse_json(text) {
        Ok(metadata) => vectors_config_from_json(collection, &metadata),
        Err(e) => Err(StoreError::Json(e)),
    }
}

/// The name of the collection that the notes are on.
pub fn collection_name(metadata: &Json) -> (r: Result<String, StoreError>)
    ensures
        match r {
            Ok(name) => metadata.tree().field("collection_name"@).as_text() == Some(name@),
            Err(StoreError::NoCollectionName) => metadata.tree().field(
                "collection_name"@,
            ).as_text() is None,
            Err(_) => false,
        },
{
    match metadata.get("collection_name") {
        Some(value) => match value.as_text() {
            Some(name) => Ok(name.clone()),
            None => Err(StoreError::NoCollectionName),
        },
        None => Err(StoreError::NoCollectionName),
    }
}

/// The name of the collection that the text of the notes is on.
pub fn read_collection_name(text: &str) -> (r: Result<String, StoreError>)
    ensures
        match r {
            Ok(name) => read_text(text@) matches Ok(t) && t.field("collection_name"@).as_text()
                == Some(name@),
            Err(StoreError::Json(e)) => is_refused_with(text@, e),
            Err(StoreError::NoCollectionName) => read_text(text@) matches Ok(t) && t.field(
                "collection_name"@,
            ).as_text() is None,
            Err(_) => false,
        },
{
    match parse_json(text) {
        Ok(metadata) => collection_name(&metadata),
        Err(e) => Err(StoreError::Json(e)),
    }
}

/// What is restored.
#[derive(Debug, PartialEq)]
pub enum RestorePlan {
    /// The input directory, into the collection of this name.
    Input(String),
    /// The input directory, into the collection that the notes in it name.
    InputByNotes,
    /// Each of these directories in turn, into the collection that the notes in it name.
    Each(Vec<BackupDir>),
}

/// What is restored: the input directory, where a collection is asked for, or where no directory
/// in it holds a backup; otherwise each of the directories in it that do.
pub fn restore_plan(collection: Option<&str>, found: Vec<BackupDir>) -> (plan: RestorePlan)
    ensures
        match collection {
            Some(name) => plan matches RestorePlan::Input(n) && n@ == name@,
            None => if found@.len() == 0 {
                plan is InputByNotes
            } else {
                plan == RestorePlan::Each(found)
            },
        },
{
    match collection {
        Some(name) => RestorePlan::Input(name.to_owned()),
        None => if found.len() == 0 {
            RestorePlan::InputByNotes
        } else {
            RestorePlan::Each(found)
        },
    }
}

/// Whether a collection has to be created before points are restored into it.
pub fn needs_creation(create_if_missing: bool, exists: bool) -> (r: bool)
    ensures
        r <==> create_if_missing && !exists,
{
    create_if_missing && !exists
}

} // verus!
