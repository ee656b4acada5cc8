//! What each value of the library stands for, part by part.
use crate::avro_schema::{option_text, AvroPoint, AvroTree, AvroValue};
use crate::collections::{CollectionInfo, ConfigTree, VectorsConfigKind};
use crate::dict::entries_map;
use crate::json::{
    lemma_array_tree, lemma_object_tree, numeral, option_tree, Json, Numeral, Tree,
};
use crate::json_text::{value_tree, Layer, LayerRef};
use crate::points::{
    component, lemma_list_tree, lemma_struct_tree, IdTree, PayloadTree, PayloadValue, PointId,
    PointIdOptions, PointStruct, RetrievedPoint, Vector, VectorOutput, VectorOutputTree, VectorTree,
    Vectors, VectorsOutput, VectorsOutputTree, VectorsTree,
};
use vstd::prelude::*;

verus! {

/// A number is an unsigned integer where it is held as one that is not negative, and a signed one
/// where it is held as an integer and fits. A signed integer is held with its own value, by its
/// sign.
pub proof fn law_numerals(n: Numeral, i: i64)
    ensures
        n matches Numeral::Unsigned(u) ==> n.unsigned() == Some(u),
        n matches Numeral::Unsigned(u) ==> (u <= i64::MAX ==> (n.signed() matches Some(s) && s
            as int == u as int)),
        n matches Numeral::Unsigned(u) ==> (u > i64::MAX ==> n.signed() is None),
        n matches Numeral::Negative(s) ==> n.unsigned() is None && n.signed() == Some(s),
        n is Double ==> n.unsigned() is None && n.signed() is None,
        i >= 0 ==> (Numeral::of_signed(i) matches Numeral::Unsigned(u) && u as int == i as int),
        i < 0 ==> Numeral::of_signed(i) == Numeral::Negative(i),
{
}

/// A value is under a name exactly where the name is a member of an object and the value is its
/// value.
pub proof fn law_get(t: Tree, name: Seq<char>, value: Tree)
    ensures
        t.get(name) == Some(value) <==> (t matches Tree::Object(m) && m.contains_key(name)
            && m[name] == value),
        t.get(name) == Some(value) ==> t.field(name) == value,
        t.get(name) is None ==> t.field(name) is Null,
{
}

/// What a value is asked for it gives where it is of that type, and nothing otherwise.
pub proof fn law_accessors(t: Tree)
    ensures
        match t {
            Tree::Bool(b) => t.as_bool() == Some(b),
            _ => t.as_bool() is None,
        },
        match t {
            Tree::Number(n) => t.as_number() == Some(n),
            _ => t.as_number() is None,
        },
        match t {
            Tree::Number(Numeral::Unsigned(u)) => t.as_u64() == Some(u),
            _ => t.as_u64() is None,
        },
        match t {
            Tree::Number(Numeral::Unsigned(u)) => {
                &&& u <= i64::MAX ==> (t.as_i64() matches Some(i) && i as int == u as int)
                &&& u > i64::MAX ==> t.as_i64() is None
            },
            Tree::Number(Numeral::Negative(i)) => t.as_i64() == Some(i),
            _ => t.as_i64() is None,
        },
        match t {
            Tree::Text(s) => t.as_text() == Some(s),
            _ => t.as_text() is None,
        },
        match t {
            Tree::Array(s) => t.as_array() == Some(s),
            _ => t.as_array() is None,
        },
        match t {
            Tree::Object(m) => t.as_object() == Some(m),
            _ => t.as_object() is None,
        },
{
}

/// A JSON value stands for what it holds: an array for its items in their order, an object for
/// its members under their names.
pub proof fn law_json_tree(j: Json)
    ensures
        match j {
            Json::Null => j.tree() == Tree::Null,
            Json::Bool(b) => j.tree() == Tree::Bool(b),
            Json::Number(n) => j.tree() == Tree::Number(numeral(n)),
            Json::Text(s) => j.tree() == Tree::Text(s@),
            Json::Array(v) => j.tree() matches Tree::Array(s) && {
                &&& s.len() == v@.len()
                &&& forall|i: int| 0 <= i < v@.len() ==> #[trigger] s[i] == v@[i].tree()
            },
            Json::Object(d) => j.tree() matches Tree::Object(m) && {
                &&& m.dom() == d@.dom()
                &&& forall|k: Seq<char>| d@.contains_key(k) ==> #[trigger] m[k] == d@[k].tree()
            },
        },
{
    match j {
        Json::Array(v) => {
            lemma_array_tree(v);
        },
        Json::Object(d) => {
            lemma_object_tree(d);
            assert(j.tree()->Object_0.dom() =~= d@.dom());
        },
        _ => {},
    }
}

/// A layer of a value of serde_json stands for what it holds, in its order and under its names.
pub proof fn law_layer_tree(layer: Layer)
    ensures
        match layer {
            Layer::Null => layer.tree() == Tree::Null,
            Layer::Bool(b) => layer.tree() == Tree::Bool(b),
            Layer::Number(n) => layer.tree() == Tree::Number(numeral(n)),
            Layer::Text(s) => layer.tree() == Tree::Text(s@),
            Layer::Array(v) => layer.tree() matches Tree::Array(s) && {
                &&& s.len() == v@.len()
                &&& forall|i: int| 0 <= i < v@.len() ==> #[trigger] s[i] == value_tree(v@[i])
            },
            Layer::Object(v) => layer.tree() matches Tree::Object(m) && {
                &&& m.dom() == entries_map(v@).dom()
                &&& forall|k: Seq<char>|
                    entries_map(v@).contains_key(k) ==> #[trigger] m[k] == value_tree(
                        entries_map(v@)[k],
                    )
            },
        },
{
    if let Layer::Object(v) = layer {
        assert(layer.tree()->Object_0.dom() =~= entries_map(v@).dom());
    }
}

/// A layer of a value of serde_json that is looked at stands for what it holds, in its order and
/// under its names.
pub proof fn law_layer_ref_tree(layer: LayerRef)
    ensures
        match layer {
            LayerRef::Null => layer.tree() == Tree::Null,
            LayerRef::Bool(b) => layer.tree() == Tree::Bool(b),
            LayerRef::Number(n) => layer.tree() == Tree::Number(numeral(*n)),
            LayerRef::Text(s) => layer.tree() == Tree::Text(s@),
            LayerRef::Array(v) => layer.tree() matches Tree::Array(s) && {
                &&& s.len() == v@.len()
                &&& forall|i: int| 0 <= i < v@.len() ==> #[trigger] s[i] == value_tree(v@[i])
            },
            LayerRef::Object(v) => layer.tree() matches Tree::Object(m) && {
                &&& m.dom() == entries_map(v@).dom()
                &&& forall|k: Seq<char>|
                    entries_map(v@).contains_key(k) ==> #[trigger] m[k] == value_tree(
                        *entries_map(v@)[k],
                    )
            },
        },
{
    if let LayerRef::Object(v) = layer {
        assert(layer.tree()->Object_0.dom() =~= entries_map(v@).dom());
    }
}

/// The last entry under a name counts, and the others stand as they were.
pub proof fn law_entries_map<V>(entries: Seq<(String, V)>, e: (String, V))
    ensures
        entries_map(Seq::<(String, V)>::empty()) == Map::<Seq<char>, V>::empty(),
        entries_map(entries.push(e)) == entries_map(entries).insert(e.0@, e.1),
{
    assert(entries.push(e).drop_last() =~= entries);
}

/// An id stands for its number or its text.
pub proof fn law_id_tree(id: PointId)
    ensures
        match id.point_id_options {
            Some(PointIdOptions::Num(n)) => id.tree() == Some(IdTree::Num(n)),
            Some(PointIdOptions::Uuid(u)) => id.tree() == Some(IdTree::Uuid(u@)),
            None => id.tree() is None,
        },
        id.point_id_options matches Some(options) ==> id.tree() == Some(options.tree()),
{
}

/// A payload value stands for what it holds: a list for its items in their order, a struct for
/// its fields under their names.
pub proof fn law_payload_tree(p: PayloadValue)
    ensures
        match p {
            PayloadValue::Unset => p.tree() == PayloadTree::Unset,
            PayloadValue::Null => p.tree() == PayloadTree::Null,
            PayloadValue::Bool(b) => p.tree() == PayloadTree::Bool(b),
            PayloadValue::Integer(i) => p.tree() == PayloadTree::Integer(i),
            PayloadValue::Double(Some(n)) => p.tree() == PayloadTree::Double(Some(numeral(n))),
            PayloadValue::Double(None) => p.tree() == PayloadTree::Double(None),
            PayloadValue::Text(s) => p.tree() == PayloadTree::Text(s@),
            PayloadValue::List(v) => p.tree() matches PayloadTree::List(s) && {
                &&& s.len() == v@.len()
                &&& forall|i: int| 0 <= i < v@.len() ==> #[trigger] s[i] == v@[i].tree()
            },
            PayloadValue::Struct(d) => p.tree() matches PayloadTree::Struct(m) && {
                &&& m.dom() == d@.dom()
                &&& forall|k: Seq<char>| d@.contains_key(k) ==> #[trigger] m[k] == d@[k].tree()
            },
        },
{
    match p {
        PayloadValue::List(v) => {
            lemma_list_tree(v);
        },
        PayloadValue::Struct(d) => {
            lemma_struct_tree(d);
            assert(p.tree()->Struct_0.dom() =~= d@.dom());
        },
        _ => {},
    }
}

/// A vector that is fetched stands for its components and indices, in their order.
pub proof fn law_vector_output_tree(v: VectorOutput)
    ensures
        match v {
            VectorOutput::Dense(data) => v.tree() matches VectorOutputTree::Dense(s) && {
                &&& s.len() == data@.len()
                &&& forall|i: int|
                    0 <= i < data@.len() ==> (match data@[i] {
                        Some(n) => #[trigger] s[i] == Some(numeral(n)),
                        None => s[i] is None,
                    })
            },
            VectorOutput::Sparse { values, indices } => v.tree() matches VectorOutputTree::Sparse {
                values: s,
                indices: j,
            } && {
                &&& j == indices@
                &&& s.len() == values@.len()
                &&& forall|i: int|
                    0 <= i < values@.len() ==> (match values@[i] {
                        Some(n) => #[trigger] s[i] == Some(numeral(n)),
                        None => s[i] is None,
                    })
            },
            VectorOutput::MultiDense(rows) => v.tree() matches VectorOutputTree::MultiDense(r) && {
                &&& r.len() == rows@.len()
                &&& forall|i: int|
                    0 <= i < rows@.len() ==> (#[trigger] r[i]).len() == rows@[i]@.len()
                &&& forall|i: int, j: int|
                    0 <= i < rows@.len() && 0 <= j < rows@[i]@.len() ==> (match rows@[i]@[j] {
                        Some(n) => #[trigger] r[i][j] == Some(numeral(n)),
                        None => r[i][j] is None,
                    })
            },
        },
{
}

/// A vector that is to be written stands for its components and indices, in their order.
pub proof fn law_vector_tree(v: Vector)
    ensures
        match v {
            Vector::Dense(data) => v.tree() matches VectorTree::Dense(s) && {
                &&& s.len() == data@.len()
                &&& forall|i: int| 0 <= i < data@.len() ==> #[trigger] s[i] == numeral(data@[i])
            },
            Vector::Sparse { values, indices } => v.tree() matches VectorTree::Sparse {
                values: s,
                indices: j,
            } && {
                &&& j == indices@
                &&& s.len() == values@.len()
                &&& forall|i: int| 0 <= i < values@.len() ==> #[trigger] s[i] == numeral(values@[i])
            },
            Vector::MultiDense(rows) => v.tree() matches VectorTree::MultiDense(r) && {
                &&& r.len() == rows@.len()
                &&& forall|i: int|
                    0 <= i < rows@.len() ==> (#[trigger] r[i]).len() == rows@[i]@.len()
                &&& forall|i: int, j: int|
                    0 <= i < rows@.len() && 0 <= j < rows@[i]@.len() ==> #[trigger] r[i][j]
                        == numeral(rows@[i]@[j])
            },
        },
{
}

/// The vectors of a point that is fetched stand for the one vector, or for those under their
/// names.
pub proof fn law_vectors_output_tree(v: VectorsOutput)
    ensures
        match v {
            VectorsOutput::Unset => v.tree() == VectorsOutputTree::Unset,
            VectorsOutput::Single(Some(w)) => v.tree() == VectorsOutputTree::Single(Some(w.tree())),
            VectorsOutput::Single(None) => v.tree() == VectorsOutputTree::Single(None),
            VectorsOutput::Named(d) => v.tree() matches VectorsOutputTree::Named(m) && {
                &&& m.dom() == d@.dom()
                &&& forall|k: Seq<char>|
                    d@.contains_key(k) ==> (match d@[k] {
                        Some(w) => #[trigger] m[k] == Some(w.tree()),
                        None => m[k] is None,
                    })
            },
        },
{
    if let VectorsOutput::Named(d) = v {
        assert(v.tree()->Named_0.dom() =~= d@.dom());
    }
}

/// The vectors of a point that is to be written stand for the one vector, or for those under their
/// names.
pub proof fn law_vectors_tree(v: Vectors)
    ensures
        match v {
            Vectors::Single(w) => v.tree() == VectorsTree::Single(w.tree()),
            Vectors::Named(d) => v.tree() matches VectorsTree::Named(m) && {
                &&& m.dom() == d@.dom()
                &&& forall|k: Seq<char>| d@.contains_key(k) ==> #[trigger] m[k] == d@[k].tree()
            },
        },
{
    if let Vectors::Named(d) = v {
        assert(v.tree()->Named_0.dom() =~= d@.dom());
    }
}

/// A point that is fetched stands for its id, its payload and its vectors.
pub proof fn law_retrieved_tree(p: RetrievedPoint)
    ensures
        match p.id {
            Some(id) => p.tree().id == id.tree(),
            None => p.tree().id is None,
        },
        p.tree().payload.dom() == p.payload@.dom(),
        forall|k: Seq<char>|
            p.payload@.contains_key(k) ==> #[trigger] p.tree().payload[k] == p.payload@[k].tree(),
        match p.vectors {
            Some(v) => p.tree().vectors == Some(v.tree()),
            None => p.tree().vectors is None,
        },
{
    assert(p.tree().payload.dom() =~= p.payload@.dom());
}

/// A point that is to be written stands for its id, its payload and its vectors.
pub proof fn law_point_tree(p: PointStruct)
    ensures
        match p.id {
            PointIdOptions::Num(n) => p.tree().id == IdTree::Num(n),
            PointIdOptions::Uuid(u) => p.tree().id == IdTree::Uuid(u@),
        },
        p.tree().payload.dom() == p.payload@.dom(),
        forall|k: Seq<char>|
            p.payload@.contains_key(k) ==> #[trigger] p.tree().payload[k] == p.payload@[k].tree(),
        match p.vectors {
            Some(v) => p.tree().vectors == Some(v.tree()),
            None => p.tree().vectors is None,
        },
{
    assert(p.tree().payload.dom() =~= p.payload@.dom());
}

/// An Avro value stands for what it holds, a record for its fields in their order.
pub proof fn law_avro_tree(v: AvroValue)
    ensures
        match v {
            AvroValue::Null => v.tree() == AvroTree::Null,
            AvroValue::Long(n) => v.tree() == AvroTree::Long(n),
            AvroValue::Text(s) => v.tree() == AvroTree::Text(s@),
            AvroValue::Enum(i, s) => v.tree() == AvroTree::Enum(i, s@),
            AvroValue::Union(i, w) => v.tree() == AvroTree::Union(i, Box::new(w.tree())),
            AvroValue::Record(fields) => v.tree() matches AvroTree::Record(f) && {
                &&& f.len() == fields@.len()
                &&& forall|i: int|
                    0 <= i < fields@.len() ==> #[trigger] f[i] == (
                        fields@[i].0@,
                        fields@[i].1.tree(),
                    )
            },
        },
{
    if let AvroValue::Record(fields) = v {
        let f = v.tree()->Record_0;
        assert forall|i: int| 0 <= i < fields@.len() implies #[trigger] f[i] == (
            fields@[i].0@,
            fields@[i].1.tree(),
        ) by {}
    }
}

/// A stored point stands for its fields.
pub proof fn law_avro_point_tree(p: AvroPoint)
    ensures
        p.tree().id_type == p.id_type@,
        p.tree().id_num == p.id_num,
        match p.id_uuid {
            Some(u) => p.tree().id_uuid == Some(u@),
            None => p.tree().id_uuid is None,
        },
        p.tree().payload == p.payload@,
        match p.vectors {
            Some(v) => p.tree().vectors == Some(v@),
            None => p.tree().vectors is None,
        },
{
}

/// A string that may be missing holds its text, a number that may be missing what it holds, and a
/// JSON value that may be missing stands for what it does; nothing holds nothing.
pub proof fn law_options(s: Option<String>, n: Option<serde_json::Number>, j: Option<&Json>)
    ensures
        match j {
            Some(j) => option_tree(Some(j)) == Some(j.tree()),
            None => option_tree(None) is None,
        },
        match s {
            Some(s) => option_text(Some(s)) == Some(s@),
            None => option_text(None) is None,
        },
        match n {
            Some(n) => component(Some(n)) == Some(numeral(n)),
            None => component(None) is None,
        },
{
}

/// The configuration of a collection's vectors is known where each part on the way to it is there,
/// and is then the one parameters or those under their names.
pub proof fn law_info_config(info: CollectionInfo)
    ensures
        info.vectors_config() is Some <==> (info.config matches Some(c) && (c.params matches Some(p)
            && (p.vectors_config matches Some(v) && v.config is Some))),
        info.vectors_config() is Some ==> (match info.config->0.params->0.vectors_config->0.config {
            Some(VectorsConfigKind::Params(vp)) => info.vectors_config() == Some(
                ConfigTree::Params(vp),
            ),
            Some(VectorsConfigKind::ParamsMap(d)) => info.vectors_config() == Some(
                ConfigTree::ParamsMap(d@),
            ),
            None => false,
        }),
{
}

} // verus!
