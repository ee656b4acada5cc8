//! What a restore gives back of a backup.
use crate::avro_schema::{
    lemma_id_types_differ, optional_long, optional_text, stores, AvroPointTree, AvroTree,
};
use crate::backup::{
    component_json, components_json, config_json, indices_json, is_readable, is_record_of,
    metadata_json, named_json, object_of, params_json, params_map_json, payload_json, reads_back,
    rows_json, stored_fields, stored_payload, value_json, vector_json, vectors_json, vectors_text,
};
use crate::collections::{CollectionInfo, ConfigTree, VectorParams};
use crate::json::{Numeral, Tree};
use crate::json_text::{
    json_text, read_number, read_text, readable, reads_as, reads_exactly, reread, MAX_DEPTH,
};
use crate::points::{
    IdTree, PayloadTree, PointTree, RetrievedTree, VectorOutputTree, VectorTree, VectorsOutputTree,
    VectorsTree,
};
use crate::restore::{
    json_components, json_config, json_indices, json_named, json_params, json_params_map,
    json_payload, json_rows, json_value, json_vector, json_vectors, restored_id, restored_point,
};
use vstd::prelude::*;

verus! {

/// What is left of a payload value when it has been stored and restored. A value of no kind, and
/// a double that is not finite, become `Null`; any other double is as it is read from its own
/// text, and one that is an integer becomes one.
pub open spec fn kept_value(p: PayloadTree) -> PayloadTree
    decreases p,
{
    match p {
        PayloadTree::Unset => PayloadTree::Null,
        PayloadTree::Double(None) => PayloadTree::Null,
        PayloadTree::Double(Some(n)) => match read_number(n).signed() {
            Some(i) => PayloadTree::Integer(i),
            None => PayloadTree::Double(Some(read_number(n))),
        },
        PayloadTree::List(s) => PayloadTree::List(
            Seq::new(
                s.len(),
                |i: int|
                    if 0 <= i < s.len() {
                        kept_value(s[i])
                    } else {
                        PayloadTree::Null
                    },
            ),
        ),
        PayloadTree::Struct(m) => PayloadTree::Struct(
            Map::new(
                |k: Seq<char>| m.contains_key(k),
                |k: Seq<char>|
                    if m.contains_key(k) {
                        kept_value(m[k])
                    } else {
                        PayloadTree::Null
                    },
            ),
        ),
        _ => p,
    }
}

/// Whether a payload value has a kind, and so has each value in it; each double is finite, held as
/// a double, and read from its own text as it is.
pub open spec fn is_plain(p: PayloadTree) -> bool
    decreases p,
{
    match p {
        PayloadTree::Unset => false,
        PayloadTree::Double(None) => false,
        PayloadTree::Double(Some(n)) => n.signed() is None && reads_exactly(n),
        PayloadTree::List(s) => forall|i: int|
            0 <= i < s.len() ==> is_plain(#[trigger] s[i]),
        PayloadTree::Struct(m) => forall|k: Seq<char>|
            m.contains_key(k) ==> is_plain(#[trigger] m[k]),
        _ => true,
    }
}

/// A payload value that is stored as JSON text and restored from it is what is kept of it.
pub proof fn law_value_kept(p: PayloadTree)
    ensures
        json_value(reread(value_json(p))) == kept_value(p),
    decreases p,
{
    match p {
        PayloadTree::List(s) => {
            let w = value_json(p)->Array_0;
            let j = reread(Tree::Array(w))->Array_0;
            let r = json_value(Tree::Array(j))->List_0;
            let e = kept_value(p)->List_0;
            assert forall|i: int| 0 <= i < s.len() implies #[trigger] r[i] == e[i] by {
                law_value_kept(s[i]);
                assert(w[i] == value_json(s[i]));
                assert(j[i] == reread(w[i]));
                assert(r[i] == json_value(j[i]));
                assert(e[i] == kept_value(s[i]));
            }
            assert(r =~= e);
        },
        PayloadTree::Struct(m) => {
            let w = value_json(p)->Object_0;
            let j = reread(Tree::Object(w))->Object_0;
            let r = json_value(Tree::Object(j))->Struct_0;
            let e = kept_value(p)->Struct_0;
            assert forall|k: Seq<char>| m.contains_key(k) implies #[trigger] r[k] == e[k] by {
                law_value_kept(m[k]);
                assert(w[k] == value_json(m[k]));
                assert(j[k] == reread(w[k]));
                assert(r[k] == json_value(j[k]));
                assert(e[k] == kept_value(m[k]));
            }
            assert(r =~= e);
        },
        _ => {},
    }
}

/// A payload value in which everything has a kind and a place in JSON is restored from the text in
/// which it is stored as it was.
pub proof fn law_plain_value_restored(p: PayloadTree)
    requires
        is_plain(p),
    ensures
        kept_value(p) == p,
        json_value(reread(value_json(p))) == p,
    decreases p,
{
    law_value_kept(p);
    match p {
        PayloadTree::List(s) => {
            let e = kept_value(p)->List_0;
            assert forall|i: int| 0 <= i < s.len() implies #[trigger] e[i] == s[i] by {
                law_plain_value_restored(s[i]);
                assert(e[i] == kept_value(s[i]));
            }
            assert(e =~= s);
        },
        PayloadTree::Struct(m) => {
            let e = kept_value(p)->Struct_0;
            assert forall|k: Seq<char>| m.contains_key(k) implies #[trigger] e[k] == m[k] by {
                law_plain_value_restored(m[k]);
                assert(e[k] == kept_value(m[k]));
            }
            assert(e =~= m);
        },
        _ => {},
    }
}

/// Whether each number in a JSON value is a double, or an integer that fits into a signed one and
/// is held as such integers are.
pub open spec fn numbers_fit(t: Tree) -> bool
    decreases t,
{
    match t {
        Tree::Number(n) => match n {
            Numeral::Unsigned(u) => u <= i64::MAX,
            Numeral::Negative(i) => i < 0,
            Numeral::Double(_) => true,
        },
        Tree::Array(s) => forall|i: int| 0 <= i < s.len() ==> numbers_fit(#[trigger] s[i]),
        Tree::Object(m) => forall|k: Seq<char>| m.contains_key(k) ==> numbers_fit(#[trigger] m[k]),
        _ => true,
    }
}

/// A JSON value from which a payload value is restored is what that payload value is stored as,
/// where its numbers are doubles or integers that fit.
pub proof fn law_json_stored_again(t: Tree)
    requires
        numbers_fit(t),
    ensures
        value_json(json_value(t)) == t,
    decreases t,
{
    match t {
        Tree::Array(s) => {
            let p = json_value(t)->List_0;
            let j = value_json(PayloadTree::List(p))->Array_0;
            assert forall|i: int| 0 <= i < s.len() implies #[trigger] j[i] == s[i] by {
                law_json_stored_again(s[i]);
                assert(p[i] == json_value(s[i]));
                assert(j[i] == value_json(p[i]));
            }
            assert(j =~= s);
        },
        Tree::Object(m) => {
            let p = json_value(t)->Struct_0;
            let j = value_json(PayloadTree::Struct(p))->Object_0;
            assert forall|k: Seq<char>| m.contains_key(k) implies #[trigger] j[k] == m[k] by {
                law_json_stored_again(m[k]);
                assert(p[k] == json_value(m[k]));
                assert(j[k] == value_json(p[k]));
            }
            assert(j =~= m);
        },
        _ => {},
    }
}

/// Whether a payload value has a kind, and so has each value in it; each double is finite, and
/// held as a double.
pub open spec fn has_json(p: PayloadTree) -> bool
    decreases p,
{
    match p {
        PayloadTree::Unset => false,
        PayloadTree::Double(None) => false,
        PayloadTree::Double(Some(n)) => n.signed() is None,
        PayloadTree::List(s) => forall|i: int| 0 <= i < s.len() ==> has_json(#[trigger] s[i]),
        PayloadTree::Struct(m) => forall|k: Seq<char>|
            m.contains_key(k) ==> has_json(#[trigger] m[k]),
        _ => true,
    }
}

/// A payload value in which everything has a kind and a place in JSON is restored from the JSON
/// value in which it is stored as it was.
pub proof fn law_value_inverted(p: PayloadTree)
    requires
        has_json(p),
    ensures
        json_value(value_json(p)) == p,
    decreases p,
{
    match p {
        PayloadTree::List(s) => {
            let j = value_json(p)->Array_0;
            let r = json_value(Tree::Array(j))->List_0;
            assert forall|i: int| 0 <= i < s.len() implies #[trigger] r[i] == s[i] by {
                law_value_inverted(s[i]);
                assert(j[i] == value_json(s[i]));
                assert(r[i] == json_value(j[i]));
            }
            assert(r =~= s);
        },
        PayloadTree::Struct(m) => {
            let j = value_json(p)->Object_0;
            let r = json_value(Tree::Object(j))->Struct_0;
            assert forall|k: Seq<char>| m.contains_key(k) implies #[trigger] r[k] == m[k] by {
                law_value_inverted(m[k]);
                assert(j[k] == value_json(m[k]));
                assert(r[k] == json_value(j[k]));
            }
            assert(r =~= m);
        },
        _ => {},
    }
}

/// The names under which vectors are stored are not the same.
proof fn lemma_vector_names()
    ensures
        "vector"@ != "vectors"@,
        "dense"@ != "sparse"@,
        "dense"@ != "multi_dense"@,
        "sparse"@ != "multi_dense"@,
        "values"@ != "indices"@,
{
    reveal_strlit("vector");
    reveal_strlit("vectors");
    reveal_strlit("dense");
    reveal_strlit("sparse");
    reveal_strlit("multi_dense");
    reveal_strlit("values");
    reveal_strlit("indices");
    assert("vector"@.len() != "vectors"@.len());
    assert("dense"@.len() != "sparse"@.len());
    assert("dense"@.len() != "multi_dense"@.len());
    assert("sparse"@.len() != "multi_dense"@.len());
    assert("values"@.len() != "indices"@.len());
}

/// What is left of a component of a vector when it has been stored and restored: the number as it
/// is read from its own text, and zero for one that is not finite.
pub open spec fn kept_component(c: Option<Numeral>) -> Numeral {
    match c {
        Some(n) => read_number(n),
        None => Numeral::Unsigned(0),
    }
}

/// What is left of the components of a vector when they have been stored and restored.
pub open spec fn kept_components(s: Seq<Option<Numeral>>) -> Seq<Numeral> {
    Seq::new(s.len(), |i: int| kept_component(s[i]))
}

/// What is left of a vector when it has been stored and restored.
pub open spec fn kept_vector(v: VectorOutputTree) -> VectorTree {
    match v {
        VectorOutputTree::Dense(data) => VectorTree::Dense(kept_components(data)),
        VectorOutputTree::Sparse { values, indices } => VectorTree::Sparse {
            values: kept_components(values),
            indices,
        },
        VectorOutputTree::MultiDense(rows) => VectorTree::MultiDense(
            Seq::new(rows.len(), |i: int| kept_components(rows[i])),
        ),
    }
}

/// What a value in an array is read as, in the array as read.
proof fn lemma_reread_array(s: Seq<Tree>)
    ensures
        reread(Tree::Array(s)) == Tree::Array(Seq::new(s.len(), |i: int| reread(s[i]))),
{
    let r = reread(Tree::Array(s))->Array_0;
    let e = Seq::new(s.len(), |i: int| reread(s[i]));
    assert forall|i: int| 0 <= i < s.len() implies #[trigger] r[i] == e[i] by {
        assert(r[i] == reread(s[i]));
    }
    assert(r =~= e);
}

/// What a value in an object is read as, in the object as read.
proof fn lemma_reread_object(m: Map<Seq<char>, Tree>)
    ensures
        reread(Tree::Object(m)) == Tree::Object(
            Map::new(|k: Seq<char>| m.contains_key(k), |k: Seq<char>| reread(m[k])),
        ),
{
    let r = reread(Tree::Object(m))->Object_0;
    let e = Map::new(|k: Seq<char>| m.contains_key(k), |k: Seq<char>| reread(m[k]));
    assert forall|k: Seq<char>| m.contains_key(k) implies #[trigger] r[k] == e[k] by {
        assert(r[k] == reread(m[k]));
    }
    assert(r =~= e);
}

/// What the value in an object with one member is read as, in the object as read.
proof fn lemma_reread_object_of(name: Seq<char>, t: Tree)
    ensures
        reread(object_of(name, t)) == object_of(name, reread(t)),
{
    let m = Map::empty().insert(name, t);
    lemma_reread_object(m);
    assert(reread(Tree::Object(m))->Object_0 =~= Map::empty().insert(name, reread(t)));
}

/// The components that are restored from the array in which they are stored are what is kept of
/// them.
proof fn lemma_components_restored(s: Seq<Option<Numeral>>)
    ensures
        reread(components_json(s)) is Array,
        json_components(reread(components_json(s))->Array_0) == kept_components(s),
{
    let w = components_json(s)->Array_0;
    lemma_reread_array(w);
    let j = reread(components_json(s))->Array_0;
    assert forall|i: int| 0 <= i < s.len() implies #[trigger] json_components(j)[i]
        == kept_components(s)[i] by {
        assert(w[i] == component_json(s[i]));
        assert(j[i] == reread(w[i]));
    }
    assert(json_components(j) =~= kept_components(s));
}

/// The indices of a sparse vector are restored from the array in which they are stored.
proof fn lemma_indices_restored(s: Seq<u32>)
    ensures
        reread(indices_json(s)) is Array,
        json_indices(reread(indices_json(s))->Array_0) == s,
{
    let w = indices_json(s)->Array_0;
    lemma_reread_array(w);
    let j = reread(indices_json(s))->Array_0;
    assert forall|i: int| 0 <= i < s.len() implies #[trigger] json_indices(j)[i] == s[i] by {
        assert(w[i] == Tree::Number(Numeral::Unsigned(s[i] as u64)));
        assert(j[i] == reread(w[i]));
    }
    assert(json_indices(j) =~= s);
}

/// The rows that are restored from arrays are those of the arrays, where each is one.
proof fn lemma_rows_of_arrays(items: Seq<Tree>)
    requires
        forall|i: int| 0 <= i < items.len() ==> #[trigger] items[i] is Array,
    ensures
        json_rows(items) == Seq::new(
            items.len(),
            |i: int| json_components(items[i]->Array_0),
        ),
    decreases items.len(),
{
    let e = Seq::new(items.len(), |i: int| json_components(items[i]->Array_0));
    if items.len() > 0 {
        let r = items.drop_last();
        assert forall|i: int| 0 <= i < r.len() implies #[trigger] r[i] is Array by {
            assert(r[i] == items[i]);
        }
        lemma_rows_of_arrays(r);
        assert(items.last() == items[items.len() - 1]);
        assert(json_rows(items) =~= e);
    } else {
        assert(json_rows(items) =~= e);
    }
}

/// The components of several vectors that are restored from the array in which they are stored
/// are what is kept of them.
proof fn lemma_rows_restored(rows: Seq<Seq<Option<Numeral>>>)
    ensures
        reread(rows_json(rows)) is Array,
        json_rows(reread(rows_json(rows))->Array_0) == Seq::new(
            rows.len(),
            |i: int| kept_components(rows[i]),
        ),
{
    let w = rows_json(rows)->Array_0;
    lemma_reread_array(w);
    let j = reread(rows_json(rows))->Array_0;
    assert forall|i: int| 0 <= i < rows.len() implies (#[trigger] j[i]) is Array
        && json_components(j[i]->Array_0) == kept_components(rows[i]) by {
        assert(w[i] == components_json(rows[i]));
        assert(j[i] == reread(w[i]));
        lemma_components_restored(rows[i]);
    }
    lemma_rows_of_arrays(j);
    assert(json_rows(j) =~= Seq::new(rows.len(), |i: int| kept_components(rows[i])));
}

/// A vector that is stored as JSON text and restored from it is what is kept of it.
pub proof fn law_vector_restored(v: VectorOutputTree)
    ensures
        json_vector(reread(vector_json(Some(v)))) == Some(kept_vector(v)),
{
    lemma_vector_names();
    match v {
        VectorOutputTree::Dense(data) => {
            lemma_reread_object_of("dense"@, components_json(data));
            lemma_components_restored(data);
        },
        VectorOutputTree::Sparse { values, indices } => {
            let m = Map::empty().insert("values"@, components_json(values)).insert(
                "indices"@,
                indices_json(indices),
            );
            lemma_reread_object_of("sparse"@, Tree::Object(m));
            lemma_reread_object(m);
            lemma_components_restored(values);
            lemma_indices_restored(indices);
            let t = reread(Tree::Object(m));
            assert(t.field("values"@) == reread(components_json(values)));
            assert(t.field("indices"@) == reread(indices_json(indices)));
        },
        VectorOutputTree::MultiDense(rows) => {
            lemma_reread_object_of("multi_dense"@, rows_json(rows));
            lemma_rows_restored(rows);
        },
    }
}

/// Whether none of the vectors is missing.
pub open spec fn none_missing(m: Map<Seq<char>, Option<VectorOutputTree>>) -> bool {
    forall|k: Seq<char>| #[trigger] m.contains_key(k) ==> m[k] is Some
}

/// What is left of the vectors of a point when they have been stored and restored: what is kept of
/// each, where there are any and none is missing; otherwise they are not restored.
pub open spec fn kept_vectors(v: VectorsOutputTree) -> Option<VectorsTree> {
    match v {
        VectorsOutputTree::Unset => None,
        VectorsOutputTree::Single(Some(v)) => Some(VectorsTree::Single(kept_vector(v))),
        VectorsOutputTree::Single(None) => None,
        VectorsOutputTree::Named(m) => if none_missing(m) {
            Some(
                VectorsTree::Named(
                    Map::new(
                        |k: Seq<char>| m.contains_key(k),
                        |k: Seq<char>| kept_vector(m[k].unwrap()),
                    ),
                ),
            )
        } else {
            None
        },
    }
}

/// The vectors of a point that are stored as JSON text and restored from it are what is kept of
/// them, where none is missing; where one is, they are refused.
pub proof fn law_vectors_restored(v: VectorsOutputTree)
    ensures
        json_vectors(reread(vectors_json(v))) == kept_vectors(v),
{
    lemma_vector_names();
    match v {
        VectorsOutputTree::Unset => {},
        VectorsOutputTree::Single(v) => {
            lemma_reread_object_of("vector"@, vector_json(v));
            if let Some(v) = v {
                law_vector_restored(v);
            }
        },
        VectorsOutputTree::Named(m) => {
            let w = named_json(m);
            lemma_reread_object_of("vectors"@, Tree::Object(w));
            lemma_reread_object(w);
            let j = reread(Tree::Object(w))->Object_0;
            assert forall|k: Seq<char>| m.contains_key(k) implies json_vector(#[trigger] j[k])
                == match m[k] {
                Some(v) => Some(kept_vector(v)),
                None => None,
            } by {
                assert(j[k] == reread(w[k]));
                assert(w[k] == vector_json(m[k]));
                if let Some(v) = m[k] {
                    law_vector_restored(v);
                }
            }
            if none_missing(m) {
                assert forall|k: Seq<char>| #[trigger] j.contains_key(k) implies json_vector(
                    j[k],
                ) is Some by {
                    assert(m.contains_key(k));
                }
                assert(json_named(j) =~= kept_vectors(v)->0->Named_0);
            } else {
                let k = choose|k: Seq<char>| #[trigger] m.contains_key(k) && m[k] is None;
                assert(j.contains_key(k));
                assert(json_vector(j[k]) is None);
            }
        },
    }
}

/// Whether each component is a number, and is read from its own text as it is.
pub open spec fn components_plain(s: Seq<Option<Numeral>>) -> bool {
    forall|i: int|
        0 <= i < s.len() ==> ((#[trigger] s[i]) matches Some(n) && reads_exactly(n))
}

/// Whether each component of a vector is a number, and is read from its own text as it is.
pub open spec fn is_plain_vector(v: VectorOutputTree) -> bool {
    match v {
        VectorOutputTree::Dense(data) => components_plain(data),
        VectorOutputTree::Sparse { values, .. } => components_plain(values),
        VectorOutputTree::MultiDense(rows) => forall|i: int|
            0 <= i < rows.len() ==> components_plain(#[trigger] rows[i]),
    }
}

/// Whether there is one vector, or there are vectors by name, none is missing, and each component
/// is a number and is read from its own text as it is.
pub open spec fn are_plain_vectors(v: VectorsOutputTree) -> bool {
    match v {
        VectorsOutputTree::Unset => false,
        VectorsOutputTree::Single(v) => v matches Some(v) && is_plain_vector(v),
        VectorsOutputTree::Named(m) => forall|k: Seq<char>| #[trigger]
            m.contains_key(k) ==> (m[k] matches Some(v) && is_plain_vector(v)),
    }
}

/// Whether components that are written are those that were fetched.
pub open spec fn same_components(s: Seq<Option<Numeral>>, r: Seq<Numeral>) -> bool {
    &&& r.len() == s.len()
    &&& forall|i: int| 0 <= i < s.len() ==> #[trigger] s[i] == Some(r[i])
}

/// Whether a vector that is written is the one that was fetched: of the same kind, with the same
/// components and indices.
pub open spec fn same_vector(v: VectorOutputTree, r: VectorTree) -> bool {
    match (v, r) {
        (VectorOutputTree::Dense(s), VectorTree::Dense(r)) => same_components(s, r),
        (
            VectorOutputTree::Sparse { values: s, indices: i },
            VectorTree::Sparse { values: r, indices: j },
        ) => same_components(s, r) && i == j,
        (VectorOutputTree::MultiDense(s), VectorTree::MultiDense(r)) => {
            &&& r.len() == s.len()
            &&& forall|i: int| 0 <= i < s.len() ==> same_components(#[trigger] s[i], r[i])
        },
        _ => false,
    }
}

/// Whether vectors that are written are those that were fetched: one and the same, or the same
/// under the same names.
pub open spec fn same_vectors(v: VectorsOutputTree, r: VectorsTree) -> bool {
    match (v, r) {
        (VectorsOutputTree::Single(Some(v)), VectorsTree::Single(r)) => same_vector(v, r),
        (VectorsOutputTree::Named(m), VectorsTree::Named(r)) => {
            &&& m.dom() == r.dom()
            &&& forall|k: Seq<char>| #[trigger]
                m.contains_key(k) ==> (m[k] matches Some(v) && same_vector(v, r[k]))
        },
        _ => false,
    }
}

/// A vector of which each component is a number, and is read from its own text as it is, is kept
/// as it was.
pub proof fn law_plain_vector_kept(v: VectorOutputTree)
    requires
        is_plain_vector(v),
    ensures
        same_vector(v, kept_vector(v)),
{
}

/// Vectors of which none is missing, and of which each component is a number, and is read from its
/// own text as it is, are restored from the text in which they are stored as they were.
pub proof fn law_plain_vectors_restored(v: VectorsOutputTree)
    requires
        are_plain_vectors(v),
    ensures
        json_vectors(reread(vectors_json(v))) matches Some(r) && same_vectors(v, r),
{
    law_vectors_restored(v);
    match v {
        VectorsOutputTree::Single(Some(v)) => {
            law_plain_vector_kept(v);
        },
        VectorsOutputTree::Named(m) => {
            let r = kept_vectors(v)->0->Named_0;
            assert(m.dom() =~= r.dom());
            assert forall|k: Seq<char>| #[trigger] m.contains_key(k) implies (m[k] matches Some(v)
                && same_vector(v, r[k])) by {
                law_plain_vector_kept(m[k].unwrap());
            }
        },
        _ => {},
    }
}

/// Whether each component is a number.
pub open spec fn components_present(s: Seq<Option<Numeral>>) -> bool {
    forall|i: int| 0 <= i < s.len() ==> (#[trigger] s[i]) is Some
}

/// Whether each component of a vector is a number.
pub open spec fn is_present(v: VectorOutputTree) -> bool {
    match v {
        VectorOutputTree::Dense(data) => components_present(data),
        VectorOutputTree::Sparse { values, .. } => components_present(values),
        VectorOutputTree::MultiDense(rows) => forall|i: int|
            0 <= i < rows.len() ==> components_present(#[trigger] rows[i]),
    }
}

/// Whether there is one vector, or there are vectors by name, none is missing, and each component
/// is a number.
pub open spec fn are_present(v: VectorsOutputTree) -> bool {
    match v {
        VectorsOutputTree::Unset => false,
        VectorsOutputTree::Single(v) => v matches Some(v) && is_present(v),
        VectorsOutputTree::Named(m) => forall|k: Seq<char>| #[trigger]
            m.contains_key(k) ==> (m[k] matches Some(v) && is_present(v)),
    }
}

/// A vector of which each component is a number is restored from the JSON value in which it is
/// stored as it was.
pub proof fn law_vector_inverted(v: VectorOutputTree)
    requires
        is_present(v),
    ensures
        json_vector(vector_json(Some(v))) matches Some(r) && same_vector(v, r),
{
    lemma_vector_names();
    match v {
        VectorOutputTree::Dense(data) => {
            assert(same_components(data, json_components(components_json(data)->Array_0)));
        },
        VectorOutputTree::Sparse { values, indices } => {
            assert(same_components(values, json_components(components_json(values)->Array_0)));
            assert(json_indices(indices_json(indices)->Array_0) =~= indices);
        },
        VectorOutputTree::MultiDense(rows) => {
            let j = rows_json(rows)->Array_0;
            assert forall|i: int| 0 <= i < j.len() implies (#[trigger] j[i]) is Array by {
                assert(j[i] == components_json(rows[i]));
            }
            lemma_rows_of_arrays(j);
            assert forall|i: int| 0 <= i < rows.len() implies same_components(
                #[trigger] rows[i],
                json_rows(j)[i],
            ) by {
                assert(j[i] == components_json(rows[i]));
            }
        },
    }
}

/// Vectors of which none is missing, and of which each component is a number, are restored from
/// the JSON value in which they are stored as they were.
pub proof fn law_vectors_inverted(v: VectorsOutputTree)
    requires
        are_present(v),
    ensures
        json_vectors(vectors_json(v)) matches Some(r) && same_vectors(v, r),
{
    lemma_vector_names();
    match v {
        VectorsOutputTree::Single(Some(v)) => {
            law_vector_inverted(v);
        },
        VectorsOutputTree::Named(m) => {
            let j = named_json(m);
            assert forall|k: Seq<char>| #[trigger] m.contains_key(k) implies (json_vector(
                j[k],
            ) matches Some(r) && same_vector(m[k].unwrap(), r)) by {
                law_vector_inverted(m[k].unwrap());
            }
            assert forall|k: Seq<char>| #[trigger] j.contains_key(k) implies json_vector(
                j[k],
            ) is Some by {
                assert(m.contains_key(k));
            }
            assert(m.dom() =~= json_named(j).dom());
        },
        _ => {},
    }
}

/// An id that is stored is restored as it was, whatever the payload and the vectors.
pub proof fn law_id_restored(id: IdTree, payload: Seq<char>, vectors: Option<Seq<char>>)
    ensures
        restored_id(stored_fields(id, payload, vectors)) == Some(id),
{
    lemma_id_types_differ();
    match id {
        IdTree::Num(n) => {
            assert((n as i64) as u64 == n) by (bit_vector);
        },
        IdTree::Uuid(_) => {},
    }
}

/// A record of the schema holds one point.
pub proof fn law_record_holds_one_point(record: AvroTree, a: AvroPointTree, b: AvroPointTree)
    requires
        stores(record, a),
        stores(record, b),
    ensures
        a == b,
{
    let s = record->Record_0;
    assert(s[0].1 == AvroTree::Enum(s[0].1->Enum_0, a.id_type));
    assert(s[0].1 == AvroTree::Enum(s[0].1->Enum_0, b.id_type));
    assert(s[1].1 == optional_long(a.id_num));
    assert(s[1].1 == optional_long(b.id_num));
    assert(s[2].1 == optional_text(a.id_uuid));
    assert(s[2].1 == optional_text(b.id_uuid));
    assert(s[3].1 == AvroTree::Text(a.payload));
    assert(s[3].1 == AvroTree::Text(b.payload));
    assert(s[4].1 == optional_text(a.vectors));
    assert(s[4].1 == optional_text(b.vectors));
}

/// What is left of the payload of a point when it has been stored and restored.
pub open spec fn kept_payload(m: Map<Seq<char>, PayloadTree>) -> Map<Seq<char>, PayloadTree> {
    Map::new(|k: Seq<char>| m.contains_key(k), |k: Seq<char>| kept_value(m[k]))
}

/// What is left of a point when it has been stored and restored: nothing where it has no id, or
/// vectors of which one is missing; otherwise its id, its vectors, and what is kept of its payload.
pub open spec fn kept_point(p: RetrievedTree) -> Option<PointTree> {
    match p.id {
        Some(id) => match p.vectors {
            Some(v) => match kept_vectors(v) {
                Some(kept) => Some(
                    PointTree { id, payload: kept_payload(p.payload), vectors: Some(kept) },
                ),
                None => None,
            },
            None => Some(PointTree { id, payload: kept_payload(p.payload), vectors: None }),
        },
        None => None,
    }
}

/// The payload of a point that is restored from the text in which it was stored is what is kept of
/// it, where the text is read back as what it was written from, each number as from its own text.
pub proof fn law_payload_restored(p: RetrievedTree)
    requires
        reads_as(json_text(stored_payload(p)), reread(stored_payload(p))),
    ensures
        read_text(json_text(stored_payload(p))) matches Ok(Tree::Object(m)) && json_payload(m)
            == kept_payload(p.payload),
{
    let w = payload_json(p.payload);
    lemma_reread_object(w);
    let m = reread(Tree::Object(w))->Object_0;
    assert forall|k: Seq<char>| p.payload.contains_key(k) implies #[trigger] json_payload(m)[k]
        == kept_payload(p.payload)[k] by {
        law_value_kept(p.payload[k]);
        assert(w[k] == value_json(p.payload[k]));
        assert(m[k] == reread(w[k]));
    }
    assert(json_payload(m) =~= kept_payload(p.payload));
}

/// Whether what is restored from a record, whatever is read from it, is what is kept of a point.
pub open spec fn comes_back(record: AvroTree, p: RetrievedTree) -> bool {
    forall|stored: AvroPointTree| #[trigger]
        stores(record, stored) ==> restored_point(stored) == kept_point(p)
}

/// A point that is restored from the record in which it was stored is what is kept of it, where
/// the texts in the record are read back as what they were written from, each number as from its
/// own text.
pub proof fn law_point_restored(p: RetrievedTree, record: AvroTree, stored: AvroPointTree)
    requires
        is_record_of(record, p),
        stores(record, stored),
        reads_back(p),
    ensures
        restored_point(stored) == kept_point(p),
{
    let id = p.id.unwrap();
    let payload = json_text(stored_payload(p));
    law_record_holds_one_point(record, stored, stored_fields(id, payload, vectors_text(p)));
    law_id_restored(id, payload, vectors_text(p));
    law_payload_restored(p);
    if let Some(v) = p.vectors {
        law_vectors_restored(v);
    }
}

/// A point with an id, a payload in which everything has a kind and a place in JSON, and vectors
/// of which none is missing is restored from the record in which it was stored: with its id, its
/// payload as it was, and what is kept of its vectors, which is the vectors as they were where each
/// component is a number and is read from its own text as it is.
pub proof fn law_plain_point_restored(p: RetrievedTree, record: AvroTree, stored: AvroPointTree)
    requires
        is_record_of(record, p),
        stores(record, stored),
        reads_back(p),
        forall|k: Seq<char>| p.payload.contains_key(k) ==> is_plain(#[trigger] p.payload[k]),
        p.vectors matches Some(v) ==> kept_vectors(v) is Some,
    ensures
        restored_point(stored) matches Some(q) && {
            &&& p.id == Some(q.id)
            &&& q.payload == p.payload
            &&& q.vectors == match p.vectors {
                Some(v) => kept_vectors(v),
                None => None,
            }
            &&& p.vectors matches Some(v) ==> (are_plain_vectors(v) ==> (q.vectors matches Some(r)
                && same_vectors(v, r)))
        },
{
    law_point_restored(p, record, stored);
    if let Some(v) = p.vectors {
        law_vectors_restored(v);
        if are_plain_vectors(v) {
            law_plain_vectors_restored(v);
        }
    }
    assert(kept_payload(p.payload) =~= p.payload) by {
        assert forall|k: Seq<char>| p.payload.contains_key(k) implies #[trigger] kept_payload(
            p.payload,
        )[k] == p.payload[k] by {
            law_plain_value_restored(p.payload[k]);
        }
    }
}

/// Whether lists and structs are nested in a payload value no deeper than `depth`.
pub open spec fn nested_within(p: PayloadTree, depth: int) -> bool
    decreases depth,
{
    match p {
        PayloadTree::List(s) => depth > 0 && forall|i: int|
            0 <= i < s.len() ==> nested_within(#[trigger] s[i], depth - 1),
        PayloadTree::Struct(m) => depth > 0 && forall|k: Seq<char>|
            m.contains_key(k) ==> nested_within(#[trigger] m[k], depth - 1),
        _ => true,
    }
}

/// Whether a number is read from its own text as a number.
pub open spec fn reads_as_number(n: Numeral) -> bool {
    n is Double ==> (read_text(json_text(Tree::Number(n))) matches Ok(Tree::Number(_)))
}

/// Whether each finite double in a payload value is read from its own text as a number.
pub open spec fn doubles_read(p: PayloadTree) -> bool
    decreases p,
{
    match p {
        PayloadTree::Double(Some(n)) => reads_as_number(n),
        PayloadTree::List(s) => forall|i: int| 0 <= i < s.len() ==> doubles_read(#[trigger] s[i]),
        PayloadTree::Struct(m) => forall|k: Seq<char>|
            m.contains_key(k) ==> doubles_read(#[trigger] m[k]),
        _ => true,
    }
}

/// Whether each finite component is read from its own text as a number.
pub open spec fn components_read(s: Seq<Option<Numeral>>) -> bool {
    forall|i: int| 0 <= i < s.len() ==> ((#[trigger] s[i]) matches Some(n) ==> reads_as_number(n))
}

/// Whether each finite component of a vector is read from its own text as a number.
pub open spec fn vector_read(v: VectorOutputTree) -> bool {
    match v {
        VectorOutputTree::Dense(data) => components_read(data),
        VectorOutputTree::Sparse { values, .. } => components_read(values),
        VectorOutputTree::MultiDense(rows) => forall|i: int|
            0 <= i < rows.len() ==> components_read(#[trigger] rows[i]),
    }
}

/// Whether each finite component of the vectors that there are is read from its own text as a
/// number.
pub open spec fn vectors_read(v: VectorsOutputTree) -> bool {
    match v {
        VectorsOutputTree::Unset => true,
        VectorsOutputTree::Single(v) => v matches Some(v) ==> vector_read(v),
        VectorsOutputTree::Named(m) => forall|k: Seq<char>| #[trigger]
            m.contains_key(k) ==> (m[k] matches Some(v) ==> vector_read(v)),
    }
}

/// What is stored of a payload value in which each finite double is read from its own text as a
/// number is readable down to where the value is nested.
pub proof fn law_value_readable(p: PayloadTree, depth: int)
    requires
        doubles_read(p),
        nested_within(p, depth),
    ensures
        readable(value_json(p), depth),
    decreases depth,
{
    match p {
        PayloadTree::List(s) => {
            let j = value_json(p)->Array_0;
            assert forall|i: int| 0 <= i < j.len() implies readable(#[trigger] j[i], depth - 1) by {
                assert(j[i] == value_json(s[i]));
                law_value_readable(s[i], depth - 1);
            }
        },
        PayloadTree::Struct(m) => {
            let j = value_json(p)->Object_0;
            assert forall|k: Seq<char>| j.contains_key(k) implies readable(
                #[trigger] j[k],
                depth - 1,
            ) by {
                assert(j[k] == value_json(m[k]));
                law_value_readable(m[k], depth - 1);
            }
        },
        _ => {},
    }
}

/// What is stored of a vector in which each finite component is read from its own text as a
/// number is readable.
proof fn lemma_vector_readable(v: Option<VectorOutputTree>)
    requires
        v matches Some(v) ==> vector_read(v),
    ensures
        readable(vector_json(v), 4),
{
    reveal_with_fuel(readable, 5);
    match v {
        Some(VectorOutputTree::Dense(data)) => {
            assert(readable(components_json(data), 3));
        },
        Some(VectorOutputTree::Sparse { values, indices }) => {
            assert(readable(components_json(values), 2));
            assert(readable(indices_json(indices), 2));
        },
        Some(VectorOutputTree::MultiDense(rows)) => {
            let j = rows_json(rows)->Array_0;
            assert forall|i: int| 0 <= i < j.len() implies readable(#[trigger] j[i], 2) by {
                assert(j[i] == components_json(rows[i]));
                assert(readable(components_json(rows[i]), 2));
            }
            assert(readable(rows_json(rows), 3));
        },
        None => {},
    }
}

/// A value that is readable down to a depth is readable down to any greater one.
proof fn lemma_readable_deeper(t: Tree, depth: int, more: int)
    requires
        readable(t, depth),
        depth <= more,
    ensures
        readable(t, more),
    decreases depth,
{
    match t {
        Tree::Array(s) => {
            assert forall|i: int| 0 <= i < s.len() implies readable(#[trigger] s[i], more - 1) by {
                lemma_readable_deeper(s[i], depth - 1, more - 1);
            }
        },
        Tree::Object(m) => {
            assert forall|k: Seq<char>| m.contains_key(k) implies readable(
                #[trigger] m[k],
                more - 1,
            ) by {
                lemma_readable_deeper(m[k], depth - 1, more - 1);
            }
        },
        _ => {},
    }
}

/// What is stored of vectors in which each finite component is read from its own text as a number
/// is readable.
pub proof fn law_vectors_readable(v: VectorsOutputTree)
    requires
        vectors_read(v),
    ensures
        readable(vectors_json(v), MAX_DEPTH as int),
{
    match v {
        VectorsOutputTree::Unset => {},
        VectorsOutputTree::Single(v) => {
            lemma_vector_readable(v);
            let t = object_of("vector"@, vector_json(v));
            assert(readable(t, 5));
            lemma_readable_deeper(t, 5, MAX_DEPTH as int);
        },
        VectorsOutputTree::Named(m) => {
            let j = named_json(m);
            assert forall|k: Seq<char>| j.contains_key(k) implies readable(#[trigger] j[k], 4) by {
                assert(m.contains_key(k));
                lemma_vector_readable(m[k]);
            }
            assert(readable(Tree::Object(j), 5));
            let t = object_of("vectors"@, Tree::Object(j));
            assert(readable(t, 6));
            lemma_readable_deeper(t, 6, MAX_DEPTH as int);
        },
    }
}

/// What is stored of a point is readable where its payload is nested no deeper than serde_json
/// reads, and each finite double in its payload and its vectors is read from its own text as a
/// number. `point_to_avro_record` promises that what is kept of such a point comes back.
pub proof fn law_point_readable(p: RetrievedTree)
    requires
        forall|k: Seq<char>|
            p.payload.contains_key(k) ==> (doubles_read(#[trigger] p.payload[k]) && nested_within(
                p.payload[k],
                MAX_DEPTH - 1,
            )),
        p.vectors matches Some(v) ==> vectors_read(v),
    ensures
        is_readable(p),
{
    let j = payload_json(p.payload);
    assert forall|k: Seq<char>| j.contains_key(k) implies readable(
        #[trigger] j[k],
        MAX_DEPTH - 1,
    ) by {
        assert(j[k] == value_json(p.payload[k]));
        law_value_readable(p.payload[k], MAX_DEPTH - 1);
    }
    if let Some(v) = p.vectors {
        law_vectors_readable(v);
    }
}

/// In a payload value in which each double is read from its own text as it is, each is read as a
/// number.
pub proof fn law_plain_value_read(p: PayloadTree)
    requires
        is_plain(p),
    ensures
        doubles_read(p),
    decreases p,
{
    match p {
        PayloadTree::List(s) => {
            assert forall|i: int| 0 <= i < s.len() implies doubles_read(#[trigger] s[i]) by {
                law_plain_value_read(s[i]);
            }
        },
        PayloadTree::Struct(m) => {
            assert forall|k: Seq<char>| m.contains_key(k) implies doubles_read(#[trigger] m[k]) by {
                law_plain_value_read(m[k]);
            }
        },
        _ => {},
    }
}

/// The names under which a collection is noted are not the same.
proof fn lemma_note_names()
    ensures
        "collection_name"@ != "points_count"@,
        "collection_name"@ != "indexed_vectors_count"@,
        "collection_name"@ != "segments_count"@,
        "collection_name"@ != "config_debug"@,
        "collection_name"@ != "vectors_config"@,
        "type"@ != "params"@,
        "single"@ != "named"@,
        "size"@ != "distance"@,
        "size"@ != "on_disk"@,
        "size"@ != "datatype"@,
        "size"@ != "multivector_comparator"@,
        "distance"@ != "on_disk"@,
        "distance"@ != "datatype"@,
        "distance"@ != "multivector_comparator"@,
        "on_disk"@ != "datatype"@,
        "on_disk"@ != "multivector_comparator"@,
        "datatype"@ != "multivector_comparator"@,
{
    reveal_strlit("collection_name");
    reveal_strlit("points_count");
    reveal_strlit("indexed_vectors_count");
    reveal_strlit("segments_count");
    reveal_strlit("config_debug");
    reveal_strlit("vectors_config");
    reveal_strlit("type");
    reveal_strlit("params");
    reveal_strlit("single");
    reveal_strlit("named");
    reveal_strlit("size");
    reveal_strlit("distance");
    reveal_strlit("on_disk");
    reveal_strlit("datatype");
    reveal_strlit("multivector_comparator");
    assert("collection_name"@.len() == 15);
    assert("points_count"@.len() == 12);
    assert("indexed_vectors_count"@.len() == 21);
    assert("segments_count"@.len() == 14);
    assert("config_debug"@.len() == 12);
    assert("vectors_config"@.len() == 14);
    assert("type"@.len() == 4);
    assert("params"@.len() == 6);
    assert("single"@.len() == 6);
    assert("named"@.len() == 5);
    assert("size"@.len() == 4);
    assert("distance"@.len() == 8);
    assert("on_disk"@.len() == 7);
    assert("datatype"@.len() == 8);
    assert("multivector_comparator"@.len() == 22);
    assert("distance"@[1] != "datatype"@[1]);
}

/// The parameters of a vector are restored from what is noted of them.
pub proof fn law_params_restored(vp: VectorParams)
    ensures
        json_params(Tree::Object(params_json(vp))) == Some(vp),
{
    lemma_note_names();
}

/// How vectors are configured is restored from what is noted of it.
pub proof fn law_config_restored(config: Option<ConfigTree>)
    ensures
        json_config(config_json(config)) == config,
        config_json(config) is Null <==> config is None,
{
    lemma_note_names();
    match config {
        Some(ConfigTree::Params(vp)) => {
            law_params_restored(vp);
        },
        Some(ConfigTree::ParamsMap(m)) => {
            let j = params_map_json(m);
            assert forall|k: Seq<char>| #[trigger] j.contains_key(k) implies json_params(j[k])
                == Some(m[k]) by {
                law_params_restored(m[k]);
            }
            assert(json_params_map(j) =~= m);
        },
        None => {},
    }
}

/// The notes on a collection name it, and say how its vectors are configured, where that was
/// known; so does a text that is read back as the notes.
pub proof fn law_metadata_restored(collection: Seq<char>, info: CollectionInfo, text: Seq<char>)
    requires
        reads_as(text, metadata_json(collection, info)),
    ensures
        read_text(text) matches Ok(t) && {
            &&& t.field("collection_name"@).as_text() == Some(collection)
            &&& json_config(t.field("vectors_config"@)) == info.vectors_config()
            &&& t.field("vectors_config"@) is Null <==> info.vectors_config() is None
        },
{
    lemma_note_names();
    law_config_restored(info.vectors_config());
}

} // verus!
