//! What is restored, part by part: each law says of one thing that is restored from which part of
//! what is stored it comes.
use crate::avro_schema::{lemma_id_types_differ, AvroPointTree};
use crate::backup::metadata_json;
use crate::batches::{batching, Batching};
use crate::collections::{CollectionInfo, ConfigTree, VectorsConfigKind};
use crate::error::StoreError;
use crate::json::{Numeral, Tree};
use crate::json_text::{
    is_refused_with, json_text, read_number, read_text, readable, reads_as, reread,
};
use crate::laws::law_config_restored;
use crate::points::{IdTree, PayloadTree, PointStruct, VectorTree, VectorsTree};
use crate::restore::{
    is_blamed_text, is_config_outcome, is_first_without_vector, json_components, json_indices,
    json_named, json_params, json_params_map, json_payload, json_rows, json_value, json_vector,
    json_vectors, low_bits, restored_id, restored_point, restored_vectors,
};
use crate::text_order::{bytes_less, text_less};
use vstd::prelude::*;
use vstd::utf8::encode_utf8;

verus! {

/// A JSON value is restored as the payload value of its type: a number as the integer that it is,
/// where it is one that fits, and otherwise as the double that it is; an array item by item in
/// their order, an object member by member under their names.
pub proof fn law_value_origin(t: Tree)
    ensures
        match t {
            Tree::Null => json_value(t) == PayloadTree::Null,
            Tree::Bool(b) => json_value(t) == PayloadTree::Bool(b),
            Tree::Number(Numeral::Unsigned(u)) => if u <= i64::MAX {
                json_value(t) matches PayloadTree::Integer(i) && i as int == u as int
            } else {
                json_value(t) == PayloadTree::Double(Some(Numeral::Unsigned(u)))
            },
            Tree::Number(Numeral::Negative(i)) => json_value(t) == PayloadTree::Integer(i),
            Tree::Number(Numeral::Double(d)) => json_value(t) == PayloadTree::Double(
                Some(Numeral::Double(d)),
            ),
            Tree::Text(s) => json_value(t) == PayloadTree::Text(s),
            Tree::Array(a) => json_value(t) matches PayloadTree::List(s) && {
                &&& s.len() == a.len()
                &&& forall|i: int| 0 <= i < a.len() ==> #[trigger] s[i] == json_value(a[i])
            },
            Tree::Object(o) => json_value(t) matches PayloadTree::Struct(m) && {
                &&& m.dom() == o.dom()
                &&& forall|k: Seq<char>| o.contains_key(k) ==> #[trigger] m[k] == json_value(o[k])
            },
        },
{
    match t {
        Tree::Array(a) => {
            let s = json_value(t)->List_0;
            assert forall|i: int| 0 <= i < a.len() implies #[trigger] s[i] == json_value(a[i]) by {}
        },
        Tree::Object(o) => {
            let m = json_value(t)->Struct_0;
            assert(m.dom() =~= o.dom());
            assert forall|k: Seq<char>| o.contains_key(k) implies #[trigger] m[k] == json_value(
                o[k],
            ) by {}
        },
        _ => {},
    }
}

/// A payload has a field for each member of the object, and no other.
pub proof fn law_payload_origin(o: Map<Seq<char>, Tree>)
    ensures
        json_payload(o).dom() == o.dom(),
        forall|k: Seq<char>|
            o.contains_key(k) ==> #[trigger] json_payload(o)[k] == json_value(o[k]),
{
    assert(json_payload(o).dom() =~= o.dom());
}

/// The component at each index is the number at that index of the array, and zero where there
/// stands no number.
pub proof fn law_components_origin(a: Seq<Tree>)
    ensures
        json_components(a).len() == a.len(),
        forall|i: int|
            0 <= i < a.len() ==> #[trigger] json_components(a)[i] == (match a[i] {
                Tree::Number(n) => n,
                _ => Numeral::Unsigned(0),
            }),
{
}

/// The index at each place is what is left in 32 bits of the integer at that place of the array,
/// and zero where there stands no integer, or a negative one.
pub proof fn law_indices_origin(a: Seq<Tree>)
    ensures
        json_indices(a).len() == a.len(),
        forall|i: int|
            0 <= i < a.len() ==> #[trigger] json_indices(a)[i] == (match a[i] {
                Tree::Number(Numeral::Unsigned(u)) => u as u32,
                _ => 0u32,
            }),
        forall|i: int|
            0 <= i < a.len() ==> ((#[trigger] a[i]) matches Tree::Number(Numeral::Unsigned(u)) ==> (
            u <= u32::MAX ==> json_indices(a)[i] as int == u as int)),
{
}

/// Rows come from the arrays among the items, in their order: those of some items and then those
/// of others are those of all of them; an array gives one row, with a component for each of its
/// items, in their order; anything else gives none.
pub proof fn law_rows_origin(a: Seq<Tree>, b: Seq<Tree>, t: Tree)
    ensures
        json_rows(a + b) == json_rows(a) + json_rows(b),
        match t {
            Tree::Array(r) => {
                &&& json_rows(seq![t]).len() == 1
                &&& json_rows(seq![t])[0].len() == r.len()
                &&& forall|i: int|
                    0 <= i < r.len() ==> #[trigger] json_rows(seq![t])[0][i] == (match r[i] {
                        Tree::Number(n) => n,
                        _ => Numeral::Unsigned(0),
                    })
            },
            _ => json_rows(seq![t]).len() == 0,
        },
    decreases b.len(),
{
    assert(seq![t].drop_last() =~= Seq::empty());
    assert(json_rows(Seq::<Tree>::empty()) =~= Seq::empty());
    if b.len() == 0 {
        assert(a + b =~= a);
        assert(json_rows(a) + json_rows(b) =~= json_rows(a));
    } else {
        law_rows_origin(a, b.drop_last(), t);
        assert((a + b).drop_last() =~= a + b.drop_last());
        assert(json_rows(a + b) =~= json_rows(a) + json_rows(b));
    }
}

/// An array of arrays gives a row for each, in their order, with the component at each index from
/// the item at that index.
pub proof fn law_rows_of_arrays(a: Seq<Tree>)
    requires
        forall|i: int| 0 <= i < a.len() ==> #[trigger] a[i] is Array,
    ensures
        json_rows(a).len() == a.len(),
        forall|i: int|
            0 <= i < a.len() ==> (#[trigger] json_rows(a)[i]).len() == a[i]->Array_0.len(),
        forall|i: int, j: int|
            0 <= i < a.len() && 0 <= j < a[i]->Array_0.len() ==> #[trigger] json_rows(a)[i][j] == (
            match a[i]->Array_0[j] {
                Tree::Number(n) => n,
                _ => Numeral::Unsigned(0),
            }),
    decreases a.len(),
{
    if a.len() > 0 {
        let b = a.drop_last();
        assert forall|i: int| 0 <= i < b.len() implies #[trigger] b[i] is Array by {
            assert(b[i] == a[i]);
        }
        law_rows_of_arrays(b);
        assert(a.last() == a[a.len() - 1]);
        let row = json_components(a.last()->Array_0);
        assert(json_rows(a) =~= json_rows(b).push(row));
        assert forall|i: int| 0 <= i < a.len() implies (#[trigger] json_rows(a)[i]).len()
            == a[i]->Array_0.len() by {
            if i < b.len() {
                assert(b[i] == a[i]);
                assert(json_rows(a)[i] == json_rows(b)[i]);
            }
        }
        assert forall|i: int, j: int|
            0 <= i < a.len() && 0 <= j < a[i]->Array_0.len() implies #[trigger] json_rows(a)[i][j]
            == (match a[i]->Array_0[j] {
            Tree::Number(n) => n,
            _ => Numeral::Unsigned(0),
        }) by {
            if i < b.len() {
                assert(b[i] == a[i]);
                assert(json_rows(a)[i] == json_rows(b)[i]);
                assert(json_rows(b)[i][j] == json_rows(a)[i][j]);
            }
        }
    }
}

/// A vector comes from the array under `dense`; where there is no array, from what is under
/// `sparse`; where there is nothing, from the array under `multi_dense`; and from nothing else.
/// Each component comes from the item at its index.
pub proof fn law_vector_origin(t: Tree)
    ensures
        match t.get("dense"@) {
            Some(Tree::Array(a)) => json_vector(t) matches Some(VectorTree::Dense(s)) && {
                &&& s.len() == a.len()
                &&& forall|i: int|
                    0 <= i < a.len() ==> #[trigger] s[i] == (match a[i] {
                        Tree::Number(n) => n,
                        _ => Numeral::Unsigned(0),
                    })
            },
            _ => match t.get("sparse"@) {
                Some(sparse) => json_vector(t) matches Some(
                    VectorTree::Sparse { values, indices },
                ) && {
                    &&& match sparse.get("values"@) {
                        Some(Tree::Array(a)) => values.len() == a.len() && forall|i: int|
                            0 <= i < a.len() ==> #[trigger] values[i] == (match a[i] {
                                Tree::Number(n) => n,
                                _ => Numeral::Unsigned(0),
                            }),
                        _ => values.len() == 0,
                    }
                    &&& match sparse.get("indices"@) {
                        Some(Tree::Array(a)) => indices.len() == a.len() && forall|i: int|
                            0 <= i < a.len() ==> #[trigger] indices[i] == (match a[i] {
                                Tree::Number(Numeral::Unsigned(u)) => u as u32,
                                _ => 0u32,
                            }),
                        _ => indices.len() == 0,
                    }
                },
                None => match t.get("multi_dense"@) {
                    Some(Tree::Array(a)) => json_vector(t) == Some(
                        VectorTree::MultiDense(json_rows(a)),
                    ),
                    _ => json_vector(t) is None,
                },
            },
        },
{
}

/// The vectors of a point come from what is under `vector`, where something is, and otherwise from
/// the object under `vectors`, a vector for each of its members and no other; and only where each
/// of them holds a vector.
pub proof fn law_vectors_origin(t: Tree)
    ensures
        match t.get("vector"@) {
            Some(inner) => match json_vector(inner) {
                Some(v) => json_vectors(t) == Some(VectorsTree::Single(v)),
                None => json_vectors(t) is None,
            },
            None => match t.get("vectors"@) {
                Some(Tree::Object(o)) => {
                    &&& json_vectors(t) is Some <==> forall|k: Seq<char>| #[trigger]
                        o.contains_key(k) ==> json_vector(o[k]) is Some
                    &&& json_vectors(t) is Some ==> (json_vectors(t)->0 matches VectorsTree::Named(
                        m,
                    ) && m.dom() == o.dom() && forall|k: Seq<char>| #[trigger]
                        o.contains_key(k) ==> json_vector(o[k]) == Some(m[k]))
                },
                _ => json_vectors(t) is None,
            },
        },
{
    if let Some(Tree::Object(o)) = t.get("vectors"@) {
        assert(json_named(o).dom() =~= o.dom());
    }
}

/// Where no vectors are restored on account of a value without a vector, that value is the one
/// under `vector`, or, where there is none, one of those under `vectors`, and no other of those
/// without a vector has a name before its name.
pub proof fn law_blame(t: Tree, text: Seq<char>)
    requires
        is_blamed_text(t, text),
    ensures
        json_vectors(t) is None,
        match t.get("vector"@) {
            Some(inner) => json_vector(inner) is None && text == json_text(inner),
            None => t.get("vectors"@) matches Some(Tree::Object(o)) && exists|name: Seq<char>|
                {
                    &&& #[trigger] o.contains_key(name)
                    &&& json_vector(o[name]) is None
                    &&& text == json_text(o[name])
                    &&& forall|k: Seq<char>| #[trigger]
                        o.contains_key(k) && json_vector(o[k]) is None ==> !text_less(k, name)
                },
        },
{
    if t.get("vector"@) is None {
        let o = t.field("vectors"@)->Object_0;
        let name = choose|name: Seq<char>| #[trigger]
            is_first_without_vector(o, name) && text == json_text(o[name]);
        assert(o.contains_key(name));
    }
}

/// An id comes from the number where the type is `num`, by its bits, and from the text where it is
/// `uuid`; and there is none where that is missing, or the type is another.
pub proof fn law_id_origin(p: AvroPointTree)
    ensures
        p.id_type == "num"@ ==> (match p.id_num {
            Some(n) => restored_id(p) == Some(IdTree::Num(n as u64)),
            None => restored_id(p) is None,
        }),
        p.id_type == "uuid"@ ==> (match p.id_uuid {
            Some(u) => restored_id(p) == Some(IdTree::Uuid(u)),
            None => restored_id(p) is None,
        }),
        p.id_type != "num"@ && p.id_type != "uuid"@ ==> restored_id(p) is None,
{
    lemma_id_types_differ();
}

/// A point comes from a stored one exactly where the id is there, the payload is read as an
/// object, and the vectors, if there are any, are read as a value that holds some; each part then
/// comes from its own field.
pub proof fn law_point_origin(p: AvroPointTree)
    ensures
        restored_point(p) is Some <==> {
            &&& restored_id(p) is Some
            &&& (read_text(p.payload) matches Ok(Tree::Object(_)))
            &&& (p.vectors matches Some(text) ==> (read_text(text) matches Ok(t) && json_vectors(
                t,
            ) is Some))
        },
        restored_point(p) matches Some(q) ==> {
            &&& Some(q.id) == restored_id(p)
            &&& (read_text(p.payload) matches Ok(Tree::Object(o)) && q.payload == json_payload(o))
            &&& match p.vectors {
                Some(text) => read_text(text) matches Ok(t) && q.vectors == json_vectors(t),
                None => q.vectors is None,
            }
        },
        p.vectors matches Some(text) ==> (match read_text(text) {
            Ok(t) => restored_vectors(text) == json_vectors(t),
            Err(_) => restored_vectors(text) is None,
        }),
{
}

/// The parameters of a vector come each from the value under its own name: the size, without which
/// there are none, the distance, zero where there is no integer, and the others, not set where
/// there is no value of their type. An integer gives what is left of it in 32 bits, which is itself
/// where it fits.
pub proof fn law_params_origin(t: Tree)
    ensures
        json_params(t) is Some <==> (t.get("size"@) matches Some(
            Tree::Number(Numeral::Unsigned(_)),
        )),
        json_params(t) matches Some(vp) ==> {
            &&& t.get("size"@) == Some(Tree::Number(Numeral::Unsigned(vp.size)))
            &&& vp.distance == (match t.field("distance"@).as_i64() {
                Some(d) => d as i32,
                None => 0i32,
            })
            &&& vp.on_disk == (match t.get("on_disk"@) {
                Some(Tree::Bool(b)) => Some(b),
                _ => None,
            })
            &&& match t.field("datatype"@).as_i64() {
                Some(d) => vp.datatype == Some(d as i32),
                None => vp.datatype is None,
            }
            &&& match t.field("multivector_comparator"@).as_i64() {
                Some(c) => vp.multivector_config matches Some(mvc) && mvc.comparator == c as i32,
                None => vp.multivector_config is None,
            }
        },
        forall|i: i64| i32::MIN <= i <= i32::MAX ==> #[trigger] low_bits(i) as int == i as int,
{
}

/// What comes out where the notes say how vectors are configured, and why nothing does where they
/// do not, is fixed by what they say: nothing at all, no type, a type that there is not, the
/// parameters of one vector, under `params` or, in the older form, beside the type, or those of
/// each name.
pub proof fn law_config_outcome(
    collection: Seq<char>,
    config: Tree,
    r: Result<VectorsConfigKind, StoreError>,
)
    requires
        is_config_outcome(collection, config, r),
    ensures
        config is Null ==> (r matches Err(StoreError::NoVectorsConfig(name)) && name@
            == collection),
        config !is Null && !(config.get("type"@) matches Some(Tree::Text(_))) ==> (r matches Err(
            StoreError::NoVectorsConfigType,
        )),
        config.get("type"@) matches Some(Tree::Text(kind)) ==> {
            &&& kind != "single"@ && kind != "named"@ ==> (r matches Err(
                StoreError::UnknownVectorsConfigType(name),
            ) && name@ == kind)
            &&& kind == "single"@ ==> (match json_params(
                match config.get("params"@) {
                    Some(Tree::Object(o)) => Tree::Object(o),
                    _ => config,
                },
            ) {
                Some(vp) => r matches Ok(VectorsConfigKind::Params(found)) && found == vp,
                None => r matches Err(StoreError::NoSize),
            })
            &&& kind == "named"@ ==> (match config.get("params"@) {
                Some(Tree::Object(o)) => {
                    &&& r is Ok <==> forall|k: Seq<char>| #[trigger]
                        o.contains_key(k) ==> json_params(o[k]) is Some
                    &&& r is Err ==> (r matches Err(StoreError::NoSize))
                    &&& r is Ok ==> (r matches Ok(VectorsConfigKind::ParamsMap(d)) && d@.dom()
                        == o.dom() && forall|k: Seq<char>| #[trigger]
                        o.contains_key(k) ==> json_params(o[k]) == Some(d@[k]))
                },
                _ => r matches Err(StoreError::NoNamedParams),
            })
        },
{
    reveal_strlit("single");
    reveal_strlit("named");
    assert("single"@.len() != "named"@.len());
    if let Some(Tree::Object(o)) = config.get("params"@) {
        assert(json_params_map(o).dom() =~= o.dom());
    }
}

/// From the notes that were written on a collection comes exactly the configuration that it had,
/// parameter by parameter, and nothing where it was not known.
pub proof fn law_collection_recreated(
    collection: Seq<char>,
    info: CollectionInfo,
    text: Seq<char>,
    name: Seq<char>,
    config: Tree,
    r: Result<VectorsConfigKind, StoreError>,
)
    requires
        read_text(text) matches Ok(t) && t == metadata_json(collection, info) && t.get(
            "vectors_config"@,
        ) == Some(config),
        is_config_outcome(name, config, r),
    ensures
        match info.vectors_config() {
            Some(ConfigTree::Params(vp)) => r matches Ok(VectorsConfigKind::Params(found)) && {
                &&& found.size == vp.size
                &&& found.distance == vp.distance
                &&& found.on_disk == vp.on_disk
                &&& found.datatype == vp.datatype
                &&& found.multivector_config == vp.multivector_config
            },
            Some(ConfigTree::ParamsMap(m)) => r matches Ok(VectorsConfigKind::ParamsMap(found))
                && found@ == m,
            None => r matches Err(StoreError::NoVectorsConfig(n)) && n@ == name,
        },
{
    law_config_restored(info.vectors_config());
}

/// A number is read from its own text: an integer as it is, a double as its text says.
pub proof fn law_read_number(n: Numeral, t: Tree, e: serde_json::Error, text: Seq<char>)
    ensures
        n !is Double ==> read_number(n) == n,
        n is Double ==> (match read_text(json_text(Tree::Number(n))) {
            Ok(Tree::Number(m)) => read_number(n) == m,
            _ => read_number(n) == n,
        }),
        reads_as(text, t) <==> (read_text(text) matches Ok(u) && u == t),
        is_refused_with(text, e) <==> (read_text(text) matches Err(f) && f == e),
{
}

/// A value that is read again has its items in their order, its members under their names, and
/// only its doubles as their texts say.
pub proof fn law_reread_form(t: Tree)
    ensures
        match t {
            Tree::Number(n) => reread(t) == Tree::Number(read_number(n)),
            Tree::Array(a) => reread(t) matches Tree::Array(s) && {
                &&& s.len() == a.len()
                &&& forall|i: int| 0 <= i < a.len() ==> #[trigger] s[i] == reread(a[i])
            },
            Tree::Object(o) => reread(t) matches Tree::Object(m) && {
                &&& m.dom() == o.dom()
                &&& forall|k: Seq<char>| o.contains_key(k) ==> #[trigger] m[k] == reread(o[k])
            },
            _ => reread(t) == t,
        },
{
    match t {
        Tree::Array(a) => {
            let s = reread(t)->Array_0;
            assert forall|i: int| 0 <= i < a.len() implies #[trigger] s[i] == reread(a[i]) by {}
        },
        Tree::Object(o) => {
            let m = reread(t)->Object_0;
            assert(m.dom() =~= o.dom());
            assert forall|k: Seq<char>| o.contains_key(k) implies #[trigger] m[k] == reread(
                o[k],
            ) by {}
        },
        _ => {},
    }
}

/// A value is readable down to a depth where it is no array and no object, and is no double or one
/// whose text is read as a number; or where there is depth left, and each part is readable down to
/// one less.
pub proof fn law_readable_form(t: Tree, depth: int)
    ensures
        match t {
            Tree::Array(a) => readable(t, depth) <==> depth > 0 && forall|i: int|
                0 <= i < a.len() ==> readable(#[trigger] a[i], depth - 1),
            Tree::Object(o) => readable(t, depth) <==> depth > 0 && forall|k: Seq<char>|
                o.contains_key(k) ==> readable(#[trigger] o[k], depth - 1),
            Tree::Number(Numeral::Double(_)) => readable(t, depth) <==> (read_text(
                json_text(t),
            ) matches Ok(Tree::Number(_))),
            _ => readable(t, depth),
        },
{
}

/// Of two texts that agree in their first bytes, the one with the lesser byte after those comes
/// first, or the one that ends there; a text does not come before itself.
pub proof fn law_text_order(a: Seq<char>, b: Seq<char>, i: int)
    requires
        0 <= i <= encode_utf8(a).len(),
        i <= encode_utf8(b).len(),
        encode_utf8(a).take(i) == encode_utf8(b).take(i),
    ensures
        i < encode_utf8(a).len() && i < encode_utf8(b).len() && encode_utf8(a)[i] < encode_utf8(
            b,
        )[i] ==> text_less(a, b) && !text_less(b, a),
        i == encode_utf8(a).len() && i < encode_utf8(b).len() ==> text_less(a, b) && !text_less(
            b,
            a,
        ),
        i == encode_utf8(a).len() && i == encode_utf8(b).len() ==> !text_less(a, b) && !text_less(
            b,
            a,
        ),
{
    lemma_common_prefix(encode_utf8(a), encode_utf8(b), i);
    lemma_common_prefix(encode_utf8(b), encode_utf8(a), i);
}

/// Bytes that two sequences have in common do not decide which comes first.
proof fn lemma_common_prefix(a: Seq<u8>, b: Seq<u8>, i: int)
    requires
        0 <= i <= a.len(),
        i <= b.len(),
        a.take(i) == b.take(i),
    ensures
        bytes_less(a, b) == bytes_less(a.skip(i), b.skip(i)),
    decreases i,
{
    if i == 0 {
        assert(a.skip(0) =~= a);
        assert(b.skip(0) =~= b);
    } else {
        assert(a[0] == a.take(i)[0]);
        assert(b[0] == b.take(i)[0]);
        let x = a.drop_first();
        let y = b.drop_first();
        assert forall|k: int| 0 <= k < i - 1 implies #[trigger] x[k] == y[k] by {
            assert(a.take(i)[k + 1] == a[k + 1]);
            assert(b.take(i)[k + 1] == b[k + 1]);
            assert(a.take(i)[k + 1] == b.take(i)[k + 1]);
        }
        assert(x.take(i - 1) =~= y.take(i - 1));
        lemma_common_prefix(x, y, i - 1);
        assert(x.skip(i - 1) =~= a.skip(i));
        assert(y.skip(i - 1) =~= b.skip(i));
    }
}

/// One more point waits behind those that wait, until there are as many as a batch has; then all
/// of them are given out, and none waits. At the end those that wait are given out, where some do.
pub proof fn law_batching_step(batch_size: usize, points: Seq<PointStruct>, point: PointStruct)
    ensures
        batching(batch_size, Seq::empty()).given.len() == 0,
        batching(batch_size, Seq::empty()).waiting.len() == 0,
        ({
            let a = batching(batch_size, points);
            let b = batching(batch_size, points.push(point));
            if a.waiting.len() + 1 >= batch_size {
                &&& b.given == a.given.push(a.waiting.push(point))
                &&& b.waiting.len() == 0
            } else {
                &&& b.given == a.given
                &&& b.waiting == a.waiting.push(point)
            }
        }),
        ({
            let a = batching(batch_size, points);
            let e = a.finished();
            &&& a.waiting.len() > 0 ==> e.given == a.given.push(a.waiting) && e.waiting.len() == 0
            &&& a.waiting.len() == 0 ==> e.given == a.given && e.waiting.len() == 0
        }),
        Batching::start().given.len() == 0 && Batching::start().waiting.len() == 0,
{
    assert(points.push(point).drop_last() =~= points);
}

} // verus!
