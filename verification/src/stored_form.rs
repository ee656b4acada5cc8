//! What is stored, part by part: each law says of one thing that is stored what stands where in it.
use crate::avro_schema::{lemma_id_types_differ, AvroTree, POINT_SCHEMA};
use crate::backup::{
    components_json, config_json, indices_json, is_record_of, is_refused, metadata_json,
    named_json, params_json, params_map_json, payload_json, points_on, rows_json, stored_payload,
    value_json, vector_json, vectors_json, walk_over, Page,
};
use crate::collections::{CollectionInfo, ConfigTree, VectorParams};
use crate::directories::{METADATA_FILE, POINTS_FILE};
use crate::error::StoreError;
use crate::json::{Numeral, Tree};
use crate::json_text::json_text;
use crate::points::{
    IdTree, PayloadTree, RetrievedPoint, RetrievedTree, VectorOutputTree, VectorsOutputTree,
};
use vstd::prelude::*;

verus! {

/// A payload value is stored as the JSON value of its kind: an integer with its own value, a list
/// item by item in their order, a struct field by field under their names; what has no place in
/// JSON as `Null`.
pub proof fn law_value_form(p: PayloadTree)
    ensures
        match p {
            PayloadTree::Unset => value_json(p) == Tree::Null,
            PayloadTree::Null => value_json(p) == Tree::Null,
            PayloadTree::Bool(b) => value_json(p) == Tree::Bool(b),
            PayloadTree::Integer(i) => value_json(p) matches Tree::Number(n) && (match n {
                Numeral::Unsigned(u) => u as int == i as int,
                Numeral::Negative(s) => s == i && i < 0,
                Numeral::Double(_) => false,
            }),
            PayloadTree::Double(Some(n)) => value_json(p) == Tree::Number(n),
            PayloadTree::Double(None) => value_json(p) == Tree::Null,
            PayloadTree::Text(s) => value_json(p) == Tree::Text(s),
            PayloadTree::List(s) => value_json(p) matches Tree::Array(a) && {
                &&& a.len() == s.len()
                &&& forall|i: int| 0 <= i < s.len() ==> #[trigger] a[i] == value_json(s[i])
            },
            PayloadTree::Struct(m) => value_json(p) matches Tree::Object(o) && {
                &&& o.dom() == m.dom()
                &&& forall|k: Seq<char>| m.contains_key(k) ==> #[trigger] o[k] == value_json(m[k])
            },
        },
{
    match p {
        PayloadTree::List(s) => {
            let a = value_json(p)->Array_0;
            assert forall|i: int| 0 <= i < s.len() implies #[trigger] a[i] == value_json(s[i]) by {}
        },
        PayloadTree::Struct(m) => {
            let o = value_json(p)->Object_0;
            assert(o.dom() =~= m.dom());
            assert forall|k: Seq<char>| m.contains_key(k) implies #[trigger] o[k] == value_json(
                m[k],
            ) by {}
        },
        _ => {},
    }
}

/// A payload is stored as an object with a member for each field, and no other.
pub proof fn law_payload_form(p: RetrievedTree)
    ensures
        payload_json(p.payload).dom() == p.payload.dom(),
        forall|k: Seq<char>|
            p.payload.contains_key(k) ==> #[trigger] payload_json(p.payload)[k] == value_json(
                p.payload[k],
            ),
        stored_payload(p) matches Tree::Object(m) && m.dom() == p.payload.dom() && forall|
            k: Seq<char>,
        |
            p.payload.contains_key(k) ==> #[trigger] m[k] == value_json(p.payload[k]),
{
    assert(payload_json(p.payload).dom() =~= p.payload.dom());
}

/// The components of a vector are stored as an array that has at each index the number of the
/// component at that index, and `Null` for one that is not finite.
pub proof fn law_components_form(s: Seq<Option<Numeral>>)
    ensures
        components_json(s) matches Tree::Array(a) && a.len() == s.len() && forall|i: int|
            0 <= i < s.len() ==> #[trigger] a[i] == (match s[i] {
                Some(n) => Tree::Number(n),
                None => Tree::Null,
            }),
{
}

/// The indices of a sparse vector are stored as an array that has at each index the integer that
/// stands there.
pub proof fn law_indices_form(s: Seq<u32>)
    ensures
        indices_json(s) matches Tree::Array(a) && a.len() == s.len() && forall|i: int|
            0 <= i < s.len() ==> ((#[trigger] a[i]) matches Tree::Number(Numeral::Unsigned(u)) && u
                as int == s[i] as int),
{
}

/// Several vectors are stored as an array of arrays: at each index the one with the components of
/// the vector at that index, in their order.
pub proof fn law_rows_form(rows: Seq<Seq<Option<Numeral>>>)
    ensures
        rows_json(rows) matches Tree::Array(a) && a.len() == rows.len() && forall|i: int|
            0 <= i < rows.len() ==> ((#[trigger] a[i]) matches Tree::Array(r) && r.len()
                == rows[i].len() && forall|j: int|
                0 <= j < rows[i].len() ==> #[trigger] r[j] == (match rows[i][j] {
                    Some(n) => Tree::Number(n),
                    None => Tree::Null,
                })),
{
}

/// A vector is stored as an object with one member, whose name says its kind and whose value holds
/// its components, each at its index; one that is missing as `Null`.
pub proof fn law_vector_form(v: Option<VectorOutputTree>)
    ensures
        match v {
            Some(VectorOutputTree::Dense(s)) => vector_json(v) matches Tree::Object(m) && {
                &&& m.dom() == set!["dense"@]
                &&& m["dense"@] matches Tree::Array(a)
                &&& a.len() == s.len()
                &&& forall|i: int|
                    0 <= i < s.len() ==> #[trigger] a[i] == (match s[i] {
                        Some(n) => Tree::Number(n),
                        None => Tree::Null,
                    })
            },
            Some(VectorOutputTree::Sparse { values, indices }) => vector_json(
                v,
            ) matches Tree::Object(m) && {
                &&& m.dom() == set!["sparse"@]
                &&& m["sparse"@] matches Tree::Object(o)
                &&& o.dom() == set!["values"@, "indices"@]
                &&& o["values"@] matches Tree::Array(a)
                &&& o["indices"@] matches Tree::Array(b)
                &&& a.len() == values.len()
                &&& b.len() == indices.len()
                &&& forall|i: int|
                    0 <= i < values.len() ==> #[trigger] a[i] == (match values[i] {
                        Some(n) => Tree::Number(n),
                        None => Tree::Null,
                    })
                &&& forall|i: int|
                    0 <= i < indices.len() ==> ((#[trigger] b[i]) matches Tree::Number(
                        Numeral::Unsigned(u),
                    ) && u as int == indices[i] as int)
            },
            Some(VectorOutputTree::MultiDense(rows)) => vector_json(v) matches Tree::Object(m) && {
                &&& m.dom() == set!["multi_dense"@]
                &&& m["multi_dense"@] matches Tree::Array(a)
                &&& a.len() == rows.len()
                &&& forall|i: int|
                    0 <= i < rows.len() ==> ((#[trigger] a[i]) matches Tree::Array(r) && r.len()
                        == rows[i].len() && forall|j: int|
                        0 <= j < rows[i].len() ==> #[trigger] r[j] == (match rows[i][j] {
                            Some(n) => Tree::Number(n),
                            None => Tree::Null,
                        }))
            },
            None => vector_json(v) == Tree::Null,
        },
{
    reveal_strlit("values");
    reveal_strlit("indices");
    assert("values"@.len() != "indices"@.len());
    match v {
        Some(VectorOutputTree::Dense(s)) => {
            assert(vector_json(v)->Object_0.dom() =~= set!["dense"@]);
        },
        Some(VectorOutputTree::Sparse { values, indices }) => {
            let m = vector_json(v)->Object_0;
            assert(m.dom() =~= set!["sparse"@]);
            assert(m["sparse"@]->Object_0.dom() =~= set!["values"@, "indices"@]);
        },
        Some(VectorOutputTree::MultiDense(rows)) => {
            assert(vector_json(v)->Object_0.dom() =~= set!["multi_dense"@]);
        },
        None => {},
    }
}

/// The vectors of a point are stored as an object with one member: the one vector, or an object
/// with a member for each name, and no other; where there are none at all, as `Null`.
pub proof fn law_vectors_form(v: VectorsOutputTree)
    ensures
        match v {
            VectorsOutputTree::Unset => vectors_json(v) == Tree::Null,
            VectorsOutputTree::Single(w) => vectors_json(v) matches Tree::Object(m) && {
                &&& m.dom() == set!["vector"@]
                &&& m["vector"@] == vector_json(w)
            },
            VectorsOutputTree::Named(named) => vectors_json(v) matches Tree::Object(m) && {
                &&& m.dom() == set!["vectors"@]
                &&& m["vectors"@] matches Tree::Object(o)
                &&& o.dom() == named.dom()
                &&& forall|k: Seq<char>|
                    named.contains_key(k) ==> #[trigger] o[k] == vector_json(named[k])
            },
        },
{
    match v {
        VectorsOutputTree::Unset => {},
        VectorsOutputTree::Single(_) => {
            assert(vectors_json(v)->Object_0.dom() =~= set!["vector"@]);
        },
        VectorsOutputTree::Named(named) => {
            assert(vectors_json(v)->Object_0.dom() =~= set!["vectors"@]);
            assert(named_json(named).dom() =~= named.dom());
        },
    }
}

/// The record of a point has five fields. The first three say of which type the id is, and give
/// it, a number by its bits; the other two are the texts of the payload and, where there are any,
/// of the vectors.
pub proof fn law_record_form(record: AvroTree, p: RetrievedTree)
    requires
        is_record_of(record, p),
    ensures
        record matches AvroTree::Record(f) && {
            &&& f.len() == 5
            &&& f[0].0 == "id_type"@
            &&& f[1].0 == "id_num"@
            &&& f[2].0 == "id_uuid"@
            &&& f[3].0 == "payload"@
            &&& f[4].0 == "vectors"@
            &&& match p.id {
                Some(IdTree::Num(n)) => {
                    &&& f[0].1 == AvroTree::Enum(0, "num"@)
                    &&& f[1].1 == AvroTree::Union(1, Box::new(AvroTree::Long(n as i64)))
                    &&& f[2].1 == AvroTree::Union(0, Box::new(AvroTree::Null))
                },
                Some(IdTree::Uuid(u)) => {
                    &&& f[0].1 == AvroTree::Enum(1, "uuid"@)
                    &&& f[1].1 == AvroTree::Union(0, Box::new(AvroTree::Null))
                    &&& f[2].1 == AvroTree::Union(1, Box::new(AvroTree::Text(u)))
                },
                None => false,
            }
            &&& f[3].1 == AvroTree::Text(json_text(Tree::Object(payload_json(p.payload))))
            &&& match p.vectors {
                Some(v) => f[4].1 == AvroTree::Union(
                    1,
                    Box::new(AvroTree::Text(json_text(vectors_json(v)))),
                ),
                None => f[4].1 == AvroTree::Union(0, Box::new(AvroTree::Null)),
            }
        },
{
    lemma_id_types_differ();
}

/// A point is refused only for want of an id, whatever else it holds: where it has none, or where
/// the one that it has holds nothing. A point with an id is never refused.
pub proof fn law_refused(point: RetrievedPoint, e: StoreError)
    requires
        is_refused(point, e),
    ensures
        match e {
            StoreError::NoId => point.id is None,
            StoreError::NoIdOptions => point.id is Some && point.id->0.point_id_options is None,
            _ => false,
        },
        point.tree().id is None,
{
}

/// The parameters of a vector are noted one by one, each under its name and with its own value,
/// and none that is not set.
pub proof fn law_params_form(vp: VectorParams)
    ensures
        ({
            let m = params_json(vp);
            &&& forall|k: Seq<char>| #[trigger]
                m.contains_key(k) <==> {
                    ||| k == "size"@
                    ||| k == "distance"@
                    ||| k == "on_disk"@ && vp.on_disk is Some
                    ||| k == "datatype"@ && vp.datatype is Some
                    ||| k == "multivector_comparator"@ && vp.multivector_config is Some
                }
            &&& m["size"@] == Tree::Number(Numeral::Unsigned(vp.size))
            &&& m["distance"@] matches Tree::Number(n)
            &&& (n.signed() matches Some(i) && i as int == vp.distance as int)
            &&& vp.on_disk matches Some(b) ==> m["on_disk"@] == Tree::Bool(b)
            &&& vp.datatype matches Some(d) ==> (m["datatype"@] matches Tree::Number(n) && (
            n.signed() matches Some(i) && i as int == d as int))
            &&& vp.multivector_config matches Some(c) ==> (
            m["multivector_comparator"@] matches Tree::Number(n) && (n.signed() matches Some(i) && i
                as int == c.comparator as int))
        }),
{
    reveal_strlit("size");
    reveal_strlit("distance");
    reveal_strlit("on_disk");
    reveal_strlit("datatype");
    reveal_strlit("multivector_comparator");
    assert("size"@.len() == 4);
    assert("distance"@.len() == 8);
    assert("on_disk"@.len() == 7);
    assert("datatype"@.len() == 8);
    assert("multivector_comparator"@.len() == 22);
    assert("distance"@[1] != "datatype"@[1]);
}

/// How vectors are configured is noted as an object that says which of the two types it has, and
/// holds the parameters of the one vector, or those of each name, and no other.
pub proof fn law_config_form(config: Option<ConfigTree>)
    ensures
        match config {
            Some(ConfigTree::Params(vp)) => config_json(config) matches Tree::Object(m) && {
                &&& m.dom() == set!["type"@, "params"@]
                &&& m["type"@] == Tree::Text("single"@)
                &&& m["params"@] == Tree::Object(params_json(vp))
            },
            Some(ConfigTree::ParamsMap(named)) => config_json(config) matches Tree::Object(m) && {
                &&& m.dom() == set!["type"@, "params"@]
                &&& m["type"@] == Tree::Text("named"@)
                &&& m["params"@] matches Tree::Object(o)
                &&& o.dom() == named.dom()
                &&& forall|k: Seq<char>|
                    named.contains_key(k) ==> #[trigger] o[k] == Tree::Object(
                        params_json(named[k]),
                    )
            },
            None => config_json(config) == Tree::Null,
        },
{
    reveal_strlit("type");
    reveal_strlit("params");
    assert("type"@.len() != "params"@.len());
    match config {
        Some(ConfigTree::Params(_)) => {
            assert(config_json(config)->Object_0.dom() =~= set!["type"@, "params"@]);
        },
        Some(ConfigTree::ParamsMap(named)) => {
            assert(config_json(config)->Object_0.dom() =~= set!["type"@, "params"@]);
            assert(params_map_json(named).dom() =~= named.dom());
        },
        None => {},
    }
}

/// The notes on a collection have six members. Each is what its name says of the collection, and
/// depends on nothing else: the name, each of the three counts, `Null` for one that is not known,
/// the configuration in words, and how the vectors are configured.
pub proof fn law_metadata_form(collection: Seq<char>, info: CollectionInfo)
    ensures
        metadata_json(collection, info) matches Tree::Object(m) && {
            &&& m.dom() == set![
                "collection_name"@,
                "points_count"@,
                "indexed_vectors_count"@,
                "segments_count"@,
                "config_debug"@,
                "vectors_config"@,
            ]
            &&& m["collection_name"@] == Tree::Text(collection)
            &&& m["points_count"@] == (match info.points_count {
                Some(n) => Tree::Number(Numeral::Unsigned(n)),
                None => Tree::Null,
            })
            &&& m["indexed_vectors_count"@] == (match info.indexed_vectors_count {
                Some(n) => Tree::Number(Numeral::Unsigned(n)),
                None => Tree::Null,
            })
            &&& m["segments_count"@] == Tree::Number(Numeral::Unsigned(info.segments_count))
            &&& m["config_debug"@] == Tree::Text(info.config_debug@)
            &&& m["vectors_config"@] == config_json(info.vectors_config())
        },
{
    reveal_strlit("collection_name");
    reveal_strlit("points_count");
    reveal_strlit("indexed_vectors_count");
    reveal_strlit("segments_count");
    reveal_strlit("config_debug");
    reveal_strlit("vectors_config");
    assert("collection_name"@.len() == 15);
    assert("points_count"@.len() == 12);
    assert("indexed_vectors_count"@.len() == 21);
    assert("segments_count"@.len() == 14);
    assert("config_debug"@.len() == 12);
    assert("vectors_config"@.len() == 14);
    assert("points_count"@[0] != "config_debug"@[0]);
    assert("segments_count"@[0] != "vectors_config"@[0]);
    assert(metadata_json(collection, info)->Object_0.dom() =~= set![
        "collection_name"@,
        "points_count"@,
        "indexed_vectors_count"@,
        "segments_count"@,
        "config_debug"@,
        "vectors_config"@,
    ]);
}

/// Notes on two collections that differ in a count differ in what they hold under its name.
pub proof fn law_metadata_counts(
    collection: Seq<char>,
    a: CollectionInfo,
    other: Seq<char>,
    b: CollectionInfo,
)
    requires
        metadata_json(collection, a) == metadata_json(other, b),
    ensures
        collection == other,
        a.points_count == b.points_count,
        a.indexed_vectors_count == b.indexed_vectors_count,
        a.segments_count == b.segments_count,
        a.config_debug@ == b.config_debug@,
{
    law_metadata_form(collection, a);
    law_metadata_form(other, b);
}

/// One more page adds its points to those of the pages before, and the walk goes on from where it
/// says; it is then done exactly when the page names no next one, or has no points, however many
/// it has. Before its first page a walk has no points, starts at the beginning, and is not done.
pub proof fn law_walk_step(pages: Seq<Page>, page: Page)
    ensures
        walk_over(Seq::empty()).total == 0,
        walk_over(Seq::empty()).offset is None,
        !walk_over(Seq::empty()).done,
        walk_over(pages.push(page)).total == walk_over(pages).total + page.count,
        walk_over(pages.push(page)).offset == page.next,
        walk_over(pages.push(page)).done <==> page.next is None || page.count == 0,
        points_on(Seq::empty()) == 0,
        points_on(pages.push(page)) == points_on(pages) + page.count,
{
    assert(pages.push(page).drop_last() =~= pages);
}

/// The files of a backup have their names, and points their schema.
pub proof fn law_files()
    ensures
        METADATA_FILE@ == "metadata.json"@,
        POINTS_FILE@ == "points.avro"@,
        POINT_SCHEMA@ == r#"
{
  "type": "record",
  "name": "QdrantPoint",
  "fields": [
    {"name": "id_type",  "type": {"type": "enum", "name": "IdType", "symbols": ["num", "uuid"]}},
    {"name": "id_num",   "type": ["null", "long"],   "default": null},
    {"name": "id_uuid",  "type": ["null", "string"], "default": null},
    {"name": "payload",  "type": "string"},
    {"name": "vectors",  "type": ["null", "string"], "default": null}
  ]
}
"#@,
{
}

/// What an error says is fixed by what went wrong; where it is about a value or a name, it ends in
/// the text of that value, or holds that name between quotes.
pub proof fn law_messages(e: StoreError)
    ensures
        match e {
            StoreError::NoId => e.context_text() == Some("Point has no ID"@),
            StoreError::NoIdOptions => e.context_text() == Some("Point has no ID options"@),
            StoreError::Json(_) => e.context_text() is None,
            StoreError::Payload(_) => e.context_text() == Some("Failed to parse payload JSON"@),
            StoreError::Vectors(_) => e.context_text() == Some("Failed to parse vectors JSON"@),
            StoreError::NoIdNum => e.context_text() == Some(
                "id_type is 'num' but id_num is null"@,
            ),
            StoreError::NoIdUuid => e.context_text() == Some(
                "id_type is 'uuid' but id_uuid is null"@,
            ),
            StoreError::UnknownIdType(s) => e.context_text() == Some("Unknown id_type: "@ + s@),
            StoreError::NotVectors(s) => e.context_text() == Some(
                "Cannot parse vectors JSON: "@ + s@,
            ),
            StoreError::NotVector(s) => e.context_text() == Some(
                "Cannot parse single vector JSON: "@ + s@,
            ),
            StoreError::NoCollectionName => e.context_text() == Some(
                "No collection name: pass --collection or ensure metadata.json has 'collection_name'"@,
            ),
            StoreError::NoVectorsConfig(s) => e.context_text() == Some(
                "Cannot auto-create '"@ + s@
                    + "': metadata.json has no 'vectors_config' (re-run backup to capture it, or create the collection manually from 'config_debug')"@,
            ),
            StoreError::NoVectorsConfigType => e.context_text() == Some(
                "vectors_config.type missing"@,
            ),
            StoreError::UnknownVectorsConfigType(s) => e.context_text() == Some(
                "Unknown vectors_config type: "@ + s@,
            ),
            StoreError::NoNamedParams => e.context_text() == Some(
                "vectors_config.params missing for named vectors"@,
            ),
            StoreError::NoSize => e.context_text() == Some("vector params missing 'size'"@),
        },
{
}

} // verus!
