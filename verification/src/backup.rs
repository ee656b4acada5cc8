//! Backing up: from points and collections to what is stored of them.
use crate::avro_schema::{
    lemma_id_types_differ, long_or_null, option_text, optional_long, optional_text, stores,
    text_or_null, AvroPointTree, AvroTree, AvroValue,
};
use crate::collections::{CollectionInfo, ConfigTree, VectorParams, VectorsConfigKind};
use crate::dict::Dict;
use crate::error::StoreError;
use crate::json::{
    lemma_array_tree, lemma_map_trees_insert, lemma_object_tree, list_trees, map_trees, Json,
    Numeral, Tree,
};
use crate::json_text::{
    is_exact, json_text, json_to_string, json_to_string_pretty, law_exact_reread, pretty_text,
    readable, reads_as, reread, MAX_DEPTH,
};
use crate::laws::{comes_back, kept_point, law_point_restored};
use crate::points::{
    component, component_rows, components, lemma_list_tree, lemma_struct_tree, named_output_trees,
    option_vector_tree, payload_list_trees, payload_trees, IdTree, PayloadTree, PayloadValue,
    PointId, PointIdOptions, RetrievedPoint, RetrievedTree, VectorOutput, VectorOutputTree,
    VectorsOutput, VectorsOutputTree,
};
use crate::restore::restored_point;
use vstd::prelude::*;

verus! {

/// The JSON value in which a payload value is stored. JSON has no place for a value of no kind,
/// nor for a double that is not finite: both are stored as `Null`.
pub open spec fn value_json(p: PayloadTree) -> Tree
    decreases p,
{
    match p {
        PayloadTree::Unset => Tree::Null,
        PayloadTree::Null => Tree::Null,
        PayloadTree::Bool(b) => Tree::Bool(b),
        PayloadTree::Integer(i) => Tree::Number(Numeral::of_signed(i)),
        PayloadTree::Double(Some(n)) => Tree::Number(n),
        PayloadTree::Double(None) => Tree::Null,
        PayloadTree::Text(s) => Tree::Text(s),
        PayloadTree::List(s) => Tree::Array(
            Seq::new(
                s.len(),
                |i: int|
                    if 0 <= i < s.len() {
                        value_json(s[i])
                    } else {
                        Tree::Null
                    },
            ),
        ),
        PayloadTree::Struct(m) => Tree::Object(
            Map::new(
                |k: Seq<char>| m.contains_key(k),
                |k: Seq<char>|
                    if m.contains_key(k) {
                        value_json(m[k])
                    } else {
                        Tree::Null
                    },
            ),
        ),
    }
}

/// The JSON values in which the values of a payload are stored.
pub open spec fn payload_json(m: Map<Seq<char>, PayloadTree>) -> Map<Seq<char>, Tree> {
    Map::new(|k: Seq<char>| m.contains_key(k), |k: Seq<char>| value_json(m[k]))
}

/// A struct is stored as the object of what its fields are stored as.
proof fn lemma_struct_json(m: Map<Seq<char>, PayloadTree>)
    ensures
        value_json(PayloadTree::Struct(m)) == Tree::Object(payload_json(m)),
{
    let t = value_json(PayloadTree::Struct(m))->Object_0;
    assert forall|k: Seq<char>| m.contains_key(k) implies #[trigger] t[k] == payload_json(m)[k] by {
        assert(t[k] == value_json(m[k]));
    }
    assert(t =~= payload_json(m));
}

/// The JSON object in which a payload is stored.
pub fn payload_to_json(payload: &Dict<PayloadValue>) -> (r: Dict<Json>)
    ensures
        map_trees(r@) == payload_json(payload_trees(payload@)),
    decreases *payload,
{
    let n = payload.len();
    let mut r: Dict<Json> = Dict::new();
    let mut i: usize = 0;
    proof {
        assert(map_trees(r@) =~= payload_json(payload_trees(payload.prefix(0))));
    }
    while i < n
        invariant
            i <= n,
            n == payload.entries().len(),
            map_trees(r@) == payload_json(payload_trees(payload.prefix(i as int))),
        decreases n - i,
    {
        let (name, value) = payload.entry(i);
        let json = qdrant_value_to_json(value);
        proof {
            assert(!map_trees(r@).contains_key(name@));
            lemma_map_trees_insert(r@, name@, json);
        }
        r.push(name.clone(), json);
        i += 1;
        proof {
            assert(map_trees(r@) =~= payload_json(payload_trees(payload.prefix(i as int))));
        }
    }
    r
}

/// The JSON value in which a payload value is stored.
pub fn qdrant_value_to_json(v: &PayloadValue) -> (r: Json)
    ensures
        r.tree() == value_json(v.tree()),
    decreases *v,
{
    match v {
        PayloadValue::Unset => Json::Null,
        PayloadValue::Null => Json::Null,
        PayloadValue::Bool(b) => Json::Bool(*b),
        PayloadValue::Integer(i) => Json::signed(*i),
        PayloadValue::Double(n) => match n {
            Some(n) => Json::Number(n.clone()),
            None => Json::Null,
        },
        PayloadValue::Text(s) => Json::Text(s.clone()),
        PayloadValue::Struct(fields) => {
            let members = payload_to_json(fields);
            proof {
                lemma_struct_tree(*fields);
                lemma_struct_json(payload_trees(fields@));
                lemma_object_tree(members);
            }
            Json::Object(members)
        },
        PayloadValue::List(values) => {
            let mut items: Vec<Json> = Vec::new();
            let mut i: usize = 0;
            while i < values.len()
                invariant
                    i <= values@.len(),
                    decreases_to!(*v => *values),
                    items@.len() == i,
                    forall|k: int|
                        0 <= k < i ==> (#[trigger] items@[k]).tree() == value_json(
                            values@[k].tree(),
                        ),
                decreases values@.len() - i,
            {
                assert(decreases_to!(*values => values@));
                assert(decreases_to!(values@ => values@[i as int]));
                items.push(qdrant_value_to_json(&values[i]));
                i += 1;
            }
            proof {
                lemma_list_tree(*values);
                lemma_array_tree(items);
                let s = payload_list_trees(values@);
                let t = value_json(PayloadTree::List(s))->Array_0;
                assert forall|k: int| 0 <= k < s.len() implies #[trigger] t[k] == list_trees(
                    items@,
                )[k] by {
                    assert(t[k] == value_json(s[k]));
                    assert(items@[k].tree() == value_json(values@[k].tree()));
                }
                assert(t =~= list_trees(items@));
            }
            Json::Array(items)
        },
    }
}

/// An object with one member.
pub open spec fn object_of(name: Seq<char>, value: Tree) -> Tree {
    Tree::Object(Map::empty().insert(name, value))
}

/// The object with the one member.
fn single_member(name: &str, value: Json) -> (r: Json)
    ensures
        r.tree() == object_of(name@, value.tree()),
{
    let mut members: Dict<Json> = Dict::new();
    members.insert(name.to_owned(), value);
    proof {
        lemma_object_tree(members);
        assert(map_trees(members@) =~= Map::empty().insert(name@, value.tree()));
    }
    Json::Object(members)
}

/// The JSON value in which a component of a vector is stored.
pub open spec fn component_json(c: Option<Numeral>) -> Tree {
    match c {
        Some(n) => Tree::Number(n),
        None => Tree::Null,
    }
}

/// The JSON array in which the components of a vector are stored.
pub open spec fn components_json(s: Seq<Option<Numeral>>) -> Tree {
    Tree::Array(Seq::new(s.len(), |i: int| component_json(s[i])))
}

/// The JSON array in which the components of several vectors are stored.
pub open spec fn rows_json(rows: Seq<Seq<Option<Numeral>>>) -> Tree {
    Tree::Array(Seq::new(rows.len(), |i: int| components_json(rows[i])))
}

/// The JSON array in which the indices of a sparse vector are stored.
pub open spec fn indices_json(s: Seq<u32>) -> Tree {
    Tree::Array(Seq::new(s.len(), |i: int| Tree::Number(Numeral::Unsigned(s[i] as u64))))
}

/// The JSON value in which a vector is stored, `Null` for one that is missing.
pub open spec fn vector_json(v: Option<VectorOutputTree>) -> Tree {
    match v {
        Some(VectorOutputTree::Dense(data)) => object_of("dense"@, components_json(data)),
        Some(VectorOutputTree::Sparse { values, indices }) => object_of(
            "sparse"@,
            Tree::Object(
                Map::empty().insert("values"@, components_json(values)).insert(
                    "indices"@,
                    indices_json(indices),
                ),
            ),
        ),
        Some(VectorOutputTree::MultiDense(rows)) => object_of("multi_dense"@, rows_json(rows)),
        None => Tree::Null,
    }
}

/// The JSON values in which named vectors are stored.
pub open spec fn named_json(m: Map<Seq<char>, Option<VectorOutputTree>>) -> Map<Seq<char>, Tree> {
    Map::new(|k: Seq<char>| m.contains_key(k), |k: Seq<char>| vector_json(m[k]))
}

/// The JSON value in which the vectors of a point are stored.
pub open spec fn vectors_json(v: VectorsOutputTree) -> Tree {
    match v {
        VectorsOutputTree::Unset => Tree::Null,
        VectorsOutputTree::Single(v) => object_of("vector"@, vector_json(v)),
        VectorsOutputTree::Named(m) => object_of("vectors"@, Tree::Object(named_json(m))),
    }
}

/// The JSON array in which the components of a vector are stored.
fn components_to_json(data: &Vec<Option<serde_json::Number>>) -> (r: Json)
    ensures
        r.tree() == components_json(components(data@)),
{
    let mut items: Vec<Json> = Vec::new();
    let mut i: usize = 0;
    while i < data.len()
        invariant
            i <= data@.len(),
            items@.len() == i,
            forall|k: int|
                0 <= k < i ==> (#[trigger] items@[k]).tree() == component_json(component(data@[k])),
        decreases data@.len() - i,
    {
        let item = match &data[i] {
            Some(n) => Json::Number(n.clone()),
            None => Json::Null,
        };
        items.push(item);
        i += 1;
    }
    proof {
        lemma_array_tree(items);
        assert(list_trees(items@) =~= components_json(components(data@))->Array_0);
    }
    Json::Array(items)
}

/// The JSON array in which the components of several vectors are stored.
fn rows_to_json(rows: &Vec<Vec<Option<serde_json::Number>>>) -> (r: Json)
    ensures
        r.tree() == rows_json(component_rows(rows@)),
{
    let mut items: Vec<Json> = Vec::new();
    let mut i: usize = 0;
    while i < rows.len()
        invariant
            i <= rows@.len(),
            items@.len() == i,
            forall|k: int|
                0 <= k < i ==> (#[trigger] items@[k]).tree() == components_json(
                    components(rows@[k]@),
                ),
        decreases rows@.len() - i,
    {
        items.push(components_to_json(&rows[i]));
        i += 1;
    }
    proof {
        lemma_array_tree(items);
        assert(list_trees(items@) =~= rows_json(component_rows(rows@))->Array_0);
    }
    Json::Array(items)
}

/// The JSON array in which the indices of a sparse vector are stored.
fn indices_to_json(indices: &Vec<u32>) -> (r: Json)
    ensures
        r.tree() == indices_json(indices@),
{
    let mut items: Vec<Json> = Vec::new();
    let mut i: usize = 0;
    while i < indices.len()
        invariant
            i <= indices@.len(),
            items@.len() == i,
            forall|k: int|
                0 <= k < i ==> (#[trigger] items@[k]).tree() == Tree::Number(
                    Numeral::Unsigned(indices@[k] as u64),
                ),
        decreases indices@.len() - i,
    {
        items.push(Json::unsigned(indices[i] as u64));
        i += 1;
    }
    proof {
        lemma_array_tree(items);
        assert(list_trees(items@) =~= indices_json(indices@)->Array_0);
    }
    Json::Array(items)
}

/// The JSON value in which a vector is stored, `Null` for one that is missing.
pub fn vector_output_to_json(v: &Option<VectorOutput>) -> (r: Json)
    ensures
        r.tree() == vector_json(option_vector_tree(*v)),
{
    match v {
        Some(VectorOutput::Dense(data)) => single_member("dense", components_to_json(data)),
        Some(VectorOutput::Sparse { values, indices }) => {
            let mut members: Dict<Json> = Dict::new();
            members.insert("values".to_owned(), components_to_json(values));
            members.insert("indices".to_owned(), indices_to_json(indices));
            proof {
                lemma_object_tree(members);
                assert(map_trees(members@) =~= Map::empty().insert(
                    "values"@,
                    components_json(components(values@)),
                ).insert("indices"@, indices_json(indices@)));
            }
            single_member("sparse", Json::Object(members))
        },
        Some(VectorOutput::MultiDense(rows)) => single_member("multi_dense", rows_to_json(rows)),
        None => Json::Null,
    }
}

/// The JSON value in which the vectors of a point are stored.
pub fn vectors_output_to_json(v: &VectorsOutput) -> (r: Json)
    ensures
        r.tree() == vectors_json(v.tree()),
{
    match v {
        VectorsOutput::Unset => Json::Null,
        VectorsOutput::Single(v) => single_member("vector", vector_output_to_json(v)),
        VectorsOutput::Named(named) => {
            let n = named.len();
            let mut members: Dict<Json> = Dict::new();
            let mut i: usize = 0;
            proof {
                assert(map_trees(members@) =~= named_json(named_output_trees(named.prefix(0))));
            }
            while i < n
                invariant
                    i <= n,
                    n == named.entries().len(),
                    map_trees(members@) == named_json(named_output_trees(named.prefix(i as int))),
                decreases n - i,
            {
                let (name, vector) = named.entry(i);
                let json = vector_output_to_json(vector);
                proof {
                    assert(!map_trees(members@).contains_key(name@));
                    lemma_map_trees_insert(members@, name@, json);
                }
                members.push(name.clone(), json);
                i += 1;
                proof {
                    assert(map_trees(members@) =~= named_json(
                        named_output_trees(named.prefix(i as int)),
                    ));
                }
            }
            proof {
                lemma_object_tree(members);
            }
            single_member("vectors", Json::Object(members))
        },
    }
}

/// The JSON object in which the payload of a point is stored.
pub open spec fn stored_payload(p: RetrievedTree) -> Tree {
    Tree::Object(payload_json(p.payload))
}

/// The fields in which a point with the given id is stored: the id by its type, the payload and
/// the vectors as the given texts.
pub open spec fn stored_fields(
    id: IdTree,
    payload: Seq<char>,
    vectors: Option<Seq<char>>,
) -> AvroPointTree {
    match id {
        IdTree::Num(n) => AvroPointTree {
            id_type: "num"@,
            id_num: Some(n as i64),
            id_uuid: None,
            payload,
            vectors,
        },
        IdTree::Uuid(u) => AvroPointTree {
            id_type: "uuid"@,
            id_num: None,
            id_uuid: Some(u),
            payload,
            vectors,
        },
    }
}

/// The text in which the vectors of a point are stored, where it has any.
pub open spec fn vectors_text(p: RetrievedTree) -> Option<Seq<char>> {
    match p.vectors {
        Some(v) => Some(json_text(vectors_json(v))),
        None => None,
    }
}

/// The record of a point with the given id, and with the given texts for its payload and vectors.
pub fn avro_record(id: &PointIdOptions, payload: String, vectors: Option<String>) -> (r: AvroValue)
    ensures
        stores(
            r.tree(),
            stored_fields(id.tree(), payload@, option_text(vectors)),
        ),
{
    let ghost point = stored_fields(id.tree(), payload@, option_text(vectors));
    let (id_type, id_num, id_uuid) = match id {
        PointIdOptions::Num(n) => (
            AvroValue::Enum(0, "num".to_owned()),
            long_or_null(Some(#[verifier::truncate] (*n as i64))),
            text_or_null(None),
        ),
        PointIdOptions::Uuid(u) => (
            AvroValue::Enum(1, "uuid".to_owned()),
            long_or_null(None),
            text_or_null(Some(u.clone())),
        ),
    };
    let vectors_avro = text_or_null(vectors);
    let fields: Vec<(String, AvroValue)> = vec![
        ("id_type".to_owned(), id_type),
        ("id_num".to_owned(), id_num),
        ("id_uuid".to_owned(), id_uuid),
        ("payload".to_owned(), AvroValue::Text(payload)),
        ("vectors".to_owned(), vectors_avro),
    ];
    proof {
        lemma_id_types_differ();
        let t = AvroValue::Record(fields).tree()->Record_0;
        assert(t[0] == ("id_type"@, id_type.tree()));
        assert(t[1] == ("id_num"@, optional_long(point.id_num)));
        assert(t[2] == ("id_uuid"@, optional_text(point.id_uuid)));
        assert(t[3] == (fields@[3].0@, fields@[3].1.tree()));
        assert(t[4] == ("vectors"@, optional_text(point.vectors)));
        assert(t =~= seq![
            ("id_type"@, id_type.tree()),
            ("id_num"@, optional_long(point.id_num)),
            ("id_uuid"@, optional_text(point.id_uuid)),
            ("payload"@, AvroTree::Text(payload@)),
            ("vectors"@, optional_text(point.vectors)),
        ]);
    }
    AvroValue::Record(fields)
}

/// Whether a record is the one in which a point is stored.
pub open spec fn is_record_of(record: AvroTree, p: RetrievedTree) -> bool {
    p.id matches Some(id) && stores(
        record,
        stored_fields(id, json_text(stored_payload(p)), vectors_text(p)),
    )
}

/// Whether a point is refused, and for this reason: it has no id, or one that holds nothing.
pub open spec fn is_refused(point: RetrievedPoint, e: StoreError) -> bool {
    match e {
        StoreError::NoId => point.id is None,
        StoreError::NoIdOptions => point.id matches Some(id) && id.point_id_options is None,
        _ => false,
    }
}

/// Whether the texts in which the payload and the vectors of a point are stored are read back as
/// what they were written from, each number as from its own text.
pub open spec fn reads_back(p: RetrievedTree) -> bool {
    &&& reads_as(json_text(stored_payload(p)), reread(stored_payload(p)))
    &&& p.vectors matches Some(v) ==> reads_as(
        json_text(vectors_json(v)),
        reread(vectors_json(v)),
    )
}

/// Whether serde_json reads down to the ground of the payload and the vectors of a point, and
/// reads each double in them as a number.
pub open spec fn is_readable(p: RetrievedTree) -> bool {
    &&& readable(stored_payload(p), MAX_DEPTH as int)
    &&& p.vectors matches Some(v) ==> readable(vectors_json(v), MAX_DEPTH as int)
}

/// The record in which a point is stored; a point without an id is refused. What is kept of a
/// point that is readable comes back from its record.
pub fn point_to_avro_record(point: &RetrievedPoint) -> (r: Result<AvroValue, StoreError>)
    ensures
        match r {
            Ok(record) => {
                &&& is_record_of(record.tree(), point.tree())
                &&& is_readable(point.tree()) ==> reads_back(point.tree()) && comes_back(
                    record.tree(),
                    point.tree(),
                )
            },
            Err(e) => is_refused(*point, e),
        },
        r is Ok <==> point.id is Some && point.id->0.point_id_options is Some,
        r matches Err(StoreError::NoId) <==> point.id is None,
        r matches Err(StoreError::NoIdOptions) <==> point.id is Some
            && point.id->0.point_id_options is None,
{
    let id = match &point.id {
        Some(pid) => match &pid.point_id_options {
            Some(options) => options,
            None => {
                return Err(StoreError::NoIdOptions);
            },
        },
        None => {
            return Err(StoreError::NoId);
        },
    };
    let payload_members = payload_to_json(&point.payload);
    proof {
        lemma_object_tree(payload_members);
    }
    let payload_str = match json_to_string(&Json::Object(payload_members)) {
        Ok(s) => s,
        Err(e) => {
            return Err(StoreError::Json(e));
        },
    };
    let vectors_str = match &point.vectors {
        Some(v) => match json_to_string(&vectors_output_to_json(v)) {
            Ok(s) => Some(s),
            Err(e) => {
                return Err(StoreError::Json(e));
            },
        },
        None => None,
    };
    let record = avro_record(id, payload_str, vectors_str);
    proof {
        if is_readable(point.tree()) {
            assert forall|stored: AvroPointTree| #[trigger]
                stores(record.tree(), stored) implies restored_point(stored) == kept_point(
                point.tree(),
            ) by {
                law_point_restored(point.tree(), record.tree(), stored);
            }
        }
    }
    Ok(record)
}

/// The records in which the points of a page are stored: of all of them, or, where one is
/// refused, of those before it, and why it is.
pub fn page_to_avro_records(points: &Vec<RetrievedPoint>) -> (r: (
    Vec<AvroValue>,
    Option<StoreError>,
))
    ensures
        r.0@.len() <= points@.len(),
        forall|i: int|
            0 <= i < r.0@.len() ==> is_record_of((#[trigger] r.0@[i]).tree(), points@[i].tree()),
        forall|i: int|
            0 <= i < r.0@.len() ==> (is_readable(points@[i].tree()) ==> reads_back(
                points@[i].tree(),
            ) && comes_back((#[trigger] r.0@[i]).tree(), points@[i].tree())),
        match r.1 {
            None => r.0@.len() == points@.len(),
            Some(e) => r.0@.len() < points@.len() && is_refused(points@[r.0@.len() as int], e),
        },
        r.1 is None <==> forall|i: int|
            0 <= i < points@.len() ==> (#[trigger] points@[i]).id is Some
                && points@[i].id->0.point_id_options is Some,
        r.1 matches Some(e) ==> (match e {
            StoreError::NoId => points@[r.0@.len() as int].id is None,
            StoreError::NoIdOptions => points@[r.0@.len() as int].id is Some
                && points@[r.0@.len() as int].id->0.point_id_options is None,
            _ => false,
        }),
{
    let mut records: Vec<AvroValue> = Vec::new();
    let mut i: usize = 0;
    while i < points.len()
        invariant
            i <= points@.len(),
            records@.len() == i,
            forall|k: int|
                0 <= k < i ==> is_record_of((#[trigger] records@[k]).tree(), points@[k].tree()),
            forall|k: int|
                0 <= k < i ==> (#[trigger] points@[k]).id is Some
                    && points@[k].id->0.point_id_options is Some,
            forall|k: int|
                0 <= k < i ==> (is_readable(points@[k].tree()) ==> reads_back(points@[k].tree())
                    && comes_back((#[trigger] records@[k]).tree(), points@[k].tree())),
        decreases points@.len() - i,
    {
        match point_to_avro_record(&points[i]) {
            Ok(record) => {
                records.push(record);
            },
            Err(e) => {
                return (records, Some(e));
            },
        }
        i += 1;
    }
    (records, None)
}

/// A number that may be missing, `Null` where it is.
pub open spec fn count_json(n: Option<u64>) -> Tree {
    match n {
        Some(n) => Tree::Number(Numeral::Unsigned(n)),
        None => Tree::Null,
    }
}

/// What is noted of the parameters of a vector; a parameter that is not set is left out.
pub open spec fn params_json(vp: VectorParams) -> Map<Seq<char>, Tree> {
    let m = Map::empty().insert("size"@, Tree::Number(Numeral::Unsigned(vp.size))).insert(
        "distance"@,
        Tree::Number(Numeral::of_signed(vp.distance as i64)),
    );
    let m = match vp.on_disk {
        Some(on_disk) => m.insert("on_disk"@, Tree::Bool(on_disk)),
        None => m,
    };
    let m = match vp.datatype {
        Some(dt) => m.insert("datatype"@, Tree::Number(Numeral::of_signed(dt as i64))),
        None => m,
    };
    match vp.multivector_config {
        Some(mvc) => m.insert(
            "multivector_comparator"@,
            Tree::Number(Numeral::of_signed(mvc.comparator as i64)),
        ),
        None => m,
    }
}

/// What is noted of the parameters of named vectors.
pub open spec fn params_map_json(m: Map<Seq<char>, VectorParams>) -> Map<Seq<char>, Tree> {
    Map::new(|k: Seq<char>| m.contains_key(k), |k: Seq<char>| Tree::Object(params_json(m[k])))
}

/// What is noted of how vectors are configured, `Null` where it is not known.
pub open spec fn config_json(config: Option<ConfigTree>) -> Tree {
    match config {
        Some(ConfigTree::Params(vp)) => Tree::Object(
            Map::empty().insert("type"@, Tree::Text("single"@)).insert(
                "params"@,
                Tree::Object(params_json(vp)),
            ),
        ),
        Some(ConfigTree::ParamsMap(m)) => Tree::Object(
            Map::empty().insert("type"@, Tree::Text("named"@)).insert(
                "params"@,
                Tree::Object(params_map_json(m)),
            ),
        ),
        None => Tree::Null,
    }
}

/// The notes on a collection.
pub open spec fn metadata_json(collection: Seq<char>, info: CollectionInfo) -> Tree {
    Tree::Object(
        Map::empty().insert("collection_name"@, Tree::Text(collection)).insert(
            "points_count"@,
            count_json(info.points_count),
        ).insert("indexed_vectors_count"@, count_json(info.indexed_vectors_count)).insert(
            "segments_count"@,
            Tree::Number(Numeral::Unsigned(info.segments_count)),
        ).insert("config_debug"@, Tree::Text(info.config_debug@)).insert(
            "vectors_config"@,
            config_json(info.vectors_config()),
        ),
    )
}

/// A number that may be missing, `Null` where it is.
fn count_to_json(n: Option<u64>) -> (r: Json)
    ensures
        r.tree() == count_json(n),
{
    match n {
        Some(n) => Json::unsigned(n),
        None => Json::Null,
    }
}

/// Puts a value under a name, in place of the value that it had.
fn set_member(members: &mut Dict<Json>, name: &str, value: Json)
    ensures
        map_trees(final(members)@) == map_trees(old(members)@).insert(name@, value.tree()),
{
    proof {
        lemma_map_trees_insert(members@, name@, value);
    }
    members.insert(name.to_owned(), value);
}

/// An object without members.
fn no_members() -> (members: Dict<Json>)
    ensures
        map_trees(members@) == Map::<Seq<char>, Tree>::empty(),
{
    let members: Dict<Json> = Dict::new();
    assert(map_trees(members@) =~= Map::empty());
    members
}

/// What is noted of the parameters of a vector.
pub fn vp_to_json(vp: &VectorParams) -> (r: Json)
    ensures
        r.tree() == Tree::Object(params_json(*vp)),
{
    let mut obj = no_members();
    set_member(&mut obj, "size", Json::unsigned(vp.size));
    set_member(&mut obj, "distance", Json::signed(vp.distance as i64));
    if let Some(on_disk) = vp.on_disk {
        set_member(&mut obj, "on_disk", Json::Bool(on_disk));
    }
    if let Some(dt) = vp.datatype {
        set_member(&mut obj, "datatype", Json::signed(dt as i64));
    }
    if let Some(mvc) = &vp.multivector_config {
        set_member(&mut obj, "multivector_comparator", Json::signed(mvc.comparator as i64));
    }
    proof {
        lemma_object_tree(obj);
    }
    Json::Object(obj)
}

/// What is noted of how the vectors of a collection are configured.
pub fn extract_vectors_config(info: &CollectionInfo) -> (r: Json)
    ensures
        r.tree() == config_json(info.vectors_config()),
{
    let kind = match &info.config {
        Some(config) => match &config.params {
            Some(params) => match &params.vectors_config {
                Some(vectors_config) => &vectors_config.config,
                None => &None,
            },
            None => &None,
        },
        None => &None,
    };
    match kind {
        Some(VectorsConfigKind::Params(vp)) => {
            let mut obj = no_members();
            set_member(&mut obj, "type", Json::text("single"));
            set_member(&mut obj, "params", vp_to_json(vp));
            proof {
                lemma_object_tree(obj);
            }
            Json::Object(obj)
        },
        Some(VectorsConfigKind::ParamsMap(pm)) => {
            let n = pm.len();
            let mut named: Dict<Json> = Dict::new();
            let mut i: usize = 0;
            proof {
                assert(map_trees(named@) =~= params_map_json(pm.prefix(0)));
            }
            while i < n
                invariant
                    i <= n,
                    n == pm.entries().len(),
                    map_trees(named@) == params_map_json(pm.prefix(i as int)),
                decreases n - i,
            {
                let (name, vp) = pm.entry(i);
                let json = vp_to_json(vp);
                proof {
                    assert(!map_trees(named@).contains_key(name@));
                    lemma_map_trees_insert(named@, name@, json);
                }
                named.push(name.clone(), json);
                i += 1;
                proof {
                    assert(map_trees(named@) =~= params_map_json(pm.prefix(i as int)));
                }
            }
            proof {
                lemma_object_tree(named);
            }
            let mut obj = no_members();
            set_member(&mut obj, "type", Json::text("named"));
            set_member(&mut obj, "params", Json::Object(named));
            proof {
                lemma_object_tree(obj);
            }
            Json::Object(obj)
        },
        None => Json::Null,
    }
}

/// The notes on a collection.
pub fn build_metadata(collection: &str, info: &CollectionInfo) -> (r: Json)
    ensures
        r.tree() == metadata_json(collection@, *info),
{
    let mut obj = no_members();
    set_member(&mut obj, "collection_name", Json::text(collection));
    set_member(&mut obj, "points_count", count_to_json(info.points_count));
    set_member(&mut obj, "indexed_vectors_count", count_to_json(info.indexed_vectors_count));
    set_member(&mut obj, "segments_count", Json::unsigned(info.segments_count));
    set_member(&mut obj, "config_debug", Json::Text(info.config_debug.clone()));
    set_member(&mut obj, "vectors_config", extract_vectors_config(info));
    proof {
        lemma_object_tree(obj);
    }
    Json::Object(obj)
}

/// The notes on a collection hold no double and are not nested deeply.
proof fn lemma_metadata_readable(collection: Seq<char>, info: CollectionInfo)
    ensures
        readable(metadata_json(collection, info), MAX_DEPTH as int),
        reread(metadata_json(collection, info)) == metadata_json(collection, info),
{
    reveal_with_fuel(readable, 6);
    reveal_with_fuel(is_exact, 6);
    law_exact_reread(metadata_json(collection, info));
}

/// The text of the notes on a collection. It is read back as the notes that it was written from.
pub fn metadata_text(collection: &str, info: &CollectionInfo) -> (r: Result<String, StoreError>)
    ensures
        r matches Ok(s) && s@ == pretty_text(metadata_json(collection@, *info)) && reads_as(
            s@,
            metadata_json(collection@, *info),
        ),
{
    let metadata = build_metadata(collection, info);
    proof {
        lemma_metadata_readable(collection@, *info);
    }
    match json_to_string_pretty(&metadata) {
        Ok(s) => Ok(s),
        Err(e) => Err(StoreError::Json(e)),
    }
}

/// Where the backup of a collection goes.
#[derive(Debug, PartialEq)]
pub enum Place {
    /// The output directory itself.
    Output,
    /// The directory of this name in the output directory.
    Subdirectory(String),
}

/// The backup of one collection.
#[derive(Debug, PartialEq)]
pub struct BackupJob {
    pub collection: String,
    pub place: Place,
}

impl BackupJob {
    /// Whether the job backs up the collection of this name into the output directory itself.
    pub open spec fn into_output(self, name: Seq<char>) -> bool {
        self.collection@ == name && self.place is Output
    }

    /// Whether the job backs up the collection of this name into the directory of its name.
    pub open spec fn into_subdirectory(self, name: Seq<char>) -> bool {
        &&& self.collection@ == name
        &&& self.place matches Place::Subdirectory(dir)
        &&& dir@ == name
    }
}

/// Which collections are backed up, and where to: the one that is asked for, into the output
/// directory; or, where none is asked for, each of those that there are, in their order, into a
/// directory of its name.
pub fn backup_plan(collection: Option<&str>, listed: &Vec<String>) -> (jobs: Vec<BackupJob>)
    ensures
        match collection {
            Some(name) => jobs@.len() == 1 && jobs@[0].into_output(name@),
            None => jobs@.len() == listed@.len() && forall|i: int|
                0 <= i < listed@.len() ==> (#[trigger] jobs@[i]).into_subdirectory(listed@[i]@),
        },
        match collection {
            Some(name) => jobs@.len() == 1 && jobs@[0].collection@ == name@
                && jobs@[0].place == Place::Output,
            None => jobs@.len() == listed@.len() && forall|i: int|
                0 <= i < listed@.len() ==> {
                    &&& (#[trigger] jobs@[i]).collection@ == listed@[i]@
                    &&& jobs@[i].place matches Place::Subdirectory(dir)
                    &&& dir@ == listed@[i]@
                },
        },
{
    let mut jobs: Vec<BackupJob> = Vec::new();
    match collection {
        Some(name) => {
            jobs.push(BackupJob { collection: name.to_owned(), place: Place::Output });
        },
        None => {
            let mut i: usize = 0;
            while i < listed.len()
                invariant
                    i <= listed@.len(),
                    jobs@.len() == i,
                    forall|k: int|
                        0 <= k < i ==> (#[trigger] jobs@[k]).into_subdirectory(listed@[k]@),
                decreases listed@.len() - i,
            {
                let name = &listed[i];
                jobs.push(
                    BackupJob {
                        collection: name.clone(),
                        place: Place::Subdirectory(name.clone()),
                    },
                );
                i += 1;
            }
        },
    }
    jobs
}

/// A request for points of a collection.
#[derive(Debug, PartialEq)]
pub struct ScrollRequest {
    pub collection: String,
    pub limit: u32,
    pub with_payload: bool,
    pub with_vectors: bool,
    pub offset: Option<PointId>,
}

/// What a page of points says of itself: how many points there are on it, and where the next
/// page starts, where there is one.
pub ghost struct Page {
    pub count: nat,
    pub next: Option<PointId>,
}

/// How far a walk through the points of a collection has come.
pub ghost struct Walk {
    /// The number of points on the pages so far.
    pub total: nat,
    /// Where the next page starts.
    pub offset: Option<PointId>,
    /// Whether the page that came last was the last one.
    pub done: bool,
}

impl Page {
    /// Whether no page follows this one: it names none, or has no points.
    pub open spec fn is_last(self) -> bool {
        self.next is None || self.count == 0
    }
}

impl Walk {
    /// Where each walk starts.
    pub open spec fn start() -> Walk {
        Walk { total: 0, offset: None, done: false }
    }

    /// How far the walk has come with one more page.
    pub open spec fn after(self, page: Page) -> Walk {
        Walk { total: self.total + page.count, offset: page.next, done: page.is_last() }
    }
}

/// A walk through the points of a collection, page by page.
#[derive(Debug, PartialEq)]
pub struct Scroll {
    pub collection: String,
    pub batch_size: u32,
    pub offset: Option<PointId>,
    pub total: u64,
    pub done: bool,
}

impl Scroll {
    /// How far the walk has come.
    pub open spec fn walk(self) -> Walk {
        Walk { total: self.total as nat, offset: self.offset, done: self.done }
    }

    /// The walk before its first page.
    pub fn start(collection: &str, batch_size: u32) -> (s: Scroll)
        ensures
            s.collection@ == collection@,
            s.batch_size == batch_size,
            s.walk() == Walk::start(),
            s.offset is None,
            s.total == 0,
            !s.done,
    {
        Scroll {
            collection: collection.to_owned(),
            batch_size,
            offset: None,
            total: 0,
            done: false,
        }
    }

    /// The request for the next page: as many points as a batch has, with their payloads and
    /// vectors, from where the page before said.
    pub fn request(&self) -> (r: ScrollRequest)
        ensures
            r.collection@ == self.collection@,
            r.limit == self.batch_size,
            r.with_payload,
            r.with_vectors,
            r.offset == self.offset,
    {
        ScrollRequest {
            collection: self.collection.clone(),
            limit: self.batch_size,
            with_payload: true,
            with_vectors: true,
            offset: match &self.offset {
                Some(id) => Some(id.duplicate()),
                None => None,
            },
        }
    }

    /// Takes note of a page: the number of points on it, and where the next page starts.
    pub fn receive(&mut self, count: usize, next: Option<PointId>)
        requires
            old(self).total + count <= u64::MAX,
        ensures
            final(self).walk() == old(self).walk().after(Page { count: count as nat, next }),
            final(self).total == old(self).total + count,
            final(self).offset == next,
            final(self).done <==> next is None || count == 0,
            final(self).collection == old(self).collection,
            final(self).batch_size == old(self).batch_size,
    {
        self.total = self.total + count as u64;
        self.done = next.is_none() || count == 0;
        self.offset = next;
    }
}

/// How far a walk has come with some pages.
pub open spec fn walk_over(pages: Seq<Page>) -> Walk
    decreases pages.len(),
{
    if pages.len() == 0 {
        Walk::start()
    } else {
        walk_over(pages.drop_last()).after(pages.last())
    }
}

/// The number of points on some pages.
pub open spec fn points_on(pages: Seq<Page>) -> nat
    decreases pages.len(),
{
    if pages.len() == 0 {
        0
    } else {
        points_on(pages.drop_last()) + pages.last().count
    }
}

/// A walk counts each point of each of its pages once, goes on where its last page says, and is
/// done exactly when its last page names no next one or has no points.
pub proof fn law_walk(pages: Seq<Page>)
    ensures
        walk_over(pages).total == points_on(pages),
        pages.len() > 0 ==> walk_over(pages).offset == pages.last().next,
        walk_over(pages).done <==> pages.len() > 0 && (pages.last().next is None
            || pages.last().count == 0),
    decreases pages.len(),
{
    if pages.len() > 0 {
        law_walk(pages.drop_last());
    }
}

} // verus!
