//! The Avro records in which points are stored, and their schema.
use vstd::prelude::*;

verus! {

/// The Avro schema of a stored point, as JSON.
///
/// Points are stored with:
///   - id_type: "num" | "uuid"
///   - id_num / id_uuid: the actual ID value
///   - payload: JSON string of the full payload map
///   - vectors: JSON string of the vectors (null if not fetched)
pub const POINT_SCHEMA: &'static str = r#"
{
  "type": "record",
  "name": "QdrantPoint",
  "fields": [
    {"name": "id_type",  "type": {"type": "enum", "name": "IdType", "symbols": ["num", "uuid"]}},
    {"name": "id_num",   "type": ["null", "long"],   "default": null},
    {"name": "id_uuid",  "type": ["null", "string"], "default": null},
    {"name": "payload",  "type": "string"},
    {"name": "vectors",  "type": ["null", "string"], "default": null}
  ]
}
"#;

/// A schema of apache_avro, which the library only hands on.
#[verifier::external_type_specification]
#[verifier::external_body]
pub struct ExSchema(apache_avro::Schema);

/// Why apache_avro refused a schema.
#[verifier::external_type_specification]
#[verifier::external_body]
pub struct ExAvroError(apache_avro::Error);

/// The schema that a text describes, or why it describes none: what
/// `apache_avro::Schema::parse_str` gives.
pub uninterp spec fn schema_of(text: Seq<char>) -> Result<
    apache_avro::Schema,
    apache_avro::Error,
>;

/// `apache_avro::Schema::parse_str` gives a schema or refuses the text, and which of the two, and
/// the schema or the reason, depend on the text alone. Names in the text are checked by the
/// validators that apache_avro starts with, which the library leaves in place. On a text with a
/// name that they refuse it panics, so it is called on `POINT_SCHEMA` alone.
#[verifier::external_body]
fn parse_schema(text: &str) -> (r: Result<apache_avro::Schema, apache_avro::Error>)
    requires
        text@ == POINT_SCHEMA@,
    ensures
        match r {
            Ok(schema) => schema_of(text@) == Ok::<_, apache_avro::Error>(schema),
            Err(e) => schema_of(text@) == Err::<apache_avro::Schema, _>(e),
        },
{
    apache_avro::Schema::parse_str(text)
}

/// The schema with which points are written and read.
pub fn point_schema() -> (r: Result<apache_avro::Schema, apache_avro::Error>)
    ensures
        match r {
            Ok(schema) => schema_of(POINT_SCHEMA@) == Ok::<_, apache_avro::Error>(schema),
            Err(e) => schema_of(POINT_SCHEMA@) == Err::<apache_avro::Schema, _>(e),
        },
{
    parse_schema(POINT_SCHEMA)
}

/// An Avro value of the kinds that a stored point is made of.
#[derive(Debug, PartialEq)]
pub enum AvroValue {
    Null,
    Long(i64),
    Text(String),
    /// The position of a symbol and the symbol.
    Enum(u32, String),
    /// The position of a branch and the value in it.
    Union(u32, Box<AvroValue>),
    Record(Vec<(String, AvroValue)>),
}

/// What an `AvroValue` stands for.
#[verifier::ext_equal]
pub enum AvroTree {
    Null,
    Long(i64),
    Text(Seq<char>),
    Enum(u32, Seq<char>),
    Union(u32, Box<AvroTree>),
    Record(Seq<(Seq<char>, AvroTree)>),
}

impl AvroValue {
    /// The Avro value that this value stands for.
    pub open spec fn tree(self) -> AvroTree
        decreases self,
    {
        match self {
            AvroValue::Null => AvroTree::Null,
            AvroValue::Long(n) => AvroTree::Long(n),
            AvroValue::Text(s) => AvroTree::Text(s@),
            AvroValue::Enum(i, s) => AvroTree::Enum(i, s@),
            AvroValue::Union(i, v) => AvroTree::Union(i, Box::new(v.tree())),
            AvroValue::Record(fields) => AvroTree::Record(
                Seq::new(
                    fields@.len(),
                    |i: int|
                        if 0 <= i < fields@.len() {
                            (fields@[i].0@, fields@[i].1.tree())
                        } else {
                            (Seq::empty(), AvroTree::Null)
                        },
                ),
            ),
        }
    }
}

/// What a stored point reads as, field by field.
#[verifier::ext_equal]
pub struct AvroPointTree {
    pub id_type: Seq<char>,
    pub id_num: Option<i64>,
    pub id_uuid: Option<Seq<char>>,
    pub payload: Seq<char>,
    pub vectors: Option<Seq<char>>,
}

/// What a string that may be missing holds.
pub open spec fn option_text(s: Option<String>) -> Option<Seq<char>> {
    match s {
        Some(s) => Some(s@),
        None => None,
    }
}

/// A stored point as it is read.
#[derive(Debug, PartialEq)]
pub struct AvroPoint {
    pub id_type: String,
    pub id_num: Option<i64>,
    pub id_uuid: Option<String>,
    pub payload: String,
    pub vectors: Option<String>,
}

impl AvroPoint {
    /// The stored point that this value stands for.
    pub open spec fn tree(self) -> AvroPointTree {
        AvroPointTree {
            id_type: self.id_type@,
            id_num: self.id_num,
            id_uuid: option_text(self.id_uuid),
            payload: self.payload@,
            vectors: option_text(self.vectors),
        }
    }
}

/// A branch of a union that is null or a long.
pub open spec fn optional_long(n: Option<i64>) -> AvroTree {
    match n {
        Some(n) => AvroTree::Union(1, Box::new(AvroTree::Long(n))),
        None => AvroTree::Union(0, Box::new(AvroTree::Null)),
    }
}

/// A branch of a union that is null or a string.
pub open spec fn optional_text(s: Option<Seq<char>>) -> AvroTree {
    match s {
        Some(s) => AvroTree::Union(1, Box::new(AvroTree::Text(s))),
        None => AvroTree::Union(0, Box::new(AvroTree::Null)),
    }
}

/// The position of a type of id among the symbols of the schema.
pub open spec fn symbol_position(id_type: Seq<char>) -> Option<u32> {
    if id_type == "num"@ {
        Some(0)
    } else if id_type == "uuid"@ {
        Some(1)
    } else {
        None
    }
}

/// The two types of id have different names.
pub proof fn lemma_id_types_differ()
    ensures
        "num"@ != "uuid"@,
{
    reveal_strlit("num");
    reveal_strlit("uuid");
    assert("num"@.len() != "uuid"@.len());
}

/// Whether a value is a record of the schema `POINT_SCHEMA` with the given fields: the fields
/// stand in the schema's order, each with its name, the type of the id stands by its position
/// among the symbols, and each optional field in the branch for it.
pub open spec fn stores(record: AvroTree, point: AvroPointTree) -> bool {
    &&& symbol_position(point.id_type) matches Some(position) && record == AvroTree::Record(
        seq![
            ("id_type"@, AvroTree::Enum(position, point.id_type)),
            ("id_num"@, optional_long(point.id_num)),
            ("id_uuid"@, optional_text(point.id_uuid)),
            ("payload"@, AvroTree::Text(point.payload)),
            ("vectors"@, optional_text(point.vectors)),
        ],
    )
}

/// A union of null and a long.
pub fn long_or_null(n: Option<i64>) -> (r: AvroValue)
    ensures
        r.tree() == optional_long(n),
{
    proof {
        reveal_with_fuel(AvroValue::tree, 2);
    }
    match n {
        Some(n) => AvroValue::Union(1, Box::new(AvroValue::Long(n))),
        None => AvroValue::Union(0, Box::new(AvroValue::Null)),
    }
}

/// A union of null and a string.
pub fn text_or_null(s: Option<String>) -> (r: AvroValue)
    ensures
        r.tree() == optional_text(option_text(s)),
{
    proof {
        reveal_with_fuel(AvroValue::tree, 2);
    }
    match s {
        Some(s) => AvroValue::Union(1, Box::new(AvroValue::Text(s))),
        None => AvroValue::Union(0, Box::new(AvroValue::Null)),
    }
}

} // verus!
