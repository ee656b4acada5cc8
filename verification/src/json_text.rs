//! JSON text: writing a value and reading one back, which serde_json does.
use crate::dict::{entries_map, lemma_entry, names_distinct, Dict};
use crate::json::{
    lemma_array_tree, lemma_map_trees_insert, lemma_object_tree, list_trees, map_trees, numeral,
    Json, Numeral, Tree,
};
use vstd::prelude::*;

verus! {

/// A value of serde_json. Only `value_tree` says what it holds.
#[verifier::external_type_specification]
#[verifier::external_body]
pub struct ExValue(serde_json::Value);

/// Why serde_json could not read or write a text.
#[verifier::external_type_specification]
#[verifier::external_body]
pub struct ExJsonError(serde_json::Error);

/// What a value of serde_json holds.
pub uninterp spec fn value_tree(v: serde_json::Value) -> Tree;

/// What a list of values of serde_json holds.
pub open spec fn value_trees(items: Seq<serde_json::Value>) -> Seq<Tree> {
    Seq::new(items.len(), |i: int| value_tree(items[i]))
}

/// What the values of serde_json in a map hold.
pub open spec fn value_map(members: Map<Seq<char>, serde_json::Value>) -> Map<Seq<char>, Tree> {
    Map::new(|k: Seq<char>| members.contains_key(k), |k: Seq<char>| value_tree(members[k]))
}

/// What the values of serde_json that a map refers to hold.
pub open spec fn value_ref_map(members: Map<Seq<char>, &serde_json::Value>) -> Map<
    Seq<char>,
    Tree,
> {
    Map::new(|k: Seq<char>| members.contains_key(k), |k: Seq<char>| value_tree(*members[k]))
}

/// The outermost layer of a value of serde_json that is being made.
pub enum Layer {
    Null,
    Bool(bool),
    Number(serde_json::Number),
    Text(String),
    Array(Vec<serde_json::Value>),
    Object(Vec<(String, serde_json::Value)>),
}

impl Layer {
    /// The value that the layer makes.
    pub open spec fn tree(self) -> Tree {
        match self {
            Layer::Null => Tree::Null,
            Layer::Bool(b) => Tree::Bool(b),
            Layer::Number(n) => Tree::Number(numeral(n)),
            Layer::Text(s) => Tree::Text(s@),
            Layer::Array(v) => Tree::Array(value_trees(v@)),
            Layer::Object(v) => Tree::Object(value_map(entries_map(v@))),
        }
    }
}

/// The outermost layer of a value of serde_json that is being looked at.
pub enum LayerRef<'a> {
    Null,
    Bool(bool),
    Number(&'a serde_json::Number),
    Text(&'a String),
    Array(&'a Vec<serde_json::Value>),
    Object(Vec<(String, &'a serde_json::Value)>),
}

impl<'a> LayerRef<'a> {
    /// The value that has this layer.
    pub open spec fn tree(self) -> Tree {
        match self {
            LayerRef::Null => Tree::Null,
            LayerRef::Bool(b) => Tree::Bool(b),
            LayerRef::Number(n) => Tree::Number(numeral(*n)),
            LayerRef::Text(s) => Tree::Text(s@),
            LayerRef::Array(v) => Tree::Array(value_trees(v@)),
            LayerRef::Object(v) => Tree::Object(value_ref_map(entries_map(v@))),
        }
    }
}

/// The variants of `serde_json::Value`: each makes the value that its fields say. The members of
/// an object are collected into a `serde_json::Map`.
#[verifier::external_body]
fn close_layer(layer: Layer) -> (v: serde_json::Value)
    requires
        layer matches Layer::Object(members) ==> names_distinct(members@),
    ensures
        value_tree(v) == layer.tree(),
{
    match layer {
        Layer::Null => serde_json::Value::Null,
        Layer::Bool(b) => serde_json::Value::Bool(b),
        Layer::Number(n) => serde_json::Value::Number(n),
        Layer::Text(s) => serde_json::Value::String(s),
        Layer::Array(v) => serde_json::Value::Array(v),
        Layer::Object(v) => serde_json::Value::Object(v.into_iter().collect()),
    }
}

/// The variants of `serde_json::Value`: a value holds what the fields of its variant say. A
/// `serde_json::Map` holds each name once.
#[verifier::external_body]
fn open_value<'a>(v: &'a serde_json::Value) -> (layer: LayerRef<'a>)
    ensures
        layer.tree() == value_tree(*v),
        layer matches LayerRef::Object(members) ==> names_distinct(members@),
{
    match v {
        serde_json::Value::Null => LayerRef::Null,
        serde_json::Value::Bool(b) => LayerRef::Bool(*b),
        serde_json::Value::Number(n) => LayerRef::Number(n),
        serde_json::Value::String(s) => LayerRef::Text(s),
        serde_json::Value::Array(v) => LayerRef::Array(v),
        serde_json::Value::Object(m) => LayerRef::Object(
            m.iter().map(|(k, v)| (k.clone(), v)).collect(),
        ),
    }
}

/// The compact text of a value: what `serde_json::to_string` writes.
pub uninterp spec fn json_text(t: Tree) -> Seq<char>;

/// The indented text of a value: what `serde_json::to_string_pretty` writes.
pub uninterp spec fn pretty_text(t: Tree) -> Seq<char>;

/// The value that a text is read as, or why it is read as none: what `serde_json::from_str` gives.
pub uninterp spec fn read_text(text: Seq<char>) -> Result<Tree, serde_json::Error>;

/// Whether a text is read as this value.
pub open spec fn reads_as(text: Seq<char>, t: Tree) -> bool {
    read_text(text) == Ok::<Tree, serde_json::Error>(t)
}

/// Whether a text is read as no value, and for this reason.
pub open spec fn is_refused_with(text: Seq<char>, e: serde_json::Error) -> bool {
    read_text(text) == Err::<Tree, serde_json::Error>(e)
}

/// Why a text is not read as an object: what `serde_json::from_str`, asked for a `Map`, gives of a
/// text that it refuses.
pub uninterp spec fn object_error(text: Seq<char>) -> serde_json::Error;

/// The depth of nested arrays and objects down to which serde_json reads a text.
pub const MAX_DEPTH: u8 = 127;

/// What a number is read as from its own text. An integer is read as it is.
pub open spec fn read_number(n: Numeral) -> Numeral {
    match n {
        Numeral::Double(_) => match read_text(json_text(Tree::Number(n))) {
            Ok(Tree::Number(m)) => m,
            _ => n,
        },
        _ => n,
    }
}

/// Whether a number is read from its own text as it is.
pub open spec fn reads_exactly(n: Numeral) -> bool {
    n is Double ==> reads_as(json_text(Tree::Number(n)), Tree::Number(n))
}

/// A value with each of its numbers as it is read from its own text.
pub open spec fn reread(t: Tree) -> Tree
    decreases t,
{
    match t {
        Tree::Number(n) => Tree::Number(read_number(n)),
        Tree::Array(s) => Tree::Array(
            Seq::new(
                s.len(),
                |i: int|
                    if 0 <= i < s.len() {
                        reread(s[i])
                    } else {
                        Tree::Null
                    },
            ),
        ),
        Tree::Object(m) => Tree::Object(
            Map::new(
                |k: Seq<char>| m.contains_key(k),
                |k: Seq<char>|
                    if m.contains_key(k) {
                        reread(m[k])
                    } else {
                        Tree::Null
                    },
            ),
        ),
        _ => t,
    }
}

/// Whether a value is nested no deeper than `depth`, and each of its doubles is read from its own
/// text as a number.
pub open spec fn readable(t: Tree, depth: int) -> bool
    decreases depth,
{
    match t {
        Tree::Number(Numeral::Double(_)) => read_text(json_text(t)) matches Ok(Tree::Number(_)),
        Tree::Array(s) => depth > 0 && forall|i: int|
            0 <= i < s.len() ==> readable(#[trigger] s[i], depth - 1),
        Tree::Object(m) => depth > 0 && forall|k: Seq<char>|
            m.contains_key(k) ==> readable(#[trigger] m[k], depth - 1),
        _ => true,
    }
}

/// Whether each of the numbers in a value is read from its own text as it is.
pub open spec fn is_exact(t: Tree) -> bool
    decreases t,
{
    match t {
        Tree::Number(n) => read_number(n) == n,
        Tree::Array(s) => forall|i: int| 0 <= i < s.len() ==> is_exact(#[trigger] s[i]),
        Tree::Object(m) => forall|k: Seq<char>| m.contains_key(k) ==> is_exact(#[trigger] m[k]),
        _ => true,
    }
}

/// A value in which each number is read as it is, is read as it is.
pub proof fn law_exact_reread(t: Tree)
    requires
        is_exact(t),
    ensures
        reread(t) == t,
    decreases t,
{
    match t {
        Tree::Array(s) => {
            let r = reread(t)->Array_0;
            assert forall|i: int| 0 <= i < s.len() implies #[trigger] r[i] == s[i] by {
                assert(r[i] == reread(s[i]));
                law_exact_reread(s[i]);
            }
            assert(r =~= s);
        },
        Tree::Object(m) => {
            let r = reread(t)->Object_0;
            assert forall|k: Seq<char>| m.contains_key(k) implies #[trigger] r[k] == m[k] by {
                assert(r[k] == reread(m[k]));
                assert(decreases_to!(t => m[k]));
                law_exact_reread(m[k]);
            }
            assert(r =~= m);
        },
        _ => {},
    }
}

/// `serde_json::to_string` writes any `Value`, and the text depends on what the value holds
/// alone. Where the value is `readable`, `serde_json::from_str` reads it back from the text, each
/// number as from its own text.
#[verifier::external_body]
fn write_value(v: &serde_json::Value) -> (r: Result<String, serde_json::Error>)
    ensures
        match r {
            Ok(s) => {
                &&& s@ == json_text(value_tree(*v))
                &&& readable(value_tree(*v), MAX_DEPTH as int) ==> reads_as(
                    s@,
                    reread(value_tree(*v)),
                )
            },
            Err(_) => false,
        },
{
    serde_json::to_string(v)
}

/// `serde_json::to_string_pretty` writes any `Value`, and the text depends on what the value
/// holds alone. Where the value is `readable`, `serde_json::from_str` reads it back from the text,
/// each number as from its own text.
#[verifier::external_body]
fn write_value_pretty(v: &serde_json::Value) -> (r: Result<String, serde_json::Error>)
    ensures
        match r {
            Ok(s) => {
                &&& s@ == pretty_text(value_tree(*v))
                &&& readable(value_tree(*v), MAX_DEPTH as int) ==> reads_as(
                    s@,
                    reread(value_tree(*v)),
                )
            },
            Err(_) => false,
        },
{
    serde_json::to_string_pretty(v)
}

/// `serde_json::from_str` reads a text as a `Value` or refuses it, and which of the two, and the
/// value or the reason, depend on the text alone.
#[verifier::external_body]
fn read_value(text: &str) -> (r: Result<serde_json::Value, serde_json::Error>)
    ensures
        match r {
            Ok(v) => read_text(text@) == Ok::<Tree, serde_json::Error>(value_tree(v)),
            Err(e) => read_text(text@) == Err::<Tree, serde_json::Error>(e),
        },
{
    serde_json::from_str(text)
}

/// `serde_json::from_str`, asked for a `Map`, reads the texts that it reads as objects when asked
/// for a `Value`, in the same way, and refuses every other text, for a reason that depends on the
/// text alone.
#[verifier::external_body]
fn read_object(text: &str) -> (r: Result<serde_json::Value, serde_json::Error>)
    ensures
        match r {
            Ok(v) => reads_as(text@, value_tree(v)) && value_tree(v) is Object,
            Err(e) => !(read_text(text@) matches Ok(Tree::Object(_))) && e == object_error(text@),
        },
{
    serde_json::from_str(text).map(serde_json::Value::Object)
}

/// The value of serde_json that holds what `j` holds.
fn to_value(j: &Json) -> (v: serde_json::Value)
    ensures
        value_tree(v) == j.tree(),
    decreases *j,
{
    match j {
        Json::Null => close_layer(Layer::Null),
        Json::Bool(b) => close_layer(Layer::Bool(*b)),
        Json::Number(n) => close_layer(Layer::Number(n.clone())),
        Json::Text(s) => close_layer(Layer::Text(s.clone())),
        Json::Array(items) => {
            let mut values: Vec<serde_json::Value> = Vec::new();
            let mut i: usize = 0;
            while i < items.len()
                invariant
                    i <= items@.len(),
                    decreases_to!(*j => *items),
                    values@.len() == i,
                    forall|k: int|
                        0 <= k < i ==> value_tree(#[trigger] values@[k]) == items@[k].tree(),
                decreases items@.len() - i,
            {
                assert(decreases_to!(*items => items@));
                assert(decreases_to!(items@ => items@[i as int]));
                values.push(to_value(&items[i]));
                i += 1;
            }
            proof {
                lemma_array_tree(*items);
                assert(value_trees(values@) =~= list_trees(items@));
            }
            close_layer(Layer::Array(values))
        },
        Json::Object(members) => {
            let n = members.len();
            let mut values: Vec<(String, serde_json::Value)> = Vec::new();
            let mut i: usize = 0;
            while i < n
                invariant
                    i <= n,
                    n == members.entries().len(),
                    decreases_to!(*j => *members),
                    values@.len() == i,
                    forall|k: int|
                        0 <= k < i ==> (#[trigger] values@[k]).0@ == members.entries()[k].0@,
                    forall|k: int|
                        0 <= k < i ==> members.prefix(i as int).contains_key(
                            (#[trigger] values@[k]).0@,
                        ),
                    names_distinct(values@),
                    value_map(entries_map(values@)) =~= map_trees(members.prefix(i as int)),
                decreases n - i,
            {
                let (name, item) = members.entry(i);
                let value = to_value(item);
                let ghost before = values@;
                values.push((name.clone(), value));
                proof {
                    assert(values@.drop_last() =~= before);
                    lemma_map_trees_insert(members.prefix(i as int), name@, *item);
                }
                i += 1;
            }
            proof {
                lemma_object_tree(*members);
            }
            close_layer(Layer::Object(values))
        },
    }
}

/// The library's value of what a value of serde_json holds.
fn from_value(v: &serde_json::Value) -> (j: Json)
    ensures
        j.tree() == value_tree(*v),
    decreases value_tree(*v),
{
    match open_value(v) {
        LayerRef::Null => Json::Null,
        LayerRef::Bool(b) => Json::Bool(b),
        LayerRef::Number(n) => Json::Number(n.clone()),
        LayerRef::Text(s) => Json::Text(s.clone()),
        LayerRef::Array(values) => {
            let mut items: Vec<Json> = Vec::new();
            let mut i: usize = 0;
            while i < values.len()
                invariant
                    i <= values@.len(),
                    value_tree(*v) == Tree::Array(value_trees(values@)),
                    items@.len() == i,
                    forall|k: int|
                        0 <= k < i ==> (#[trigger] items@[k]).tree() == value_tree(values@[k]),
                decreases values@.len() - i,
            {
                assert(value_trees(values@)[i as int] == value_tree(values@[i as int]));
                assert(decreases_to!(value_tree(*v) => value_tree(*v)->Array_0[i as int]));
                items.push(from_value(&values[i]));
                i += 1;
            }
            proof {
                lemma_array_tree(items);
                assert(list_trees(items@) =~= value_trees(values@));
            }
            Json::Array(items)
        },
        LayerRef::Object(values) => {
            let mut members: Dict<Json> = Dict::new();
            let mut i: usize = 0;
            let ghost all = values@;
            proof {
                assert(all.take(0) =~= Seq::empty());
                assert(map_trees(members@) =~= value_ref_map(entries_map(all.take(0))));
            }
            while i < values.len()
                invariant
                    i <= values@.len(),
                    values@ == all,
                    value_tree(*v) == Tree::Object(value_ref_map(entries_map(all))),
                    names_distinct(all),
                    map_trees(members@) == value_ref_map(entries_map(all.take(i as int))),
                decreases values@.len() - i,
            {
                proof {
                    lemma_entry(all, i as int);
                    let name = all[i as int].0@;
                    assert(value_tree(*v)->Object_0.contains_key(name));
                    assert(decreases_to!(value_tree(*v) => value_tree(*v)->Object_0[name]));
                    assert(!map_trees(members@).contains_key(name));
                }
                let item = from_value(values[i].1);
                let ghost before = members@;
                members.push(values[i].0.clone(), item);
                proof {
                    lemma_map_trees_insert(before, all[i as int].0@, item);
                    assert(map_trees(members@) =~= value_ref_map(entries_map(all.take(i + 1))));
                }
                i += 1;
            }
            proof {
                assert(all.take(i as int) =~= all);
                lemma_object_tree(members);
            }
            Json::Object(members)
        },
    }
}

/// Writes a value as compact JSON text.
pub fn json_to_string(j: &Json) -> (r: Result<String, serde_json::Error>)
    ensures
        r matches Ok(s) && s@ == json_text(j.tree()),
        readable(j.tree(), MAX_DEPTH as int) ==> reads_as(json_text(j.tree()), reread(j.tree())),
{
    write_value(&to_value(j))
}

/// Writes a value as indented JSON text.
pub fn json_to_string_pretty(j: &Json) -> (r: Result<String, serde_json::Error>)
    ensures
        r matches Ok(s) && s@ == pretty_text(j.tree()),
        readable(j.tree(), MAX_DEPTH as int) ==> reads_as(
            pretty_text(j.tree()),
            reread(j.tree()),
        ),
{
    write_value_pretty(&to_value(j))
}

/// Reads a value from JSON text.
pub fn parse_json(text: &str) -> (r: Result<Json, serde_json::Error>)
    ensures
        match r {
            Ok(j) => reads_as(text@, j.tree()),
            Err(e) => is_refused_with(text@, e),
        },
{
    match read_value(text) {
        Ok(v) => Ok(from_value(&v)),
        Err(e) => Err(e),
    }
}

/// Reads an object from JSON text.
pub fn parse_json_object(text: &str) -> (r: Result<Dict<Json>, serde_json::Error>)
    ensures
        match r {
            Ok(members) => reads_as(text@, Tree::Object(map_trees(members@))),
            Err(e) => !(read_text(text@) matches Ok(Tree::Object(_))) && e == object_error(text@),
        },
{
    match read_object(text) {
        Ok(v) => match from_value(&v) {
            Json::Object(members) => {
                proof {
                    lemma_object_tree(members);
                }
                Ok(members)
            },
            _ => {
                assert(false);
                Ok(Dict::new())
            },
        },
        Err(e) => Err(e),
    }
}

} // verus!
