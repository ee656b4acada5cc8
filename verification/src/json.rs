//! JSON values as the library holds them, and the trees that contracts speak of.
use crate::dict::{lemma_value_smaller, Dict};
use vstd::prelude::*;

verus! {

/// A number of serde_json. Only `numeral` says what it holds.
#[verifier::external_type_specification]
#[verifier::external_body]
pub struct ExNumber(serde_json::Number);

/// The three ways in which a JSON number is held: an integer that is not negative, a negative
/// integer, or a double, which stands here by its bits.
pub enum Numeral {
    Unsigned(u64),
    Negative(i64),
    Double(u64),
}

impl Numeral {
    /// The number as an unsigned integer, where it is one of 64 bits.
    pub open spec fn unsigned(self) -> Option<u64> {
        match self {
            Numeral::Unsigned(u) => Some(u),
            _ => None,
        }
    }

    /// The number as a signed integer, where it is one of 64 bits.
    pub open spec fn signed(self) -> Option<i64> {
        match self {
            Numeral::Unsigned(u) => if u <= i64::MAX {
                Some(u as i64)
            } else {
                None
            },
            Numeral::Negative(i) => Some(i),
            Numeral::Double(_) => None,
        }
    }

    /// How a signed integer is held.
    pub open spec fn of_signed(i: i64) -> Numeral {
        if i < 0 {
            Numeral::Negative(i)
        } else {
            Numeral::Unsigned(i as u64)
        }
    }
}

/// What a number of serde_json holds.
pub uninterp spec fn numeral(n: serde_json::Number) -> Numeral;

/// `serde_json::Number::as_u64` gives the integer of a number that is held as one and is not
/// negative, and nothing of any other number.
pub assume_specification[ serde_json::Number::as_u64 ](n: &serde_json::Number) -> (r: Option<u64>)
    ensures
        r == numeral(*n).unsigned(),
;

/// `serde_json::Number::as_i64` gives the integer of a number that is held as one and fits, and
/// nothing of any other number.
pub assume_specification[ serde_json::Number::as_i64 ](n: &serde_json::Number) -> (r: Option<i64>)
    ensures
        r == numeral(*n).signed(),
;

/// The clone of a `serde_json::Number` holds what the number holds.
pub assume_specification[ <serde_json::Number as Clone>::clone ](n: &serde_json::Number) -> (r:
    serde_json::Number)
    ensures
        numeral(r) == numeral(*n),
;

/// `serde_json::Number`'s `From<u64>` holds the integer as it is.
#[verifier::external_body]
pub(crate) fn number_of_unsigned(u: u64) -> (n: serde_json::Number)
    ensures
        numeral(n) == Numeral::Unsigned(u),
{
    serde_json::Number::from(u)
}

/// `serde_json::Number`'s `From<i64>` tells negative integers from the others.
#[verifier::external_body]
fn number_of_signed(i: i64) -> (n: serde_json::Number)
    ensures
        numeral(n) == Numeral::of_signed(i),
{
    serde_json::Number::from(i)
}

/// A JSON value: what a `Json` stands for.
#[verifier::ext_equal]
pub enum Tree {
    Null,
    Bool(bool),
    Number(Numeral),
    Text(Seq<char>),
    Array(Seq<Tree>),
    Object(Map<Seq<char>, Tree>),
}

impl Tree {
    /// The member of an object under a name; nothing of any other value.
    pub open spec fn get(self, name: Seq<char>) -> Option<Tree> {
        match self {
            Tree::Object(m) => if m.contains_key(name) {
                Some(m[name])
            } else {
                None
            },
            _ => None,
        }
    }

    /// The member of an object under a name, `Null` where there is none.
    pub open spec fn field(self, name: Seq<char>) -> Tree {
        match self.get(name) {
            Some(t) => t,
            None => Tree::Null,
        }
    }

    /// The truth value of one; nothing of any other value.
    pub open spec fn as_bool(self) -> Option<bool> {
        match self {
            Tree::Bool(b) => Some(b),
            _ => None,
        }
    }

    /// The number of one; nothing of any other value.
    pub open spec fn as_number(self) -> Option<Numeral> {
        match self {
            Tree::Number(n) => Some(n),
            _ => None,
        }
    }

    /// The integer of a number that is one and is not negative; nothing of any other value.
    pub open spec fn as_u64(self) -> Option<u64> {
        match self {
            Tree::Number(n) => n.unsigned(),
            _ => None,
        }
    }

    /// The integer of a number that is one and fits; nothing of any other value.
    pub open spec fn as_i64(self) -> Option<i64> {
        match self {
            Tree::Number(n) => n.signed(),
            _ => None,
        }
    }

    /// The text of a string; nothing of any other value.
    pub open spec fn as_text(self) -> Option<Seq<char>> {
        match self {
            Tree::Text(s) => Some(s),
            _ => None,
        }
    }

    /// The items of an array; nothing of any other value.
    pub open spec fn as_array(self) -> Option<Seq<Tree>> {
        match self {
            Tree::Array(s) => Some(s),
            _ => None,
        }
    }

    /// The members of an object; nothing of any other value.
    pub open spec fn as_object(self) -> Option<Map<Seq<char>, Tree>> {
        match self {
            Tree::Object(m) => Some(m),
            _ => None,
        }
    }
}

/// A JSON value.
#[derive(Debug, PartialEq)]
pub enum Json {
    Null,
    Bool(bool),
    Number(serde_json::Number),
    Text(String),
    Array(Vec<Json>),
    Object(Dict<Json>),
}

/// The trees of a list of values.
pub open spec fn list_trees(items: Seq<Json>) -> Seq<Tree> {
    Seq::new(items.len(), |i: int| items[i].tree())
}

/// The trees of the values of a map.
pub open spec fn map_trees(members: Map<Seq<char>, Json>) -> Map<Seq<char>, Tree> {
    Map::new(|k: Seq<char>| members.contains_key(k), |k: Seq<char>| members[k].tree())
}

/// The tree of a value that may be missing.
pub open spec fn option_tree(value: Option<&Json>) -> Option<Tree> {
    match value {
        Some(j) => Some(j.tree()),
        None => None,
    }
}

impl Json {
    /// The JSON value that this value stands for.
    pub open spec fn tree(self) -> Tree
        decreases self,
        via Self::tree_decreases
    {
        match self {
            Json::Null => Tree::Null,
            Json::Bool(b) => Tree::Bool(b),
            Json::Number(n) => Tree::Number(numeral(n)),
            Json::Text(s) => Tree::Text(s@),
            Json::Array(v) => Tree::Array(
                Seq::new(
                    v@.len(),
                    |i: int|
                        if 0 <= i < v@.len() {
                            v@[i].tree()
                        } else {
                            Tree::Null
                        },
                ),
            ),
            Json::Object(d) => Tree::Object(
                Map::new(
                    |k: Seq<char>| d@.contains_key(k),
                    |k: Seq<char>|
                        if d@.contains_key(k) {
                            d@[k].tree()
                        } else {
                            Tree::Null
                        },
                ),
            ),
        }
    }

    #[via_fn]
    proof fn tree_decreases(self) {
        match self {
            Json::Object(d) => {
                assert forall|k: Seq<char>| d@.contains_key(k) implies decreases_to!(
                    self => #[trigger] d@[k]) by {
                    lemma_value_smaller(d, k);
                    assert(decreases_to!(self => d));
                }
            },
            _ => {},
        }
    }

    /// A number from an unsigned integer.
    pub fn unsigned(u: u64) -> (j: Json)
        ensures
            j.tree() == Tree::Number(Numeral::Unsigned(u)),
    {
        Json::Number(number_of_unsigned(u))
    }

    /// A number from a signed integer.
    pub fn signed(i: i64) -> (j: Json)
        ensures
            j.tree() == Tree::Number(Numeral::of_signed(i)),
    {
        Json::Number(number_of_signed(i))
    }

    /// A string.
    pub fn text(s: &str) -> (j: Json)
        ensures
            j.tree() == Tree::Text(s@),
    {
        Json::Text(s.to_owned())
    }

    /// The member of an object under a name; nothing of any other value.
    pub fn get(&self, name: &str) -> (r: Option<&Json>)
        ensures
            option_tree(r) == self.tree().get(name@),
            r matches Some(j) ==> (*self matches Json::Object(d) && *j == d@[name@]),
    {
        match self {
            Json::Object(d) => d.get(name),
            _ => None,
        }
    }

    /// The truth value of one; nothing of any other value.
    pub fn as_bool(&self) -> (r: Option<bool>)
        ensures
            r == self.tree().as_bool(),
    {
        match self {
            Json::Bool(b) => Some(*b),
            _ => None,
        }
    }

    /// The integer of a number that is one and is not negative; nothing of any other value.
    pub fn as_u64(&self) -> (r: Option<u64>)
        ensures
            r == self.tree().as_u64(),
    {
        match self {
            Json::Number(n) => n.as_u64(),
            _ => None,
        }
    }

    /// The integer of a number that is one and fits; nothing of any other value.
    pub fn as_i64(&self) -> (r: Option<i64>)
        ensures
            r == self.tree().as_i64(),
    {
        match self {
            Json::Number(n) => n.as_i64(),
            _ => None,
        }
    }

    /// The text of a string; nothing of any other value.
    pub fn as_text(&self) -> (r: Option<&String>)
        ensures
            match r {
                Some(s) => self.tree().as_text() == Some(s@),
                None => self.tree().as_text() is None,
            },
    {
        match self {
            Json::Text(s) => Some(s),
            _ => None,
        }
    }

    /// The items of an array; nothing of any other value.
    pub fn as_array(&self) -> (r: Option<&Vec<Json>>)
        ensures
            match r {
                Some(v) => *self == Json::Array(*v) && self.tree().as_array() == Some(
                    list_trees(v@),
                ),
                None => self.tree().as_array() is None,
            },
    {
        match self {
            Json::Array(v) => {
                proof {
                    lemma_array_tree(*v);
                }
                Some(v)
            },
            _ => None,
        }
    }

    /// The members of an object; nothing of any other value.
    pub fn as_object(&self) -> (r: Option<&Dict<Json>>)
        ensures
            match r {
                Some(d) => *self == Json::Object(*d) && self.tree().as_object() == Some(
                    map_trees(d@),
                ),
                None => self.tree().as_object() is None,
            },
    {
        match self {
            Json::Object(d) => {
                proof {
                    lemma_object_tree(*d);
                }
                Some(d)
            },
            _ => None,
        }
    }
}

/// The tree of an array is made of the trees of its items.
pub proof fn lemma_array_tree(v: Vec<Json>)
    ensures
        Json::Array(v).tree() == Tree::Array(list_trees(v@)),
{
    let t = Json::Array(v).tree()->Array_0;
    assert forall|i: int| 0 <= i < v@.len() implies #[trigger] t[i] == list_trees(v@)[i] by {
        assert(t[i] == v@[i].tree());
    }
    assert(t =~= list_trees(v@));
}

/// The tree of an object is made of the trees of its members.
pub proof fn lemma_object_tree(d: Dict<Json>)
    ensures
        Json::Object(d).tree() == Tree::Object(map_trees(d@)),
{
    let t = Json::Object(d).tree()->Object_0;
    assert forall|k: Seq<char>| d@.contains_key(k) implies #[trigger] t[k] == map_trees(d@)[k] by {
        assert(t[k] == d@[k].tree());
    }
    assert(t =~= map_trees(d@));
}

/// One more member of a map is one more tree.
pub proof fn lemma_map_trees_insert(m: Map<Seq<char>, Json>, k: Seq<char>, j: Json)
    ensures
        map_trees(m.insert(k, j)) == map_trees(m).insert(k, j.tree()),
{
    assert(map_trees(m.insert(k, j)) =~= map_trees(m).insert(k, j.tree()));
}

} // verus!
