//! The generic JSON value tree that the codec reads and writes.

use vstd::prelude::*;

verus! {

/// A JSON number, held exactly as the document gave it.
#[derive(Clone, Copy, Debug, PartialEq, Eq, Structural)]
pub enum Number {
    /// A non-negative integer.
    PosInt(u64),
    /// A negative integer.
    NegInt(i64),
    /// Any other number, as the bit pattern of its IEEE 754 binary64 value.
    Float(u64),
}

/// A parsed JSON value. Objects keep their members in document order.
#[derive(Debug, PartialEq, Eq)]
pub enum Value {
    Null,
    Bool(bool),
    Number(Number),
    String(String),
    Array(Vec<Value>),
    Object(Vec<(String, Value)>),
}

/// The mathematical model of a [`Value`].
pub ghost enum Json {
    Null,
    Bool(bool),
    Number(Number),
    String(Seq<char>),
    Array(Seq<Json>),
    Object(Seq<(Seq<char>, Json)>),
}

/// The models of a run of values.
pub open spec fn jsons(items: Seq<Value>) -> Seq<Json>
    decreases items,
{
    Seq::new(
        items.len(),
        |i: int|
            if 0 <= i < items.len() {
                items[i].model()
            } else {
                Json::Null
            },
    )
}

/// The models of the members of an object.
pub open spec fn named_jsons(members: Seq<(String, Value)>) -> Seq<(Seq<char>, Json)>
    decreases members,
{
    Seq::new(
        members.len(),
        |i: int|
            if 0 <= i < members.len() {
                (members[i].0@, members[i].1.model())
            } else {
                (Seq::empty(), Json::Null)
            },
    )
}

impl Value {
    /// The model of this value.
    pub open spec fn model(&self) -> Json
        decreases self,
    {
        match self {
            Value::Null => Json::Null,
            Value::Bool(b) => Json::Bool(*b),
            Value::Number(n) => Json::Number(*n),
            Value::String(s) => Json::String(s@),
            Value::Array(items) => Json::Array(jsons(items@)),
            Value::Object(members) => Json::Object(named_jsons(members@)),
        }
    }
}

impl View for Value {
    type V = Json;

    open spec fn view(&self) -> Json {
        self.model()
    }
}

/// The character sequences of a run of strings.
pub open spec fn words(names: Seq<String>) -> Seq<Seq<char>> {
    Seq::new(names.len(), |i: int| names[i]@)
}

/// The first place at which `key` stands in `members`, or their number if it
/// stands nowhere.
pub open spec fn position(members: Seq<(Seq<char>, Json)>, key: Seq<char>) -> nat
    decreases members.len(),
{
    if members.len() == 0 {
        0
    } else if members[0].0 == key {
        0
    } else {
        1 + position(members.drop_first(), key)
    }
}

/// The value of the first member named `key`, if there is one.
pub open spec fn lookup(members: Seq<(Seq<char>, Json)>, key: Seq<char>) -> Option<Json> {
    let i = position(members, key);
    if i < members.len() {
        Some(members[i as int].1)
    } else {
        None
    }
}

/// The members of an object; no members for any other value.
pub open spec fn members_of(v: Json) -> Seq<(Seq<char>, Json)> {
    match v {
        Json::Object(members) => members,
        _ => Seq::empty(),
    }
}

/// The six kinds of JSON value.
#[derive(Clone, Copy, Debug, PartialEq, Eq, Structural)]
pub enum Kind {
    Null,
    Bool,
    Number,
    String,
    Array,
    Object,
}

/// The kind of a value.
pub open spec fn kind_of(v: Json) -> Kind {
    match v {
        Json::Null => Kind::Null,
        Json::Bool(_) => Kind::Bool,
        Json::Number(_) => Kind::Number,
        Json::String(_) => Kind::String,
        Json::Array(_) => Kind::Array,
        Json::Object(_) => Kind::Object,
    }
}

/// The integer that a number is, if it is one that fits 64 signed bits.
pub open spec fn int_of(n: Number) -> Option<i64> {
    match n {
        Number::PosInt(u) => if u <= i64::MAX { Some(u as i64) } else { None },
        Number::NegInt(i) => Some(i),
        Number::Float(_) => None,
    }
}

/// The number that stands for an integer.
pub open spec fn number_of(i: i64) -> Number {
    if i >= 0 {
        Number::PosInt(i as u64)
    } else {
        Number::NegInt(i)
    }
}

} // verus!
