//! Decoded values in generic form: what a document means under a schema.

use crate::minecraft::text::HexColour;
use crate::value::Number;
use vstd::prelude::*;

verus! {

/// A decoded value: what a document means under a schema node. The codec
/// reads documents into instances and writes instances as documents; the
/// typed records of this crate are views of them.
#[derive(Debug, PartialEq, Eq)]
pub enum Instance {
    /// An optional value that is not there.
    Absent,
    /// An optional value that is there.
    Present(Box<Instance>),
    Bool(bool),
    Int(i64),
    Number(Number),
    Text(String),
    /// One of a fixed list of words, by its place in the list.
    Keyword(usize),
    Colour(HexColour),
    List(Vec<Instance>),
    /// A string-keyed map, in document order.
    Dict(Vec<(String, Instance)>),
    /// The field values of a record, in declaration order.
    Record(Vec<Instance>),
    /// The chosen alternative of a union, by its place, and what it holds.
    Variant(usize, Box<Instance>),
}

/// The model of an [`Instance`].
pub ghost enum Datum {
    Absent,
    Present(Box<Datum>),
    Bool(bool),
    Int(i64),
    Number(Number),
    Text(Seq<char>),
    Keyword(nat),
    Colour(HexColour),
    List(Seq<Datum>),
    Dict(Seq<(Seq<char>, Datum)>),
    Record(Seq<Datum>),
    Variant(nat, Box<Datum>),
}

/// The models of a run of instances.
pub open spec fn data(items: Seq<Instance>) -> Seq<Datum>
    decreases items,
{
    Seq::new(
        items.len(),
        |i: int|
            if 0 <= i < items.len() {
                items[i].model()
            } else {
                Datum::Absent
            },
    )
}

/// The models of a run of named instances.
pub open spec fn named_data(entries: Seq<(String, Instance)>) -> Seq<(Seq<char>, Datum)>
    decreases entries,
{
    Seq::new(
        entries.len(),
        |i: int|
            if 0 <= i < entries.len() {
                (entries[i].0@, entries[i].1.model())
            } else {
                (Seq::empty(), Datum::Absent)
            },
    )
}

impl Instance {
    /// The model of this instance.
    pub open spec fn model(&self) -> Datum
        decreases self,
    {
        match self {
            Instance::Absent => Datum::Absent,
            Instance::Present(x) => Datum::Present(Box::new(x.model())),
            Instance::Bool(b) => Datum::Bool(*b),
            Instance::Int(i) => Datum::Int(*i),
            Instance::Number(n) => Datum::Number(*n),
            Instance::Text(s) => Datum::Text(s@),
            Instance::Keyword(i) => Datum::Keyword(*i as nat),
            Instance::Colour(c) => Datum::Colour(*c),
            Instance::List(items) => Datum::List(data(items@)),
            Instance::Dict(entries) => Datum::Dict(named_data(entries@)),
            Instance::Record(values) => Datum::Record(data(values@)),
            Instance::Variant(i, x) => Datum::Variant(*i as nat, Box::new(x.model())),
        }
    }

    /// A deep copy.
    pub fn duplicate(&self) -> (copy: Instance)
        ensures
            copy@ == self@,
        decreases self,
    {
        match self {
            Instance::Absent => Instance::Absent,
            Instance::Present(x) => Instance::Present(Box::new(x.duplicate())),
            Instance::Bool(b) => Instance::Bool(*b),
            Instance::Int(i) => Instance::Int(*i),
            Instance::Number(n) => Instance::Number(*n),
            Instance::Text(s) => Instance::Text(s.clone()),
            Instance::Keyword(i) => Instance::Keyword(*i),
            Instance::Colour(c) => Instance::Colour(*c),
            Instance::List(items) => Instance::List(duplicate_all(items)),
            Instance::Dict(entries) => Instance::Dict(duplicate_entries(entries)),
            Instance::Record(values) => Instance::Record(duplicate_all(values)),
            Instance::Variant(i, x) => Instance::Variant(*i, Box::new(x.duplicate())),
        }
    }
}

impl Instance {
    /// Whether two instances are the same value.
    pub fn same(&self, other: &Instance) -> (b: bool)
        ensures
            b == (self@ == other@),
        decreases self,
    {
        match (self, other) {
            (Instance::Absent, Instance::Absent) => true,
            (Instance::Present(x), Instance::Present(y)) => x.same(y),
            (Instance::Bool(x), Instance::Bool(y)) => *x == *y,
            (Instance::Int(x), Instance::Int(y)) => *x == *y,
            (Instance::Number(x), Instance::Number(y)) => *x == *y,
            (Instance::Text(x), Instance::Text(y)) => *x == *y,
            (Instance::Keyword(x), Instance::Keyword(y)) => *x == *y,
            (Instance::Colour(x), Instance::Colour(y)) => *x == *y,
            (Instance::List(x), Instance::List(y)) => same_all(x, y),
            (Instance::Dict(x), Instance::Dict(y)) => same_entries(x, y),
            (Instance::Record(x), Instance::Record(y)) => same_all(x, y),
            (Instance::Variant(i, x), Instance::Variant(j, y)) => *i == *j && x.same(y),
            _ => false,
        }
    }
}

/// Whether two runs of instances are the same values.
fn same_all(a: &Vec<Instance>, b: &Vec<Instance>) -> (r: bool)
    ensures
        r == (data(a@) == data(b@)),
    decreases a,
{
    if a.len() != b.len() {
        assert(data(a@).len() != data(b@).len());
        return false;
    }
    let mut k: usize = 0;
    while k < a.len()
        invariant
            k <= a.len(),
            a.len() == b.len(),
            forall|i: int| 0 <= i < k ==> a[i]@ == b[i]@,
        decreases a.len() - k,
    {
        if !a[k].same(&b[k]) {
            assert(data(a@)[k as int] != data(b@)[k as int]);
            return false;
        }
        k += 1;
    }
    assert(data(a@) =~= data(b@));
    true
}

/// Whether two runs of named instances are the same names and values.
fn same_entries(a: &Vec<(String, Instance)>, b: &Vec<(String, Instance)>) -> (r: bool)
    ensures
        r == (named_data(a@) == named_data(b@)),
    decreases a,
{
    if a.len() != b.len() {
        assert(named_data(a@).len() != named_data(b@).len());
        return false;
    }
    let mut k: usize = 0;
    while k < a.len()
        invariant
            k <= a.len(),
            a.len() == b.len(),
            forall|i: int| 0 <= i < k ==> a[i].0@ == b[i].0@ && a[i].1@ == b[i].1@,
        decreases a.len() - k,
    {
        if !(a[k].0 == b[k].0) || !a[k].1.same(&b[k].1) {
            assert(named_data(a@)[k as int] != named_data(b@)[k as int]);
            return false;
        }
        k += 1;
    }
    assert(named_data(a@) =~= named_data(b@));
    true
}

impl View for Instance {
    type V = Datum;

    open spec fn view(&self) -> Datum {
        self.model()
    }
}

/// Deep copies of a run of named instances.
fn duplicate_entries(entries: &Vec<(String, Instance)>) -> (copies: Vec<(String, Instance)>)
    ensures
        named_data(copies@) == named_data(entries@),
    decreases entries,
{
    let mut copies: Vec<(String, Instance)> = Vec::new();
    let mut k: usize = 0;
    while k < entries.len()
        invariant
            k <= entries.len(),
            copies.len() == k,
            forall|i: int| 0 <= i < k ==> copies[i].0@ == entries[i].0@ && copies[i].1@ == entries[i].1@,
        decreases entries.len() - k,
    {
        copies.push((entries[k].0.clone(), entries[k].1.duplicate()));
        k += 1;
    }
    assert(named_data(copies@) =~= named_data(entries@));
    copies
}

/// Deep copies of a run of instances.
fn duplicate_all(items: &Vec<Instance>) -> (copies: Vec<Instance>)
    ensures
        data(copies@) == data(items@),
    decreases items,
{
    let mut copies: Vec<Instance> = Vec::new();
    let mut k: usize = 0;
    while k < items.len()
        invariant
            k <= items.len(),
            copies.len() == k,
            forall|i: int| 0 <= i < k ==> copies[i]@ == items[i]@,
        decreases items.len() - k,
    {
        copies.push(items[k].duplicate());
        k += 1;
    }
    assert(data(copies@) =~= data(items@));
    copies
}

} // verus!
