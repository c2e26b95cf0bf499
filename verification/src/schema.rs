//! Schemas: what shape of document stands for each domain type.

use crate::decode::{decode_node, decode_spec, decoded_as};
use crate::encode::{conforms, encode_node, encode_spec, legal};
use crate::error::{DecodeError, Failure, SchemaDefinitionError};
use crate::instance::{Datum, Instance};
use crate::laws::lemma_round_trip;
use crate::legal::legal_node;
use crate::validate::check_node;
use crate::value::{words, Json, Value};
use vstd::prelude::*;

verus! {

/// When a field is left out of the encoded object.
#[derive(Clone, Copy, Debug, PartialEq, Eq, Structural)]
pub enum Omit {
    /// The field is always written.
    Never,
    /// Left out when the value equals the declared default.
    IfDefault,
    /// Left out when the value is `false`.
    IfFalse,
    /// Left out when the value is `true`.
    IfTrue,
    /// Left out when an optional value is not there.
    IfAbsent,
    /// Left out when a list or a map is empty.
    IfEmpty,
}

/// How a field of a record stands in the record's object.
#[derive(Debug)]
pub enum Rule {
    /// The member must be there; it is always written.
    Required,
    /// A missing member means `default`; `omit` says when it is left out.
    Defaulted { default: Instance, omit: Omit },
    /// The field is a record whose members are merged into this object.
    Flatten,
}

/// One named field of a record.
#[derive(Debug)]
pub struct Field {
    pub name: String,
    pub node: Node,
    pub rule: Rule,
}

/// A schema node: the shape of the documents that stand for one type.
#[derive(Debug)]
pub enum Node {
    Bool,
    /// An integer that fits 64 signed bits.
    Int,
    /// Any number, kept as the document has it.
    Number,
    Text,
    /// One of a fixed list of words.
    Keyword(Vec<String>),
    /// A colour written `#RRGGBB`.
    Colour,
    /// `null`, or a value of the inner node.
    Optional(Box<Node>),
    List(Box<Node>),
    /// An object whose members all have values of the inner node.
    Dict(Box<Node>),
    Record(Vec<Field>),
    /// A union whose branch is named by the string under `tag`. The chosen
    /// branch stands under `content`, or, where there is none, in the same
    /// object as the tag.
    Tagged { tag: String, content: Option<String>, branches: Vec<(String, Node)> },
    /// A union without a discriminator: the first alternative that accepts a
    /// document wins.
    Untagged(Vec<Node>),
    /// The definition at this place of the schema's table.
    Ref(usize),
}

/// The models of a run of nodes.
pub open spec fn shapes(nodes: Seq<Node>) -> Seq<Shape>
    decreases nodes,
{
    Seq::new(
        nodes.len(),
        |i: int|
            if 0 <= i < nodes.len() {
                nodes[i].shape()
            } else {
                Shape::Bool
            },
    )
}

/// The models of the fields of a record.
pub open spec fn field_shapes(fields: Seq<Field>) -> Seq<FieldShape>
    decreases fields,
{
    Seq::new(
        fields.len(),
        |i: int|
            if 0 <= i < fields.len() {
                fields[i].shape()
            } else {
                FieldShape { name: Seq::empty(), shape: Shape::Bool, rule: RuleShape::Required }
            },
    )
}

/// The models of the branches of a tagged union.
pub open spec fn branch_shapes(branches: Seq<(String, Node)>) -> Seq<(Seq<char>, Shape)>
    decreases branches,
{
    Seq::new(
        branches.len(),
        |i: int|
            if 0 <= i < branches.len() {
                (branches[i].0@, branches[i].1.shape())
            } else {
                (Seq::empty(), Shape::Bool)
            },
    )
}

impl Rule {
    /// The model of this rule.
    pub open spec fn shape(&self) -> RuleShape {
        match self {
            Rule::Required => RuleShape::Required,
            Rule::Defaulted { default, omit } => RuleShape::Defaulted { default: default@, omit: *omit },
            Rule::Flatten => RuleShape::Flatten,
        }
    }
}

impl Field {
    /// The model of this field.
    pub open spec fn shape(&self) -> FieldShape
        decreases self,
    {
        FieldShape { name: self.name@, shape: self.node.shape(), rule: self.rule.shape() }
    }
}

impl Node {
    /// The model of this node.
    pub open spec fn shape(&self) -> Shape
        decreases self,
    {
        match self {
            Node::Bool => Shape::Bool,
            Node::Int => Shape::Int,
            Node::Number => Shape::Number,
            Node::Text => Shape::Text,
            Node::Keyword(names) => Shape::Keyword(words(names@)),
            Node::Colour => Shape::Colour,
            Node::Optional(inner) => Shape::Optional(Box::new(inner.shape())),
            Node::List(inner) => Shape::List(Box::new(inner.shape())),
            Node::Dict(inner) => Shape::Dict(Box::new(inner.shape())),
            Node::Record(fields) => Shape::Record(field_shapes(fields@)),
            Node::Tagged { tag, content, branches } => Shape::Tagged {
                tag: tag@,
                content: match content {
                    Some(c) => Some(c@),
                    None => None,
                },
                branches: branch_shapes(branches@),
            },
            Node::Untagged(alts) => Shape::Untagged(shapes(alts@)),
            Node::Ref(j) => Shape::Ref(*j as nat),
        }
    }
}

/// A validated table of definitions with a root: the definition that whole
/// documents stand for. Built once, read-only afterwards.
pub struct Schema {
    defs: Vec<Node>,
    root: usize,
}

impl Schema {
    #[verifier::type_invariant]
    spec fn well_defined(self) -> bool {
        table_ok(shapes(self.defs@)) && self.root < self.defs.len()
    }

    /// The models of the definitions.
    pub closed spec fn table(&self) -> Seq<Shape> {
        shapes(self.defs@)
    }

    /// The place of the root definition.
    pub closed spec fn root(&self) -> nat {
        self.root as nat
    }

    /// Whether `d` is a value of the root definition.
    pub open spec fn accepts(&self, d: Datum) -> bool {
        conforms(self.table(), self.table().len(), Shape::Ref(self.root()), d)
    }

    /// The document that stands for `d`.
    pub open spec fn encoded(&self, d: Datum) -> Json {
        encode_spec(self.table(), self.table().len(), Shape::Ref(self.root()), d)
    }

    /// What the document `v` means, or why it means nothing.
    pub open spec fn decoded(&self, v: Json) -> Result<Datum, Failure> {
        decode_spec(self.table(), self.table().len(), Shape::Ref(self.root()), v)
    }

    /// Checks the definitions and makes a schema of them. The error names
    /// the first definition that is not well defined, or `root` where the
    /// definitions are and `root` is none of them.
    pub fn new(defs: Vec<Node>, root: usize) -> (r: Result<Schema, SchemaDefinitionError>)
        ensures
            r is Ok <==> table_ok(shapes(defs@)) && root < defs.len(),
            r matches Ok(s) ==> s.table() == shapes(defs@) && s.root() == root && table_ok(s.table()),
            r matches Err(e) ==> {
                &&& forall|i: int|
                    0 <= i < e.def && i < defs.len() ==> shape_ok(
                        shapes(defs@),
                        i as nat,
                        #[trigger] shapes(defs@)[i],
                    )
                &&& e.def < defs.len() ==> !shape_ok(shapes(defs@), e.def as nat, shapes(defs@)[e.def as int])
                &&& e.def >= defs.len() ==> e.def == root
            },
    {
        let ghost t = shapes(defs@);
        let mut k: usize = 0;
        while k < defs.len()
            invariant
                k <= defs.len(),
                t == shapes(defs@),
                forall|i: int| 0 <= i < k ==> shape_ok(t, i as nat, #[trigger] t[i]),
            decreases defs.len() - k,
        {
            assert(t[k as int] == defs[k as int].shape());
            if !check_node(&defs, k, &defs[k]) {
                return Err(SchemaDefinitionError { def: k });
            }
            k += 1;
        }
        if root >= defs.len() {
            return Err(SchemaDefinitionError { def: root });
        }
        Ok(Schema { defs, root })
    }

    /// Writes `x` as a document. Nothing comes back iff `x` is no value of
    /// the root definition.
    pub fn encode(&self, x: &Instance) -> (r: Option<Value>)
        ensures
            r is Some <==> self.accepts(x@),
            r matches Some(v) ==> v@ == self.encoded(x@),
    {
        proof {
            use_type_invariant(self);
        }
        assert(shapes(self.defs@)[self.root as int] == self.defs[self.root as int].shape());
        encode_node(&self.defs, self.root, &self.defs[self.root], x)
    }

    /// Whether `d` can be written and read back as itself.
    pub open spec fn round_trips(&self, d: Datum) -> bool {
        legal(self.table(), self.table().len(), Shape::Ref(self.root()), d)
    }

    /// Whether `x` can be written and read back as itself: whether it is a
    /// value of the root definition that hides no field with another value
    /// than its default and that no earlier alternative of a union claims.
    pub fn is_legal(&self, x: &Instance) -> (b: bool)
        ensures
            b == self.round_trips(x@),
            b ==> self.decoded(self.encoded(x@)) == Ok::<Datum, Failure>(x@),
    {
        proof {
            use_type_invariant(self);
        }
        assert(shapes(self.defs@)[self.root as int] == self.defs[self.root as int].shape());
        let b = legal_node(&self.defs, self.root, &self.defs[self.root], x);
        proof {
            if b {
                lemma_round_trip(self.table(), self.table().len(), Shape::Ref(self.root()), x@);
            }
        }
        b
    }

    /// Writes `x` as a document of the definition at `def`.
    pub(crate) fn encode_at(&self, def: usize, x: &Instance) -> (r: Option<Value>)
        requires
            def < self.table().len(),
        ensures
            table_ok(self.table()),
            r is Some <==> conforms(self.table(), self.table().len(), Shape::Ref(def as nat), x@),
            r matches Some(v) ==> v@ == encode_spec(self.table(), self.table().len(), Shape::Ref(def as nat), x@),
    {
        proof {
            use_type_invariant(self);
        }
        assert(shapes(self.defs@)[def as int] == self.defs[def as int].shape());
        encode_node(&self.defs, def, &self.defs[def], x)
    }

    /// Reads the document `v` under the definition at `def`.
    pub(crate) fn decode_at(&self, def: usize, v: &Value) -> (r: Result<Instance, DecodeError>)
        requires
            def < self.table().len(),
        ensures
            table_ok(self.table()),
            decoded_as(r, decode_spec(self.table(), self.table().len(), Shape::Ref(def as nat), v@)),
    {
        proof {
            use_type_invariant(self);
        }
        assert(shapes(self.defs@)[def as int] == self.defs[def as int].shape());
        decode_node(&self.defs, def, &self.defs[def], v)
    }

    /// Reads the document `v`.
    pub fn decode(&self, v: &Value) -> (r: Result<Instance, DecodeError>)
        ensures
            decoded_as(r, self.decoded(v@)),
    {
        proof {
            use_type_invariant(self);
        }
        assert(shapes(self.defs@)[self.root as int] == self.defs[self.root as int].shape());
        decode_node(&self.defs, self.root, &self.defs[self.root], v)
    }
}

/// The model of a [`Rule`].
pub ghost enum RuleShape {
    Required,
    Defaulted { default: Datum, omit: Omit },
    Flatten,
}

/// The model of a [`Field`].
pub ghost struct FieldShape {
    pub name: Seq<char>,
    pub shape: Shape,
    pub rule: RuleShape,
}

/// The model of a [`Node`].
pub ghost enum Shape {
    Bool,
    Int,
    Number,
    Text,
    Keyword(Seq<Seq<char>>),
    Colour,
    Optional(Box<Shape>),
    List(Box<Shape>),
    Dict(Box<Shape>),
    Record(Seq<FieldShape>),
    Tagged { tag: Seq<char>, content: Option<Seq<char>>, branches: Seq<(Seq<char>, Shape)> },
    Untagged(Seq<Shape>),
    Ref(nat),
}

/// Whether the omission rule holds of a field's current value.
pub open spec fn omits(omit: Omit, default: Datum, d: Datum) -> bool {
    match omit {
        Omit::Never => false,
        Omit::IfDefault => d == default,
        Omit::IfFalse => d == Datum::Bool(false),
        Omit::IfTrue => d == Datum::Bool(true),
        Omit::IfAbsent => d == Datum::Absent,
        Omit::IfEmpty => d == Datum::List(Seq::empty()) || d == Datum::Dict(Seq::empty()),
    }
}

/// The first place at which `word` stands in `words`, or their number if it
/// stands nowhere.
pub open spec fn word_index(words: Seq<Seq<char>>, word: Seq<char>) -> nat
    decreases words.len(),
{
    if words.len() == 0 {
        0
    } else if words[0] == word {
        0
    } else {
        1 + word_index(words.drop_first(), word)
    }
}

/// The names of the branches of a tagged union, in declaration order.
pub open spec fn branch_names(branches: Seq<(Seq<char>, Shape)>) -> Seq<Seq<char>> {
    Seq::new(branches.len(), |i: int| branches[i].0)
}

/// The parts themselves, where each is there.
pub open spec fn unwrap_all(parts: Seq<Option<Seq<Seq<char>>>>) -> Seq<Seq<Seq<char>>> {
    Seq::new(parts.len(), |i: int| parts[i].unwrap())
}

/// All the names in `parts`, in order; nothing if a part is missing.
pub open spec fn gather(parts: Seq<Option<Seq<Seq<char>>>>) -> Option<Seq<Seq<char>>> {
    if forall|i: int| 0 <= i < parts.len() ==> (#[trigger] parts[i]) is Some {
        Some(unwrap_all(parts).flatten())
    } else {
        None
    }
}

/// The member names that one field of a record stands for in the object of
/// the record: its own name, or those of the record that it flattens.
pub open spec fn field_keys(table: Seq<Shape>, level: nat, field: FieldShape) -> Option<Seq<Seq<char>>>
    decreases level, field,
{
    match field.rule {
        RuleShape::Flatten => keys(table, level, field.shape),
        _ => Some(seq![field.name]),
    }
}

/// The names of each field of a record, field by field.
pub open spec fn field_key_parts(table: Seq<Shape>, level: nat, fields: Seq<FieldShape>) -> Seq<
    Option<Seq<Seq<char>>>,
>
    decreases level, fields,
{
    Seq::new(
        fields.len(),
        |i: int|
            if 0 <= i < fields.len() {
                field_keys(table, level, fields[i])
            } else {
                None
            },
    )
}

/// The names of each branch of a tagged union, branch by branch.
pub open spec fn branch_key_parts(table: Seq<Shape>, level: nat, branches: Seq<(Seq<char>, Shape)>) -> Seq<
    Option<Seq<Seq<char>>>,
>
    decreases level, branches,
{
    Seq::new(
        branches.len(),
        |i: int|
            if 0 <= i < branches.len() {
                keys(table, level, branches[i].1)
            } else {
                None
            },
    )
}

/// The names of each alternative of an untagged union, one by one.
pub open spec fn alt_key_parts(table: Seq<Shape>, level: nat, alts: Seq<Shape>) -> Seq<Option<Seq<Seq<char>>>>
    decreases level, alts,
{
    Seq::new(
        alts.len(),
        |i: int|
            if 0 <= i < alts.len() {
                keys(table, level, alts[i])
            } else {
                None
            },
    )
}

/// The member names that a shape writes into, and reads from, the object
/// that stands for it. Nothing for a shape whose documents need not be
/// objects with names fixed by the schema.
pub open spec fn keys(table: Seq<Shape>, level: nat, shape: Shape) -> Option<Seq<Seq<char>>>
    decreases level, shape,
{
    match shape {
        Shape::Record(fields) => gather(field_key_parts(table, level, fields)),
        Shape::Tagged { tag, content, branches } => match content {
            Some(c) => Some(seq![tag, c]),
            None => match gather(branch_key_parts(table, level, branches)) {
                Some(names) => Some(seq![tag] + names),
                None => None,
            },
        },
        Shape::Untagged(alts) => gather(alt_key_parts(table, level, alts)),
        Shape::Ref(j) => if j < level && j < table.len() {
            keys(table, j, table[j as int])
        } else {
            None
        },
        _ => None,
    }
}

/// Whether one field of a record is well defined.
pub open spec fn field_ok(table: Seq<Shape>, level: nat, field: FieldShape) -> bool
    decreases field, 0nat,
{
    match field.rule {
        RuleShape::Required => shape_ok(table, table.len(), field.shape),
        RuleShape::Defaulted { default, omit } => {
            &&& shape_ok(table, table.len(), field.shape)
            &&& conforms(table, table.len(), field.shape, default)
        },
        RuleShape::Flatten => {
            &&& shape_ok(table, level, field.shape)
            &&& keys(table, level, field.shape) is Some
        },
    }
}

/// Whether a shape is well defined at `level`: its references name
/// definitions that exist, those that it follows without a step into the
/// document lie below `level`, what it merges into one object has names
/// fixed by the schema, and no two of those names collide.
pub open spec fn shape_ok(table: Seq<Shape>, level: nat, shape: Shape) -> bool
    decreases shape, 1nat,
{
    match shape {
        Shape::Keyword(words) => words.no_duplicates(),
        Shape::Optional(inner) => shape_ok(table, level, *inner),
        Shape::List(inner) => shape_ok(table, table.len(), *inner),
        Shape::Dict(inner) => shape_ok(table, table.len(), *inner),
        Shape::Record(fields) => {
            &&& forall|i: int| 0 <= i < fields.len() ==> field_ok(table, level, #[trigger] fields[i])
            &&& keys(table, level, shape) matches Some(names) && names.no_duplicates()
        },
        Shape::Tagged { tag, content, branches } => {
            &&& branch_names(branches).no_duplicates()
            &&& match content {
                Some(c) => {
                    &&& c != tag
                    &&& forall|i: int|
                        0 <= i < branches.len() ==> shape_ok(table, table.len(), (#[trigger] branches[i]).1)
                },
                None => forall|i: int|
                    0 <= i < branches.len() ==> {
                        &&& shape_ok(table, level, (#[trigger] branches[i]).1)
                        &&& keys(table, level, branches[i].1) matches Some(names) && !names.contains(tag)
                    },
            }
        },
        Shape::Untagged(alts) => forall|i: int| 0 <= i < alts.len() ==> shape_ok(table, level, #[trigger] alts[i]),
        Shape::Ref(j) => j < level && j < table.len(),
        _ => true,
    }
}

/// Whether a table of definitions is well defined: each definition is, at
/// the level of its own place, so that a definition reaches only earlier
/// ones without a step into the document.
pub open spec fn table_ok(table: Seq<Shape>) -> bool {
    forall|i: int| 0 <= i < table.len() ==> shape_ok(table, i as nat, #[trigger] table[i])
}

} // verus!
