//! From decoded values to documents.

use crate::instance::{data, named_data, Datum, Instance};
use crate::laws::lemma_encode_keys;
use crate::minecraft::text::hex_literal;
use crate::schema::{
    branch_shapes, field_ok, field_shapes, omits, shape_ok, shapes, table_ok, Field, FieldShape, Node, Omit, Rule,
    RuleShape, Shape,
};
use crate::value::{jsons, members_of, named_jsons, number_of, words, Json, Number, Value};
use vstd::prelude::*;

verus! {

/// Whether `d` is a value of `shape`. `level` bounds the definitions that a
/// reference may name without a step into the value.
pub open spec fn conforms(table: Seq<Shape>, level: nat, shape: Shape, d: Datum) -> bool
    decreases d, level, shape,
{
    match shape {
        Shape::Bool => d is Bool,
        Shape::Int => d is Int,
        Shape::Number => d is Number,
        Shape::Text => d is Text,
        Shape::Keyword(words) => d matches Datum::Keyword(i) && i < words.len(),
        Shape::Colour => d is Colour,
        Shape::Optional(inner) => match d {
            Datum::Absent => true,
            Datum::Present(x) => conforms(table, level, *inner, *x),
            _ => false,
        },
        Shape::List(inner) => match d {
            Datum::List(items) => forall|i: int|
                0 <= i < items.len() ==> conforms(table, table.len(), *inner, #[trigger] items[i]),
            _ => false,
        },
        Shape::Dict(inner) => match d {
            Datum::Dict(entries) => forall|i: int|
                0 <= i < entries.len() ==> conforms(table, table.len(), *inner, (#[trigger] entries[i]).1),
            _ => false,
        },
        Shape::Record(fields) => match d {
            Datum::Record(values) => {
                &&& values.len() == fields.len()
                &&& forall|i: int|
                    0 <= i < fields.len() ==> conforms(
                        table,
                        if fields[i].rule is Flatten { level } else { table.len() },
                        fields[i].shape,
                        #[trigger] values[i],
                    )
            },
            _ => false,
        },
        Shape::Tagged { tag, content, branches } => match d {
            Datum::Variant(i, x) => {
                &&& i < branches.len()
                &&& conforms(table, if content is None { level } else { table.len() }, branches[i as int].1, *x)
            },
            _ => false,
        },
        Shape::Untagged(alts) => match d {
            Datum::Variant(i, x) => i < alts.len() && conforms(table, level, alts[i as int], *x),
            _ => false,
        },
        Shape::Ref(j) => j < level && j < table.len() && conforms(table, j, table[j as int], d),
    }
}

/// Whether `d` can be written under `shape` and read back as itself: it
/// conforms, a field that its rule leaves out holds its default, an optional
/// value that is there is not written as `null`, and no alternative of an
/// untagged union that is declared before the chosen one accepts the
/// document of the chosen one.
pub open spec fn legal(table: Seq<Shape>, level: nat, shape: Shape, d: Datum) -> bool
    decreases d, level, shape,
{
    match shape {
        Shape::Optional(inner) => match d {
            Datum::Absent => true,
            Datum::Present(x) => {
                &&& legal(table, level, *inner, *x)
                &&& encode_spec(table, level, *inner, *x) != Json::Null
            },
            _ => false,
        },
        Shape::List(inner) => match d {
            Datum::List(items) => forall|i: int|
                0 <= i < items.len() ==> legal(table, table.len(), *inner, #[trigger] items[i]),
            _ => false,
        },
        Shape::Dict(inner) => match d {
            Datum::Dict(entries) => forall|i: int|
                0 <= i < entries.len() ==> legal(table, table.len(), *inner, (#[trigger] entries[i]).1),
            _ => false,
        },
        Shape::Record(fields) => match d {
            Datum::Record(values) => {
                &&& values.len() == fields.len()
                &&& forall|i: int|
                    0 <= i < fields.len() ==> match fields[i].rule {
                        RuleShape::Required => legal(table, table.len(), fields[i].shape, #[trigger] values[i]),
                        RuleShape::Defaulted { default, omit } => if omits(omit, default, values[i]) {
                            values[i] == default
                        } else {
                            legal(table, table.len(), fields[i].shape, values[i])
                        },
                        RuleShape::Flatten => legal(table, level, fields[i].shape, values[i]),
                    }
            },
            _ => false,
        },
        Shape::Tagged { tag, content, branches } => match d {
            Datum::Variant(i, x) => {
                &&& i < branches.len()
                &&& legal(table, if content is None { level } else { table.len() }, branches[i as int].1, *x)
            },
            _ => false,
        },
        Shape::Untagged(alts) => match d {
            Datum::Variant(i, x) => {
                &&& i < alts.len()
                &&& legal(table, level, alts[i as int], *x)
                &&& forall|j: int|
                    0 <= j < i ==> (#[trigger] crate::decode::decode_spec(
                        table,
                        level,
                        alts[j],
                        encode_spec(table, level, alts[i as int], *x),
                    )) is Err
            },
            _ => false,
        },
        Shape::Ref(j) => j < level && j < table.len() && legal(table, j, table[j as int], d),
        _ => conforms(table, level, shape, d),
    }
}

/// What one field adds to the object of its record: nothing when its rule
/// leaves it out, one member under its name, or all members of a flattened
/// record.
pub open spec fn field_piece(table: Seq<Shape>, level: nat, field: FieldShape, d: Datum) -> Seq<(Seq<char>, Json)>
    decreases d, level + table.len() + 1, field,
{
    match field.rule {
        RuleShape::Required => seq![(field.name, encode_spec(table, table.len(), field.shape, d))],
        RuleShape::Defaulted { default, omit } => if omits(omit, default, d) {
            Seq::empty()
        } else {
            seq![(field.name, encode_spec(table, table.len(), field.shape, d))]
        },
        RuleShape::Flatten => members_of(encode_spec(table, level, field.shape, d)),
    }
}

/// The pieces of all fields of a record, in declaration order.
pub open spec fn field_pieces(table: Seq<Shape>, level: nat, fields: Seq<FieldShape>, values: Seq<Datum>) -> Seq<
    Seq<(Seq<char>, Json)>,
>
    decreases values, level, fields,
{
    Seq::new(
        fields.len(),
        |i: int|
            if 0 <= i < fields.len() && i < values.len() {
                field_piece(table, level, fields[i], values[i])
            } else {
                Seq::empty()
            },
    )
}

/// The documents of the items of a list, in order.
pub open spec fn encode_items_spec(table: Seq<Shape>, inner: Shape, items: Seq<Datum>) -> Seq<Json>
    decreases items, 0nat, inner,
{
    Seq::new(
        items.len(),
        |i: int|
            if 0 <= i < items.len() {
                encode_spec(table, table.len(), inner, items[i])
            } else {
                Json::Null
            },
    )
}

/// The members that stand for the entries of a map, in order.
pub open spec fn encode_entries_spec(table: Seq<Shape>, inner: Shape, entries: Seq<(Seq<char>, Datum)>) -> Seq<
    (Seq<char>, Json),
>
    decreases entries, 0nat, inner,
{
    Seq::new(
        entries.len(),
        |i: int|
            if 0 <= i < entries.len() {
                (entries[i].0, encode_spec(table, table.len(), inner, entries[i].1))
            } else {
                (Seq::empty(), Json::Null)
            },
    )
}

/// The document that stands for `d` under `shape`. It is meant for values
/// that conform to the shape; of others it says nothing of use.
pub open spec fn encode_spec(table: Seq<Shape>, level: nat, shape: Shape, d: Datum) -> Json
    decreases d, level, shape,
{
    match shape {
        Shape::Bool => match d {
            Datum::Bool(b) => Json::Bool(b),
            _ => Json::Null,
        },
        Shape::Int => match d {
            Datum::Int(i) => Json::Number(number_of(i)),
            _ => Json::Null,
        },
        Shape::Number => match d {
            Datum::Number(n) => Json::Number(n),
            _ => Json::Null,
        },
        Shape::Text => match d {
            Datum::Text(s) => Json::String(s),
            _ => Json::Null,
        },
        Shape::Keyword(words) => match d {
            Datum::Keyword(i) => Json::String(words[i as int]),
            _ => Json::Null,
        },
        Shape::Colour => match d {
            Datum::Colour(c) => Json::String(hex_literal(c)),
            _ => Json::Null,
        },
        Shape::Optional(inner) => match d {
            Datum::Present(x) => encode_spec(table, level, *inner, *x),
            _ => Json::Null,
        },
        Shape::List(inner) => match d {
            Datum::List(items) => Json::Array(encode_items_spec(table, *inner, items)),
            _ => Json::Null,
        },
        Shape::Dict(inner) => match d {
            Datum::Dict(entries) => Json::Object(encode_entries_spec(table, *inner, entries)),
            _ => Json::Null,
        },
        Shape::Record(fields) => match d {
            Datum::Record(values) => Json::Object(field_pieces(table, level, fields, values).flatten()),
            _ => Json::Null,
        },
        Shape::Tagged { tag, content, branches } => match d {
            Datum::Variant(i, x) => if i < branches.len() {
                let head = (tag, Json::String(branches[i as int].0));
                match content {
                    None => Json::Object(
                        seq![head] + members_of(encode_spec(table, level, branches[i as int].1, *x)),
                    ),
                    Some(c) => Json::Object(
                        seq![head, (c, encode_spec(table, table.len(), branches[i as int].1, *x))],
                    ),
                }
            } else {
                Json::Null
            },
            _ => Json::Null,
        },
        Shape::Untagged(alts) => match d {
            Datum::Variant(i, x) => if i < alts.len() {
                encode_spec(table, level, alts[i as int], *x)
            } else {
                Json::Null
            },
            _ => Json::Null,
        },
        Shape::Ref(j) => if j < level && j < table.len() {
            encode_spec(table, j, table[j as int], d)
        } else {
            Json::Null
        },
    }
}

/// Whether the omission rule holds of a field's current value.
pub(crate) fn omitted(omit: Omit, default: &Instance, value: &Instance) -> (b: bool)
    ensures
        b == omits(omit, default@, value@),
{
    match omit {
        Omit::Never => false,
        Omit::IfDefault => value.same(default),
        Omit::IfFalse => match value {
            Instance::Bool(b) => !*b,
            _ => false,
        },
        Omit::IfTrue => match value {
            Instance::Bool(b) => *b,
            _ => false,
        },
        Omit::IfAbsent => match value {
            Instance::Absent => true,
            _ => false,
        },
        Omit::IfEmpty => match value {
            Instance::List(items) => {
                assert(items.len() == 0 <==> data(items@) =~= Seq::empty());
                items.len() == 0
            },
            Instance::Dict(entries) => {
                assert(entries.len() == 0 <==> named_data(entries@) =~= Seq::empty());
                entries.len() == 0
            },
            _ => false,
        },
    }
}

/// Writes the items of a list, each under the node of the list's items.
/// Nothing comes back iff some item does not conform.
pub(crate) fn encode_items(table: &Vec<Node>, inner: &Node, items: &Vec<Instance>) -> (r: Option<Vec<Value>>)
    requires
        table_ok(shapes(table@)),
        shape_ok(shapes(table@), table@.len(), inner.shape()),
    ensures
        r is Some <==> forall|i: int|
            0 <= i < items.len() ==> conforms(shapes(table@), table@.len(), inner.shape(), #[trigger] data(items@)[i]),
        r matches Some(vs) ==> jsons(vs@) == encode_items_spec(shapes(table@), inner.shape(), data(items@)),
    decreases items, 0nat, inner,
{
    let mut out: Vec<Value> = Vec::new();
    let mut k: usize = 0;
    while k < items.len()
        invariant
            k <= items.len(),
            out.len() == k,
            table_ok(shapes(table@)),
            shape_ok(shapes(table@), table@.len(), inner.shape()),
            forall|i: int|
                0 <= i < k ==> conforms(shapes(table@), table@.len(), inner.shape(), #[trigger] data(items@)[i]),
            forall|i: int|
                0 <= i < k ==> (#[trigger] out[i])@ == encode_spec(
                    shapes(table@),
                    table@.len(),
                    inner.shape(),
                    data(items@)[i],
                ),
        decreases items.len() - k,
    {
        match encode_node(table, table.len(), inner, &items[k]) {
            Some(v) => {
                out.push(v);
            },
            None => {
                assert(!conforms(shapes(table@), table@.len(), inner.shape(), data(items@)[k as int]));
                return None;
            },
        }
        k += 1;
    }
    assert(jsons(out@) =~= encode_items_spec(shapes(table@), inner.shape(), data(items@)));
    Some(out)
}

/// Writes the entries of a map as members, each value under the node of the
/// map's values. Nothing comes back iff some value does not conform.
pub(crate) fn encode_entries(table: &Vec<Node>, inner: &Node, entries: &Vec<(String, Instance)>) -> (r: Option<
    Vec<(String, Value)>,
>)
    requires
        table_ok(shapes(table@)),
        shape_ok(shapes(table@), table@.len(), inner.shape()),
    ensures
        r is Some <==> forall|i: int|
            0 <= i < entries.len() ==> conforms(
                shapes(table@),
                table@.len(),
                inner.shape(),
                (#[trigger] named_data(entries@)[i]).1,
            ),
        r matches Some(ms) ==> named_jsons(ms@) == encode_entries_spec(
            shapes(table@),
            inner.shape(),
            named_data(entries@),
        ),
    decreases entries, 0nat, inner,
{
    let mut out: Vec<(String, Value)> = Vec::new();
    let mut k: usize = 0;
    while k < entries.len()
        invariant
            k <= entries.len(),
            out.len() == k,
            table_ok(shapes(table@)),
            shape_ok(shapes(table@), table@.len(), inner.shape()),
            forall|i: int|
                0 <= i < k ==> conforms(
                    shapes(table@),
                    table@.len(),
                    inner.shape(),
                    (#[trigger] named_data(entries@)[i]).1,
                ),
            forall|i: int|
                0 <= i < k ==> (#[trigger] out[i]).0@ == entries[i].0@ && out[i].1@ == encode_spec(
                    shapes(table@),
                    table@.len(),
                    inner.shape(),
                    entries[i].1@,
                ),
        decreases entries.len() - k,
    {
        match encode_node(table, table.len(), inner, &entries[k].1) {
            Some(v) => {
                out.push((entries[k].0.clone(), v));
            },
            None => {
                assert(!conforms(shapes(table@), table@.len(), inner.shape(), named_data(entries@)[k as int].1));
                return None;
            },
        }
        k += 1;
    }
    assert(named_jsons(out@) =~= encode_entries_spec(shapes(table@), inner.shape(), named_data(entries@)));
    Some(out)
}

/// The level at which the value of a field is written.
pub open spec fn field_level(table: Seq<Shape>, level: nat, field: FieldShape) -> nat {
    if field.rule is Flatten {
        level
    } else {
        table.len()
    }
}

/// Writes the members that the fields of a record add to its object, in
/// declaration order. Nothing comes back iff some value does not conform to
/// its field.
pub(crate) fn encode_fields(table: &Vec<Node>, level: usize, fields: &Vec<Field>, values: &Vec<Instance>) -> (r: Option<
    Vec<(String, Value)>,
>)
    requires
        table_ok(shapes(table@)),
        forall|i: int|
            0 <= i < fields.len() ==> field_ok(shapes(table@), level as nat, #[trigger] field_shapes(fields@)[i]),
        values.len() == fields.len(),
    ensures
        r is Some <==> forall|i: int|
            0 <= i < fields.len() ==> conforms(
                shapes(table@),
                field_level(shapes(table@), level as nat, field_shapes(fields@)[i]),
                field_shapes(fields@)[i].shape,
                #[trigger] data(values@)[i],
            ),
        r matches Some(ms) ==> named_jsons(ms@) == field_pieces(
            shapes(table@),
            level as nat,
            field_shapes(fields@),
            data(values@),
        ).flatten(),
    decreases values, level, fields,
{
    let ghost t = shapes(table@);
    let ghost fs = field_shapes(fields@);
    let ghost pieces = field_pieces(t, level as nat, fs, data(values@));
    let mut out: Vec<(String, Value)> = Vec::new();
    let mut k: usize = 0;
    assert(pieces.take(0) =~= Seq::empty());
    assert(named_jsons(out@) =~= Seq::empty());
    while k < fields.len()
        invariant
            k <= fields.len(),
            values.len() == fields.len(),
            t == shapes(table@),
            fs == field_shapes(fields@),
            pieces == field_pieces(t, level as nat, fs, data(values@)),
            table_ok(t),
            forall|i: int| 0 <= i < fields.len() ==> field_ok(t, level as nat, #[trigger] fs[i]),
            forall|i: int|
                0 <= i < k ==> conforms(t, field_level(t, level as nat, fs[i]), fs[i].shape, #[trigger] data(values@)[i]),
            named_jsons(out@) == pieces.take(k as int).flatten(),
        decreases fields.len() - k,
    {
        let field = &fields[k];
        let value = &values[k];
        let ghost before = named_jsons(out@);
        assert(fs[k as int] == field.shape());
        assert(field_ok(t, level as nat, fs[k as int]));
        assert(data(values@)[k as int] == value@);
        assert(pieces[k as int] == field_piece(t, level as nat, field.shape(), value@));
        match &field.rule {
            Rule::Flatten => {
                match encode_node(table, level, &field.node, value) {
                    Some(Value::Object(mut members)) => {
                        let ghost added = named_jsons(members@);
                        out.append(&mut members);
                        assert(named_jsons(out@) =~= before + added);
                    },
                    Some(_) => {
                        proof {
                            lemma_encode_keys(t, level as nat, field.node.shape(), value@);
                        }
                        return None;
                    },
                    None => {
                        return None;
                    },
                }
            },
            Rule::Required => {
                match encode_node(table, table.len(), &field.node, value) {
                    Some(v) => {
                        out.push((field.name.clone(), v));
                        assert(named_jsons(out@) =~= before + pieces[k as int]);
                    },
                    None => {
                        return None;
                    },
                }
            },
            Rule::Defaulted { default, omit } => {
                match encode_node(table, table.len(), &field.node, value) {
                    Some(v) => {
                        if !omitted(*omit, default, value) {
                            out.push((field.name.clone(), v));
                        }
                        assert(named_jsons(out@) =~= before + pieces[k as int]);
                    },
                    None => {
                        return None;
                    },
                }
            },
        }
        proof {
            assert(pieces.take(k + 1) =~= pieces.take(k as int).push(pieces[k as int]));
            pieces.take(k as int).lemma_flatten_push(pieces[k as int]);
        }
        k += 1;
    }
    assert(pieces.take(k as int) =~= pieces);
    Some(out)
}

/// Writes `x` as a document under `node`. Nothing comes back iff `x` does
/// not conform to the node.
pub(crate) fn encode_node(table: &Vec<Node>, level: usize, node: &Node, x: &Instance) -> (r: Option<Value>)
    requires
        table_ok(shapes(table@)),
        shape_ok(shapes(table@), level as nat, node.shape()),
    ensures
        r is Some <==> conforms(shapes(table@), level as nat, node.shape(), x@),
        r matches Some(v) ==> v@ == encode_spec(shapes(table@), level as nat, node.shape(), x@),
    decreases x, level, node,
{
    let ghost t = shapes(table@);
    match node {
        Node::Bool => match x {
            Instance::Bool(b) => Some(Value::Bool(*b)),
            _ => None,
        },
        Node::Int => match x {
            Instance::Int(i) => if *i >= 0 {
                Some(Value::Number(Number::PosInt(*i as u64)))
            } else {
                Some(Value::Number(Number::NegInt(*i)))
            },
            _ => None,
        },
        Node::Number => match x {
            Instance::Number(n) => Some(Value::Number(*n)),
            _ => None,
        },
        Node::Text => match x {
            Instance::Text(s) => Some(Value::String(s.clone())),
            _ => None,
        },
        Node::Keyword(names) => match x {
            Instance::Keyword(i) => if *i < names.len() {
                Some(Value::String(names[*i].clone()))
            } else {
                None
            },
            _ => None,
        },
        Node::Colour => match x {
            Instance::Colour(c) => Some(Value::String(c.encode())),
            _ => None,
        },
        Node::Optional(inner) => match x {
            Instance::Absent => Some(Value::Null),
            Instance::Present(y) => encode_node(table, level, inner, y),
            _ => None,
        },
        Node::List(inner) => match x {
            Instance::List(items) => match encode_items(table, inner, items) {
                Some(vs) => Some(Value::Array(vs)),
                None => None,
            },
            _ => None,
        },
        Node::Dict(inner) => match x {
            Instance::Dict(entries) => match encode_entries(table, inner, entries) {
                Some(ms) => Some(Value::Object(ms)),
                None => None,
            },
            _ => None,
        },
        Node::Record(fields) => match x {
            Instance::Record(values) => {
                if values.len() != fields.len() {
                    assert(data(values@).len() != field_shapes(fields@).len());
                    return None;
                }
                match encode_fields(table, level, fields, values) {
                    Some(ms) => Some(Value::Object(ms)),
                    None => None,
                }
            },
            _ => None,
        },
        Node::Tagged { tag, content, branches } => match x {
            Instance::Variant(i, y) => {
                if *i >= branches.len() {
                    assert(branch_shapes(branches@).len() == branches.len());
                    return None;
                }
                let branch = &branches[*i];
                assert(branch_shapes(branches@)[*i as int] == (branch.0@, branch.1.shape()));
                let head = (tag.clone(), Value::String(branch.0.clone()));
                match content {
                    None => match encode_node(table, level, &branch.1, y) {
                        Some(Value::Object(mut members)) => {
                            let ghost rest = named_jsons(members@);
                            let mut out: Vec<(String, Value)> = Vec::new();
                            out.push(head);
                            out.append(&mut members);
                            assert(named_jsons(out@) =~= seq![(tag@, Json::String(branch.0@))] + rest);
                            Some(Value::Object(out))
                        },
                        Some(_) => {
                            proof {
                                lemma_encode_keys(t, level as nat, branch.1.shape(), y@);
                            }
                            None
                        },
                        None => None,
                    },
                    Some(c) => match encode_node(table, table.len(), &branch.1, y) {
                        Some(v) => {
                            let mut out: Vec<(String, Value)> = Vec::new();
                            out.push(head);
                            out.push((c.clone(), v));
                            assert(named_jsons(out@) =~= seq![
                                (tag@, Json::String(branch.0@)),
                                (c@, encode_spec(t, t.len(), branch.1.shape(), y@)),
                            ]);
                            Some(Value::Object(out))
                        },
                        None => None,
                    },
                }
            },
            _ => None,
        },
        Node::Untagged(alts) => match x {
            Instance::Variant(i, y) => {
                if *i >= alts.len() {
                    return None;
                }
                assert(shapes(alts@)[*i as int] == alts[*i as int].shape());
                encode_node(table, level, &alts[*i], y)
            },
            _ => None,
        },
        Node::Ref(j) => {
            assert(t[*j as int] == table[*j as int].shape());
            encode_node(table, *j, &table[*j], x)
        },
    }
}

} // verus!
