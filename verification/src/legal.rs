//! Checking that a value can be written and read back as itself.

use crate::decode::{decode_node, decode_spec};
use crate::encode::{encode_node, legal, omitted};
use crate::instance::{data, named_data, Datum, Instance};
use crate::laws::lemma_legal_conforms;
use crate::schema::{
    branch_shapes, field_ok, field_shapes, omits, shape_ok, shapes, table_ok, Field, FieldShape, Node, Rule,
    RuleShape, Shape,
};
use crate::validate::conforms_to;
use crate::value::Value;
use vstd::prelude::*;

verus! {

/// Whether each item of a run can be written and read back.
fn all_legal(table: &Vec<Node>, inner: &Node, items: &Vec<Instance>) -> (b: bool)
    requires
        table_ok(shapes(table@)),
        shape_ok(shapes(table@), table@.len(), inner.shape()),
    ensures
        b == forall|i: int|
            0 <= i < items.len() ==> legal(shapes(table@), table@.len(), inner.shape(), #[trigger] data(items@)[i]),
    decreases items, 0nat, inner,
{
    let mut k: usize = 0;
    while k < items.len()
        invariant
            k <= items.len(),
            table_ok(shapes(table@)),
            shape_ok(shapes(table@), table@.len(), inner.shape()),
            forall|i: int|
                0 <= i < k ==> legal(shapes(table@), table@.len(), inner.shape(), #[trigger] data(items@)[i]),
        decreases items.len() - k,
    {
        if !legal_node(table, table.len(), inner, &items[k]) {
            assert(!legal(shapes(table@), table@.len(), inner.shape(), data(items@)[k as int]));
            return false;
        }
        k += 1;
    }
    true
}

/// Whether the value of each entry of a map can be written and read back.
fn all_entries_legal(table: &Vec<Node>, inner: &Node, entries: &Vec<(String, Instance)>) -> (b: bool)
    requires
        table_ok(shapes(table@)),
        shape_ok(shapes(table@), table@.len(), inner.shape()),
    ensures
        b == forall|i: int|
            0 <= i < entries.len() ==> legal(
                shapes(table@),
                table@.len(),
                inner.shape(),
                (#[trigger] named_data(entries@)[i]).1,
            ),
    decreases entries, 0nat, inner,
{
    let mut k: usize = 0;
    while k < entries.len()
        invariant
            k <= entries.len(),
            table_ok(shapes(table@)),
            shape_ok(shapes(table@), table@.len(), inner.shape()),
            forall|i: int|
                0 <= i < k ==> legal(
                    shapes(table@),
                    table@.len(),
                    inner.shape(),
                    (#[trigger] named_data(entries@)[i]).1,
                ),
        decreases entries.len() - k,
    {
        if !legal_node(table, table.len(), inner, &entries[k].1) {
            assert(!legal(shapes(table@), table@.len(), inner.shape(), named_data(entries@)[k as int].1));
            return false;
        }
        k += 1;
    }
    true
}

/// What the law of writing and reading back asks of the value of one field.
pub open spec fn field_legal(table: Seq<Shape>, level: nat, field: FieldShape, d: Datum) -> bool {
    match field.rule {
        RuleShape::Required => legal(table, table.len(), field.shape, d),
        RuleShape::Defaulted { default, omit } => if omits(omit, default, d) {
            d == default
        } else {
            legal(table, table.len(), field.shape, d)
        },
        RuleShape::Flatten => legal(table, level, field.shape, d),
    }
}

/// Whether the value of one field can be written and read back.
fn field_is_legal(table: &Vec<Node>, level: usize, field: &Field, value: &Instance) -> (b: bool)
    requires
        table_ok(shapes(table@)),
        field_ok(shapes(table@), level as nat, field.shape()),
    ensures
        b == field_legal(shapes(table@), level as nat, field.shape(), value@),
    decreases value, level + table.len() + 1, field,
{
    match &field.rule {
        Rule::Required => legal_node(table, table.len(), &field.node, value),
        Rule::Defaulted { default, omit } => if omitted(*omit, default, value) {
            value.same(default)
        } else {
            legal_node(table, table.len(), &field.node, value)
        },
        Rule::Flatten => legal_node(table, level, &field.node, value),
    }
}

/// Whether each value can be written under its field and read back.
fn all_fields_legal(table: &Vec<Node>, level: usize, fields: &Vec<Field>, values: &Vec<Instance>) -> (b: bool)
    requires
        table_ok(shapes(table@)),
        forall|i: int|
            0 <= i < fields.len() ==> field_ok(shapes(table@), level as nat, #[trigger] field_shapes(fields@)[i]),
        values.len() == fields.len(),
    ensures
        b == forall|i: int|
            0 <= i < fields.len() ==> field_legal(
                shapes(table@),
                level as nat,
                field_shapes(fields@)[i],
                #[trigger] data(values@)[i],
            ),
    decreases values, level, fields,
{
    let mut k: usize = 0;
    while k < fields.len()
        invariant
            k <= fields.len(),
            values.len() == fields.len(),
            table_ok(shapes(table@)),
            forall|i: int|
                0 <= i < fields.len() ==> field_ok(shapes(table@), level as nat, #[trigger] field_shapes(fields@)[i]),
            forall|i: int|
                0 <= i < k ==> field_legal(
                    shapes(table@),
                    level as nat,
                    field_shapes(fields@)[i],
                    #[trigger] data(values@)[i],
                ),
        decreases fields.len() - k,
    {
        assert(field_shapes(fields@)[k as int] == fields[k as int].shape());
        if !field_is_legal(table, level, &fields[k], &values[k]) {
            assert(!field_legal(
                shapes(table@),
                level as nat,
                field_shapes(fields@)[k as int],
                data(values@)[k as int],
            ));
            return false;
        }
        k += 1;
    }
    true
}

/// Whether none of the first `upto` alternatives accepts the document `v`.
fn none_accepts(table: &Vec<Node>, level: usize, alts: &Vec<Node>, upto: usize, v: &Value) -> (b: bool)
    requires
        table_ok(shapes(table@)),
        upto <= alts.len(),
        forall|i: int| 0 <= i < alts.len() ==> shape_ok(shapes(table@), level as nat, #[trigger] shapes(alts@)[i]),
    ensures
        b == forall|j: int|
            0 <= j < upto ==> (#[trigger] decode_spec(shapes(table@), level as nat, shapes(alts@)[j], v@)) is Err,
{
    let mut k: usize = 0;
    while k < upto
        invariant
            k <= upto <= alts.len(),
            table_ok(shapes(table@)),
            forall|i: int| 0 <= i < alts.len() ==> shape_ok(shapes(table@), level as nat, #[trigger] shapes(alts@)[i]),
            forall|j: int|
                0 <= j < k ==> (#[trigger] decode_spec(shapes(table@), level as nat, shapes(alts@)[j], v@)) is Err,
        decreases upto - k,
    {
        assert(shapes(alts@)[k as int] == alts[k as int].shape());
        match decode_node(table, level, &alts[k], v) {
            Ok(_) => {
                assert(decode_spec(shapes(table@), level as nat, shapes(alts@)[k as int], v@) is Ok);
                return false;
            },
            Err(_) => {},
        }
        k += 1;
    }
    true
}

/// Whether `x` can be written under `node` and read back as itself.
pub(crate) fn legal_node(table: &Vec<Node>, level: usize, node: &Node, x: &Instance) -> (b: bool)
    requires
        table_ok(shapes(table@)),
        shape_ok(shapes(table@), level as nat, node.shape()),
    ensures
        b == legal(shapes(table@), level as nat, node.shape(), x@),
    decreases x, level, node,
{
    let ghost t = shapes(table@);
    match node {
        Node::Optional(inner) => match x {
            Instance::Absent => true,
            Instance::Present(y) => {
                if !legal_node(table, level, inner, y) {
                    return false;
                }
                proof {
                    lemma_legal_conforms(t, level as nat, inner.shape(), y@);
                }
                match encode_node(table, level, inner, y) {
                    Some(Value::Null) => false,
                    Some(_) => true,
                    None => false,
                }
            },
            _ => false,
        },
        Node::List(inner) => match x {
            Instance::List(items) => {
                assert(x@->List_0 == data(items@));
                all_legal(table, inner, items)
            },
            _ => false,
        },
        Node::Dict(inner) => match x {
            Instance::Dict(entries) => {
                assert(x@->Dict_0 == named_data(entries@));
                all_entries_legal(table, inner, entries)
            },
            _ => false,
        },
        Node::Record(fields) => match x {
            Instance::Record(values) => {
                assert(x@->Record_0 == data(values@));
                assert(node.shape()->Record_0 == field_shapes(fields@));
                if values.len() != fields.len() {
                    return false;
                }
                all_fields_legal(table, level, fields, values)
            },
            _ => false,
        },
        Node::Tagged { tag, content, branches } => match x {
            Instance::Variant(i, y) => {
                if *i >= branches.len() {
                    assert(branch_shapes(branches@).len() == branches.len());
                    return false;
                }
                assert(branch_shapes(branches@)[*i as int].1 == branches[*i as int].1.shape());
                let at = match content {
                    None => level,
                    Some(_) => table.len(),
                };
                legal_node(table, at, &branches[*i].1, y)
            },
            _ => false,
        },
        Node::Untagged(alts) => match x {
            Instance::Variant(i, y) => {
                if *i >= alts.len() {
                    assert(shapes(alts@).len() == alts.len());
                    return false;
                }
                assert(shapes(alts@)[*i as int] == alts[*i as int].shape());
                if !legal_node(table, level, &alts[*i], y) {
                    return false;
                }
                proof {
                    lemma_legal_conforms(t, level as nat, alts[*i as int].shape(), y@);
                }
                match encode_node(table, level, &alts[*i], y) {
                    Some(v) => none_accepts(table, level, alts, *i, &v),
                    None => false,
                }
            },
            _ => false,
        },
        Node::Ref(j) => {
            assert(t[*j as int] == table[*j as int].shape());
            legal_node(table, *j, &table[*j], x)
        },
        _ => conforms_to(table, level, node, x),
    }
}

} // verus!
