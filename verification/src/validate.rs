//! Checking a table of definitions before it becomes a schema.

use crate::decode::find_word;
use crate::encode::conforms;
use crate::instance::{data, named_data, Instance};
use crate::lemmas::lemma_word_index_contains;
use crate::schema::{
    alt_key_parts, branch_key_parts, branch_names, branch_shapes, field_key_parts, field_keys, field_ok, field_shapes,
    gather, keys, shape_ok, shapes, unwrap_all, Field, Node, Rule, Shape,
};
use crate::value::words;
use vstd::prelude::*;

verus! {

/// Whether a list of names, if any, has the model `expected`.
pub open spec fn keyed_as(r: Option<Vec<String>>, expected: Option<Seq<Seq<char>>>) -> bool {
    match expected {
        Some(names) => r matches Some(v) && words(v@) == names,
        None => r is None,
    }
}

/// Whether no name occurs twice in `names`.
pub(crate) fn distinct(names: &Vec<String>) -> (b: bool)
    ensures
        b == words(names@).no_duplicates(),
{
    let ghost w = words(names@);
    let mut i: usize = 0;
    while i < names.len()
        invariant
            i <= names.len(),
            w == words(names@),
            forall|a: int, b: int| 0 <= a < i && a < b < names.len() ==> w[a] != w[b],
        decreases names.len() - i,
    {
        let mut j: usize = i + 1;
        while j < names.len()
            invariant
                i < j <= names.len(),
                w == words(names@),
                forall|b: int| i < b < j ==> w[i as int] != w[b],
            decreases names.len() - j,
        {
            if names[i] == names[j] {
                assert(w[i as int] == w[j as int]);
                return false;
            }
            j += 1;
        }
        i += 1;
    }
    assert forall|a: int, b: int| 0 <= a < w.len() && 0 <= b < w.len() && a != b implies w[a] != w[b] by {
        if a < b {
        } else {
            assert(w[b] != w[a]);
        }
    }
    true
}

/// Whether `word` stands in `names`.
pub(crate) fn has_word(names: &Vec<String>, word: &String) -> (b: bool)
    ensures
        b == words(names@).contains(word@),
{
    proof {
        lemma_word_index_contains(words(names@), word@);
    }
    find_word(names, word) < names.len()
}

/// Appends copies of `more` to `names`.
fn extend_words(names: &mut Vec<String>, more: &Vec<String>)
    ensures
        words(final(names)@) == words(old(names)@) + words(more@),
{
    let ghost before = words(names@);
    let mut k: usize = 0;
    while k < more.len()
        invariant
            k <= more.len(),
            words(names@) == before + words(more@).take(k as int),
        decreases more.len() - k,
    {
        let ghost prev = words(names@);
        names.push(more[k].clone());
        assert(words(names@) =~= prev.push(more[k as int]@));
        assert(words(more@).take(k + 1) =~= words(more@).take(k as int).push(more[k as int]@));
        k += 1;
    }
    assert(words(more@).take(k as int) =~= words(more@));
}

/// The member names of the fields of a record, gathered in order.
pub(crate) fn gather_field_keys(table: &Vec<Node>, level: usize, fields: &Vec<Field>) -> (r: Option<Vec<String>>)
    ensures
        keyed_as(r, gather(field_key_parts(shapes(table@), level as nat, field_shapes(fields@)))),
    decreases level, fields,
{
    let ghost parts = field_key_parts(shapes(table@), level as nat, field_shapes(fields@));
    let mut names: Vec<String> = Vec::new();
    let mut k: usize = 0;
    assert(unwrap_all(parts).take(0) =~= Seq::empty());
    assert(words(names@) =~= Seq::empty());
    while k < fields.len()
        invariant
            k <= fields.len(),
            parts == field_key_parts(shapes(table@), level as nat, field_shapes(fields@)),
            forall|i: int| 0 <= i < k ==> (#[trigger] parts[i]) is Some,
            words(names@) == unwrap_all(parts).take(k as int).flatten(),
        decreases fields.len() - k,
    {
        let field = &fields[k];
        let ghost prev = words(names@);
        assert(field_shapes(fields@)[k as int] == field.shape());
        assert(parts[k as int] == field_keys(shapes(table@), level as nat, field.shape()));
        match &field.rule {
            Rule::Flatten => match node_keys(table, level, &field.node) {
                Some(more) => {
                    extend_words(&mut names, &more);
                },
                None => {
                    return None;
                },
            },
            _ => {
                names.push(field.name.clone());
                assert(words(names@) =~= prev + seq![field.name@]);
            },
        }
        proof {
            let plain = unwrap_all(parts);
            assert(plain.take(k + 1) =~= plain.take(k as int).push(plain[k as int]));
            plain.take(k as int).lemma_flatten_push(plain[k as int]);
        }
        k += 1;
    }
    assert(unwrap_all(parts).take(k as int) =~= unwrap_all(parts));
    Some(names)
}

/// The member names of the branches of a tagged union, gathered in order.
pub(crate) fn gather_branch_keys(table: &Vec<Node>, level: usize, branches: &Vec<(String, Node)>) -> (r: Option<
    Vec<String>,
>)
    ensures
        keyed_as(r, gather(branch_key_parts(shapes(table@), level as nat, branch_shapes(branches@)))),
    decreases level, branches,
{
    let ghost parts = branch_key_parts(shapes(table@), level as nat, branch_shapes(branches@));
    let mut names: Vec<String> = Vec::new();
    let mut k: usize = 0;
    assert(unwrap_all(parts).take(0) =~= Seq::empty());
    assert(words(names@) =~= Seq::empty());
    while k < branches.len()
        invariant
            k <= branches.len(),
            parts == branch_key_parts(shapes(table@), level as nat, branch_shapes(branches@)),
            forall|i: int| 0 <= i < k ==> (#[trigger] parts[i]) is Some,
            words(names@) == unwrap_all(parts).take(k as int).flatten(),
        decreases branches.len() - k,
    {
        assert(branch_shapes(branches@)[k as int].1 == branches[k as int].1.shape());
        assert(parts[k as int] == keys(shapes(table@), level as nat, branches[k as int].1.shape()));
        match node_keys(table, level, &branches[k].1) {
            Some(more) => {
                extend_words(&mut names, &more);
            },
            None => {
                return None;
            },
        }
        proof {
            let plain = unwrap_all(parts);
            assert(plain.take(k + 1) =~= plain.take(k as int).push(plain[k as int]));
            plain.take(k as int).lemma_flatten_push(plain[k as int]);
        }
        k += 1;
    }
    assert(unwrap_all(parts).take(k as int) =~= unwrap_all(parts));
    Some(names)
}

/// The member names of the alternatives of an untagged union, gathered in
/// order.
pub(crate) fn gather_alt_keys(table: &Vec<Node>, level: usize, alts: &Vec<Node>) -> (r: Option<Vec<String>>)
    ensures
        keyed_as(r, gather(alt_key_parts(shapes(table@), level as nat, shapes(alts@)))),
    decreases level, alts,
{
    let ghost parts = alt_key_parts(shapes(table@), level as nat, shapes(alts@));
    let mut names: Vec<String> = Vec::new();
    let mut k: usize = 0;
    assert(unwrap_all(parts).take(0) =~= Seq::empty());
    assert(words(names@) =~= Seq::empty());
    while k < alts.len()
        invariant
            k <= alts.len(),
            parts == alt_key_parts(shapes(table@), level as nat, shapes(alts@)),
            forall|i: int| 0 <= i < k ==> (#[trigger] parts[i]) is Some,
            words(names@) == unwrap_all(parts).take(k as int).flatten(),
        decreases alts.len() - k,
    {
        assert(shapes(alts@)[k as int] == alts[k as int].shape());
        assert(parts[k as int] == keys(shapes(table@), level as nat, alts[k as int].shape()));
        match node_keys(table, level, &alts[k]) {
            Some(more) => {
                extend_words(&mut names, &more);
            },
            None => {
                return None;
            },
        }
        proof {
            let plain = unwrap_all(parts);
            assert(plain.take(k + 1) =~= plain.take(k as int).push(plain[k as int]));
            plain.take(k as int).lemma_flatten_push(plain[k as int]);
        }
        k += 1;
    }
    assert(unwrap_all(parts).take(k as int) =~= unwrap_all(parts));
    Some(names)
}

/// The member names that a node writes into, and reads from, the object that
/// stands for it; nothing for a node whose documents need not be objects
/// with names fixed by the schema.
pub(crate) fn node_keys(table: &Vec<Node>, level: usize, node: &Node) -> (r: Option<Vec<String>>)
    ensures
        keyed_as(r, keys(shapes(table@), level as nat, node.shape())),
    decreases level, node,
{
    match node {
        Node::Record(fields) => gather_field_keys(table, level, fields),
        Node::Tagged { tag, content, branches } => match content {
            Some(c) => {
                let mut names: Vec<String> = Vec::new();
                names.push(tag.clone());
                names.push(c.clone());
                assert(words(names@) =~= seq![tag@, c@]);
                Some(names)
            },
            None => match gather_branch_keys(table, level, branches) {
                Some(more) => {
                    let mut names: Vec<String> = Vec::new();
                    names.push(tag.clone());
                    assert(words(names@) =~= seq![tag@]);
                    extend_words(&mut names, &more);
                    Some(names)
                },
                None => None,
            },
        },
        Node::Untagged(alts) => gather_alt_keys(table, level, alts),
        Node::Ref(j) => if *j < level && *j < table.len() {
            assert(shapes(table@)[*j as int] == table[*j as int].shape());
            node_keys(table, *j, &table[*j])
        } else {
            None
        },
        _ => None,
    }
}

/// Whether each item of a run conforms to `inner`.
fn all_conform(table: &Vec<Node>, inner: &Node, items: &Vec<Instance>) -> (b: bool)
    ensures
        b == forall|i: int|
            0 <= i < items.len() ==> conforms(shapes(table@), table@.len(), inner.shape(), #[trigger] data(items@)[i]),
    decreases items, 0nat, inner,
{
    let mut k: usize = 0;
    while k < items.len()
        invariant
            k <= items.len(),
            forall|i: int|
                0 <= i < k ==> conforms(shapes(table@), table@.len(), inner.shape(), #[trigger] data(items@)[i]),
        decreases items.len() - k,
    {
        if !conforms_to(table, table.len(), inner, &items[k]) {
            assert(!conforms(shapes(table@), table@.len(), inner.shape(), data(items@)[k as int]));
            return false;
        }
        k += 1;
    }
    true
}

/// Whether the value of each entry of a map conforms to `inner`.
fn all_entries_conform(table: &Vec<Node>, inner: &Node, entries: &Vec<(String, Instance)>) -> (b: bool)
    ensures
        b == forall|i: int|
            0 <= i < entries.len() ==> conforms(
                shapes(table@),
                table@.len(),
                inner.shape(),
                (#[trigger] named_data(entries@)[i]).1,
            ),
    decreases entries, 0nat, inner,
{
    let mut k: usize = 0;
    while k < entries.len()
        invariant
            k <= entries.len(),
            forall|i: int|
                0 <= i < k ==> conforms(
                    shapes(table@),
                    table@.len(),
                    inner.shape(),
                    (#[trigger] named_data(entries@)[i]).1,
                ),
        decreases entries.len() - k,
    {
        if !conforms_to(table, table.len(), inner, &entries[k].1) {
            assert(!conforms(shapes(table@), table@.len(), inner.shape(), named_data(entries@)[k as int].1));
            return false;
        }
        k += 1;
    }
    true
}

/// Whether each value conforms to its field.
fn all_fields_conform(table: &Vec<Node>, level: usize, fields: &Vec<Field>, values: &Vec<Instance>) -> (b: bool)
    requires
        values.len() == fields.len(),
    ensures
        b == forall|i: int|
            0 <= i < fields.len() ==> conforms(
                shapes(table@),
                if field_shapes(fields@)[i].rule is Flatten {
                    level as nat
                } else {
                    table@.len()
                },
                field_shapes(fields@)[i].shape,
                #[trigger] data(values@)[i],
            ),
    decreases values, level, fields,
{
    let mut k: usize = 0;
    while k < fields.len()
        invariant
            k <= fields.len(),
            values.len() == fields.len(),
            forall|i: int|
                0 <= i < k ==> conforms(
                    shapes(table@),
                    if field_shapes(fields@)[i].rule is Flatten {
                        level as nat
                    } else {
                        table@.len()
                    },
                    field_shapes(fields@)[i].shape,
                    #[trigger] data(values@)[i],
                ),
        decreases fields.len() - k,
    {
        let field = &fields[k];
        assert(field_shapes(fields@)[k as int] == field.shape());
        let at = match &field.rule {
            Rule::Flatten => level,
            _ => table.len(),
        };
        if !conforms_to(table, at, &field.node, &values[k]) {
            assert(!conforms(
                shapes(table@),
                if field_shapes(fields@)[k as int].rule is Flatten {
                    level as nat
                } else {
                    table@.len()
                },
                field_shapes(fields@)[k as int].shape,
                data(values@)[k as int],
            ));
            return false;
        }
        k += 1;
    }
    true
}

/// Whether `x` is a value of `node`.
pub(crate) fn conforms_to(table: &Vec<Node>, level: usize, node: &Node, x: &Instance) -> (b: bool)
    ensures
        b == conforms(shapes(table@), level as nat, node.shape(), x@),
    decreases x, level, node,
{
    match node {
        Node::Bool => match x {
            Instance::Bool(_) => true,
            _ => false,
        },
        Node::Int => match x {
            Instance::Int(_) => true,
            _ => false,
        },
        Node::Number => match x {
            Instance::Number(_) => true,
            _ => false,
        },
        Node::Text => match x {
            Instance::Text(_) => true,
            _ => false,
        },
        Node::Keyword(names) => match x {
            Instance::Keyword(i) => {
                assert(words(names@).len() == names.len());
                *i < names.len()
            },
            _ => false,
        },
        Node::Colour => match x {
            Instance::Colour(_) => true,
            _ => false,
        },
        Node::Optional(inner) => match x {
            Instance::Absent => true,
            Instance::Present(y) => conforms_to(table, level, inner, y),
            _ => false,
        },
        Node::List(inner) => match x {
            Instance::List(items) => {
                assert(x@->List_0 == data(items@));
                all_conform(table, inner, items)
            },
            _ => false,
        },
        Node::Dict(inner) => match x {
            Instance::Dict(entries) => {
                assert(x@->Dict_0 == named_data(entries@));
                all_entries_conform(table, inner, entries)
            },
            _ => false,
        },
        Node::Record(fields) => match x {
            Instance::Record(values) => {
                if values.len() != fields.len() {
                    assert(data(values@).len() != field_shapes(fields@).len());
                    return false;
                }
                assert(x@->Record_0 == data(values@));
                assert(node.shape()->Record_0 == field_shapes(fields@));
                all_fields_conform(table, level, fields, values)
            },
            _ => false,
        },
        Node::Tagged { tag, content, branches } => match x {
            Instance::Variant(i, y) => {
                if *i >= branches.len() {
                    assert(branch_shapes(branches@).len() == branches.len());
                    return false;
                }
                assert(branch_shapes(branches@)[*i as int].1 == branches[*i as int].1.shape());
                let at = match content {
                    None => level,
                    Some(_) => table.len(),
                };
                conforms_to(table, at, &branches[*i].1, y)
            },
            _ => false,
        },
        Node::Untagged(alts) => match x {
            Instance::Variant(i, y) => {
                if *i >= alts.len() {
                    assert(shapes(alts@).len() == alts.len());
                    return false;
                }
                assert(shapes(alts@)[*i as int] == alts[*i as int].shape());
                conforms_to(table, level, &alts[*i], y)
            },
            _ => false,
        },
        Node::Ref(j) => {
            if *j < level && *j < table.len() {
                assert(shapes(table@)[*j as int] == table[*j as int].shape());
                conforms_to(table, *j, &table[*j], x)
            } else {
                false
            }
        },
    }
}

/// Whether one field of a record is well defined.
pub(crate) fn check_field(table: &Vec<Node>, level: usize, field: &Field) -> (b: bool)
    ensures
        b == field_ok(shapes(table@), level as nat, field.shape()),
    decreases field, 0nat,
{
    match &field.rule {
        Rule::Required => check_node(table, table.len(), &field.node),
        Rule::Defaulted { default, omit } => check_node(table, table.len(), &field.node) && conforms_to(
            table,
            table.len(),
            &field.node,
            default,
        ),
        Rule::Flatten => check_node(table, level, &field.node) && node_keys(table, level, &field.node).is_some(),
    }
}

/// Whether each field of a record is well defined.
fn check_fields(table: &Vec<Node>, level: usize, fields: &Vec<Field>) -> (b: bool)
    ensures
        b == forall|i: int|
            0 <= i < fields.len() ==> field_ok(shapes(table@), level as nat, #[trigger] field_shapes(fields@)[i]),
    decreases fields, 1nat,
{
    let mut k: usize = 0;
    while k < fields.len()
        invariant
            k <= fields.len(),
            forall|i: int|
                0 <= i < k ==> field_ok(shapes(table@), level as nat, #[trigger] field_shapes(fields@)[i]),
        decreases fields.len() - k,
    {
        assert(field_shapes(fields@)[k as int] == fields[k as int].shape());
        if !check_field(table, level, &fields[k]) {
            return false;
        }
        k += 1;
    }
    true
}

/// Whether each branch of a tagged union is well defined at `level`; where
/// `merged` names the discriminator, also whether each branch has member
/// names fixed by the schema, none of them that of the discriminator.
fn check_branches(table: &Vec<Node>, level: usize, branches: &Vec<(String, Node)>, merged: Option<&String>) -> (b:
    bool)
    ensures
        b == forall|i: int|
            0 <= i < branches.len() ==> {
                &&& shape_ok(shapes(table@), level as nat, (#[trigger] branch_shapes(branches@)[i]).1)
                &&& merged matches Some(tag) ==> keys(shapes(table@), level as nat, branch_shapes(branches@)[i].1)
                    matches Some(names) && !names.contains(tag@)
            },
    decreases branches, 1nat,
{
    let mut k: usize = 0;
    while k < branches.len()
        invariant
            k <= branches.len(),
            forall|i: int|
                0 <= i < k ==> {
                    &&& shape_ok(shapes(table@), level as nat, (#[trigger] branch_shapes(branches@)[i]).1)
                    &&& merged matches Some(tag) ==> keys(
                        shapes(table@),
                        level as nat,
                        branch_shapes(branches@)[i].1,
                    ) matches Some(names) && !names.contains(tag@)
                },
        decreases branches.len() - k,
    {
        assert(branch_shapes(branches@)[k as int].1 == branches[k as int].1.shape());
        if !check_node(table, level, &branches[k].1) {
            return false;
        }
        match merged {
            Some(tag) => match node_keys(table, level, &branches[k].1) {
                Some(names) => {
                    if has_word(&names, tag) {
                        return false;
                    }
                },
                None => {
                    return false;
                },
            },
            None => {},
        }
        k += 1;
    }
    true
}

/// Whether each alternative of an untagged union is well defined.
fn check_alts(table: &Vec<Node>, level: usize, alts: &Vec<Node>) -> (b: bool)
    ensures
        b == forall|i: int| 0 <= i < alts.len() ==> shape_ok(shapes(table@), level as nat, #[trigger] shapes(alts@)[i]),
    decreases alts, 1nat,
{
    let mut k: usize = 0;
    while k < alts.len()
        invariant
            k <= alts.len(),
            forall|i: int| 0 <= i < k ==> shape_ok(shapes(table@), level as nat, #[trigger] shapes(alts@)[i]),
        decreases alts.len() - k,
    {
        assert(shapes(alts@)[k as int] == alts[k as int].shape());
        if !check_node(table, level, &alts[k]) {
            return false;
        }
        k += 1;
    }
    true
}

/// Whether a node is well defined at `level`.
pub(crate) fn check_node(table: &Vec<Node>, level: usize, node: &Node) -> (b: bool)
    ensures
        b == shape_ok(shapes(table@), level as nat, node.shape()),
    decreases node, 1nat,
{
    match node {
        Node::Keyword(names) => distinct(names),
        Node::Optional(inner) => check_node(table, level, inner),
        Node::List(inner) => check_node(table, table.len(), inner),
        Node::Dict(inner) => check_node(table, table.len(), inner),
        Node::Record(fields) => {
            if !check_fields(table, level, fields) {
                return false;
            }
            match node_keys(table, level, node) {
                Some(names) => distinct(&names),
                None => false,
            }
        },
        Node::Tagged { tag, content, branches } => {
            let names = crate::decode::known_tags(branches);
            if !distinct(&names) {
                return false;
            }
            match content {
                Some(c) => {
                    if *c == *tag {
                        return false;
                    }
                    check_branches(table, table.len(), branches, None)
                },
                None => check_branches(table, level, branches, Some(tag)),
            }
        },
        Node::Untagged(alts) => check_alts(table, level, alts),
        Node::Ref(j) => *j < level && *j < table.len(),
        _ => true,
    }
}

} // verus!
