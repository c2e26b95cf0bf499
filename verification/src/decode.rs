//! From documents to decoded values.

use crate::error::{Cause, DecodeError, ErrorKind, Expected, Failure};
use crate::instance::{data, named_data, Datum, Instance};
use crate::lemmas::{
    lemma_collect_err, lemma_collect_ok, lemma_first_ok, lemma_position_is, lemma_position_none, lemma_word_index,
};
use crate::minecraft::text::{parse_hex, HexColour};
use crate::schema::{
    branch_names, branch_shapes, field_ok, field_shapes, shape_ok, shapes, table_ok, word_index, Field, FieldShape,
    Node, Rule, RuleShape, Shape,
};
use crate::value::{int_of, jsons, named_jsons, position, words, Json, Number, Value};
use vstd::prelude::*;

verus! {

/// The first failure among `results`, or all their values if none failed.
pub open spec fn collect(results: Seq<Result<Datum, Failure>>) -> Result<Seq<Datum>, Failure>
    decreases results.len(),
{
    if results.len() == 0 {
        Ok(Seq::empty())
    } else {
        match results[0] {
            Err(e) => Err(e),
            Ok(d) => match collect(results.drop_first()) {
                Err(e) => Err(e),
                Ok(ds) => Ok(seq![d] + ds),
            },
        }
    }
}

/// The place of the first success among `results`, or their number if all
/// failed.
pub open spec fn first_ok(results: Seq<Result<Datum, Failure>>) -> nat
    decreases results.len(),
{
    if results.len() == 0 {
        0
    } else if results[0] is Ok {
        0
    } else {
        1 + first_ok(results.drop_first())
    }
}

/// A failure because the value in hand is of another kind than `expected`.
pub open spec fn mismatch(expected: Expected) -> Failure {
    Failure::here(Cause::Mismatch { expected })
}

/// The same result, with a failure placed under the field `name`.
pub open spec fn within(r: Result<Datum, Failure>, name: Seq<char>) -> Result<Datum, Failure> {
    match r {
        Ok(d) => Ok(d),
        Err(e) => Err(e.under(name)),
    }
}

/// The value of one field of a record, read from the object `v` of the
/// record: the member under its name, its default where that member is
/// missing, or, for a flattened field, the nested record read from `v` itself.
pub open spec fn field_result(table: Seq<Shape>, level: nat, field: FieldShape, v: Json) -> Result<Datum, Failure>
    decreases v, level, field,
{
    match v {
        Json::Object(members) => {
            let p = position(members, field.name);
            match field.rule {
                RuleShape::Flatten => decode_spec(table, level, field.shape, v),
                RuleShape::Required => if p < members.len() {
                    within(decode_spec(table, table.len(), field.shape, members[p as int].1), field.name)
                } else {
                    Err(Failure::here(Cause::MissingRequiredField { name: field.name }))
                },
                RuleShape::Defaulted { default, omit } => if p < members.len() {
                    within(decode_spec(table, table.len(), field.shape, members[p as int].1), field.name)
                } else {
                    Ok(default)
                },
            }
        },
        _ => Err(mismatch(Expected::Object)),
    }
}

/// The entries of a map: the names of `members`, each with its decoded value.
pub open spec fn zip_entries(members: Seq<(Seq<char>, Json)>, ds: Seq<Datum>) -> Seq<(Seq<char>, Datum)> {
    Seq::new(members.len(), |i: int| (members[i].0, ds[i]))
}

/// What each field of a record reads from the object `v`.
pub open spec fn field_results(table: Seq<Shape>, level: nat, fields: Seq<FieldShape>, v: Json) -> Seq<
    Result<Datum, Failure>,
>
    decreases v, level, fields,
{
    Seq::new(
        fields.len(),
        |i: int|
            if 0 <= i < fields.len() {
                field_result(table, level, fields[i], v)
            } else {
                Err(mismatch(Expected::Object))
            },
    )
}

/// What each item of an array means under the shape of a list's items.
pub open spec fn item_results(table: Seq<Shape>, inner: Shape, items: Seq<Json>) -> Seq<Result<Datum, Failure>>
    decreases items, 0nat, inner,
{
    Seq::new(
        items.len(),
        |i: int|
            if 0 <= i < items.len() {
                decode_spec(table, table.len(), inner, items[i])
            } else {
                Err(mismatch(Expected::Array))
            },
    )
}

/// What each member of an object means under the shape of a map's values.
pub open spec fn entry_results(table: Seq<Shape>, inner: Shape, members: Seq<(Seq<char>, Json)>) -> Seq<
    Result<Datum, Failure>,
>
    decreases members, 0nat, inner,
{
    Seq::new(
        members.len(),
        |i: int|
            if 0 <= i < members.len() {
                within(decode_spec(table, table.len(), inner, members[i].1), members[i].0)
            } else {
                Err(mismatch(Expected::Object))
            },
    )
}

/// What the document `v` means under each alternative of an untagged union.
pub open spec fn alt_results(table: Seq<Shape>, level: nat, alts: Seq<Shape>, v: Json) -> Seq<
    Result<Datum, Failure>,
>
    decreases v, level, alts,
{
    Seq::new(
        alts.len(),
        |i: int|
            if 0 <= i < alts.len() {
                decode_spec(table, level, alts[i], v)
            } else {
                Err(mismatch(Expected::Object))
            },
    )
}

/// What the document `v` means under `shape`, or why it means nothing.
pub open spec fn decode_spec(table: Seq<Shape>, level: nat, shape: Shape, v: Json) -> Result<Datum, Failure>
    decreases v, level, shape,
{
    match shape {
        Shape::Bool => match v {
            Json::Bool(b) => Ok(Datum::Bool(b)),
            _ => Err(mismatch(Expected::Bool)),
        },
        Shape::Int => match v {
            Json::Number(n) => match int_of(n) {
                Some(i) => Ok(Datum::Int(i)),
                None => Err(mismatch(Expected::Integer)),
            },
            _ => Err(mismatch(Expected::Integer)),
        },
        Shape::Number => match v {
            Json::Number(n) => Ok(Datum::Number(n)),
            _ => Err(mismatch(Expected::Number)),
        },
        Shape::Text => match v {
            Json::String(s) => Ok(Datum::Text(s)),
            _ => Err(mismatch(Expected::String)),
        },
        Shape::Keyword(words) => match v {
            Json::String(s) => {
                let i = word_index(words, s);
                if i < words.len() {
                    Ok(Datum::Keyword(i))
                } else {
                    Err(Failure::here(Cause::UnknownVariant { tag: s, known: words }))
                }
            },
            _ => Err(mismatch(Expected::String)),
        },
        Shape::Colour => match v {
            Json::String(s) => match parse_hex(s) {
                Some(c) => Ok(Datum::Colour(c)),
                None => Err(Failure::here(Cause::Format)),
            },
            _ => Err(mismatch(Expected::String)),
        },
        Shape::Optional(inner) => match v {
            Json::Null => Ok(Datum::Absent),
            _ => match decode_spec(table, level, *inner, v) {
                Ok(d) => Ok(Datum::Present(Box::new(d))),
                Err(e) => Err(e),
            },
        },
        Shape::List(inner) => match v {
            Json::Array(items) => match collect(item_results(table, *inner, items)) {
                Ok(ds) => Ok(Datum::List(ds)),
                Err(e) => Err(e),
            },
            _ => Err(mismatch(Expected::Array)),
        },
        Shape::Dict(inner) => match v {
            Json::Object(members) => match collect(entry_results(table, *inner, members)) {
                Ok(ds) => Ok(Datum::Dict(zip_entries(members, ds))),
                Err(e) => Err(e),
            },
            _ => Err(mismatch(Expected::Object)),
        },
        Shape::Record(fields) => match v {
            Json::Object(_) => match collect(field_results(table, level, fields, v)) {
                Ok(ds) => Ok(Datum::Record(ds)),
                Err(e) => Err(e),
            },
            _ => Err(mismatch(Expected::Object)),
        },
        Shape::Tagged { tag, content, branches } => match v {
            Json::Object(members) => {
                let t = position(members, tag);
                if t < members.len() && members[t as int].1 is String {
                    let name = members[t as int].1->String_0;
                    let b = word_index(branch_names(branches), name);
                    if b < branches.len() {
                        match content {
                            None => match decode_spec(table, level, branches[b as int].1, v) {
                                Ok(d) => Ok(Datum::Variant(b, Box::new(d))),
                                Err(e) => Err(e),
                            },
                            Some(c) => {
                                let p = position(members, c);
                                if p < members.len() {
                                    match decode_spec(table, table.len(), branches[b as int].1, members[p as int].1) {
                                        Ok(d) => Ok(Datum::Variant(b, Box::new(d))),
                                        Err(e) => Err(e.under(c)),
                                    }
                                } else {
                                    Err(Failure::here(Cause::MissingRequiredField { name: c }))
                                }
                            },
                        }
                    } else {
                        Err(Failure::here(Cause::UnknownVariant { tag: name, known: branch_names(branches) }))
                    }
                } else {
                    Err(Failure::here(Cause::MissingTag))
                }
            },
            _ => Err(Failure::here(Cause::MissingTag)),
        },
        Shape::Untagged(alts) => {
            let results = alt_results(table, level, alts, v);
            let i = first_ok(results);
            if i < alts.len() {
                Ok(Datum::Variant(i, Box::new(results[i as int]->Ok_0)))
            } else {
                Err(Failure::here(Cause::NoMatchingVariant { tried: alts.len() }))
            }
        },
        Shape::Ref(j) => if j < level && j < table.len() {
            decode_spec(table, j, table[j as int], v)
        } else {
            Err(mismatch(Expected::Object))
        },
    }
}

/// Whether an outcome of decoding has the model `expected`.
pub open spec fn decoded_as(r: Result<Instance, DecodeError>, expected: Result<Datum, Failure>) -> bool {
    match expected {
        Ok(d) => r matches Ok(x) && x@ == d,
        Err(e) => r matches Err(x) && x@ == e,
    }
}

/// Whether an outcome of decoding a run has the model `expected`.
pub open spec fn collected_as(r: Result<Vec<Instance>, DecodeError>, expected: Result<Seq<Datum>, Failure>) -> bool {
    match expected {
        Ok(ds) => r matches Ok(xs) && data(xs@) == ds,
        Err(e) => r matches Err(x) && x@ == e,
    }
}

/// The place of the first member named `key`, or the number of members.
pub(crate) fn find_member(members: &Vec<(String, Value)>, key: &String) -> (p: usize)
    ensures
        p == position(named_jsons(members@), key@),
        p <= members.len(),
{
    let mut k: usize = 0;
    while k < members.len()
        invariant
            k <= members.len(),
            forall|j: int| 0 <= j < k ==> (#[trigger] named_jsons(members@)[j]).0 != key@,
        decreases members.len() - k,
    {
        if members[k].0 == *key {
            proof {
                lemma_position_is(named_jsons(members@), key@, k as int);
            }
            return k;
        }
        k += 1;
    }
    proof {
        lemma_position_none(named_jsons(members@), key@);
    }
    k
}

/// The first place of `word` in `names`, or their number.
pub(crate) fn find_word(names: &Vec<String>, word: &String) -> (p: usize)
    ensures
        p == word_index(words(names@), word@),
        p <= names.len(),
{
    let mut k: usize = 0;
    while k < names.len()
        invariant
            k <= names.len(),
            forall|j: int| 0 <= j < k ==> #[trigger] words(names@)[j] != word@,
        decreases names.len() - k,
    {
        if names[k] == *word {
            proof {
                lemma_word_index(words(names@), word@);
                let p = word_index(words(names@), word@) as int;
                if p > k {
                    assert(words(names@)[k as int] != word@);
                }
            }
            return k;
        }
        k += 1;
    }
    proof {
        lemma_word_index(words(names@), word@);
    }
    k
}

/// The place of the first branch named `word`, or the number of branches.
pub(crate) fn find_branch(branches: &Vec<(String, Node)>, word: &String) -> (p: usize)
    ensures
        p == word_index(branch_names(branch_shapes(branches@)), word@),
        p <= branches.len(),
{
    let ghost names = branch_names(branch_shapes(branches@));
    let mut k: usize = 0;
    while k < branches.len()
        invariant
            k <= branches.len(),
            names == branch_names(branch_shapes(branches@)),
            forall|j: int| 0 <= j < k ==> #[trigger] names[j] != word@,
        decreases branches.len() - k,
    {
        if branches[k].0 == *word {
            proof {
                lemma_word_index(names, word@);
                let p = word_index(names, word@) as int;
                if p > k {
                    assert(names[k as int] != word@);
                }
            }
            return k;
        }
        k += 1;
    }
    proof {
        lemma_word_index(names, word@);
    }
    k
}

/// Copies of a run of strings.
pub(crate) fn copy_words(names: &Vec<String>) -> (copies: Vec<String>)
    ensures
        words(copies@) == words(names@),
{
    let mut copies: Vec<String> = Vec::new();
    let mut k: usize = 0;
    while k < names.len()
        invariant
            k <= names.len(),
            copies.len() == k,
            forall|j: int| 0 <= j < k ==> copies[j]@ == names[j]@,
        decreases names.len() - k,
    {
        copies.push(names[k].clone());
        k += 1;
    }
    assert(words(copies@) =~= words(names@));
    copies
}

/// The names of the branches of a tagged union, in declaration order.
pub(crate) fn known_tags(branches: &Vec<(String, Node)>) -> (names: Vec<String>)
    ensures
        words(names@) == branch_names(branch_shapes(branches@)),
{
    let mut names: Vec<String> = Vec::new();
    let mut k: usize = 0;
    while k < branches.len()
        invariant
            k <= branches.len(),
            names.len() == k,
            forall|j: int| 0 <= j < k ==> names[j]@ == branches[j].0@,
        decreases branches.len() - k,
    {
        names.push(branches[k].0.clone());
        k += 1;
    }
    assert(words(names@) =~= branch_names(branch_shapes(branches@)));
    names
}

/// A failure because the value in hand is of another kind than `expected`.
fn wrong_kind(expected: Expected) -> (e: DecodeError)
    ensures
        e@ == mismatch(expected),
{
    DecodeError::here(ErrorKind::Mismatch { expected })
}

/// Decodes the items of an array, each under the node of a list's items.
pub(crate) fn decode_items(table: &Vec<Node>, inner: &Node, items: &Vec<Value>) -> (r: Result<Vec<Instance>, DecodeError>)
    requires
        table_ok(shapes(table@)),
        shape_ok(shapes(table@), table@.len(), inner.shape()),
    ensures
        collected_as(r, collect(item_results(shapes(table@), inner.shape(), jsons(items@)))),
    decreases items, 0nat, inner,
{
    let ghost results = item_results(shapes(table@), inner.shape(), jsons(items@));
    let mut out: Vec<Instance> = Vec::new();
    let mut k: usize = 0;
    while k < items.len()
        invariant
            k <= items.len(),
            out.len() == k,
            table_ok(shapes(table@)),
            shape_ok(shapes(table@), table@.len(), inner.shape()),
            results == item_results(shapes(table@), inner.shape(), jsons(items@)),
            forall|i: int| 0 <= i < k ==> #[trigger] results[i] == Ok::<Datum, Failure>(data(out@)[i]),
        decreases items.len() - k,
    {
        match decode_node(table, table.len(), inner, &items[k]) {
            Ok(x) => {
                out.push(x);
            },
            Err(e) => {
                proof {
                    lemma_collect_err(results, k as int);
                }
                return Err(e);
            },
        }
        k += 1;
    }
    proof {
        lemma_collect_ok(results, data(out@));
    }
    Ok(out)
}

/// Decodes the members of an object, each under the node of a map's values.
pub(crate) fn decode_entries(table: &Vec<Node>, inner: &Node, members: &Vec<(String, Value)>) -> (r: Result<
    Vec<(String, Instance)>,
    DecodeError,
>)
    requires
        table_ok(shapes(table@)),
        shape_ok(shapes(table@), table@.len(), inner.shape()),
    ensures
        match collect(entry_results(shapes(table@), inner.shape(), named_jsons(members@))) {
            Ok(ds) => r matches Ok(xs) && named_data(xs@) == zip_entries(named_jsons(members@), ds),
            Err(e) => r matches Err(x) && x@ == e,
        },
    decreases members, 0nat, inner,
{
    let ghost results = entry_results(shapes(table@), inner.shape(), named_jsons(members@));
    let mut out: Vec<(String, Instance)> = Vec::new();
    let mut k: usize = 0;
    while k < members.len()
        invariant
            k <= members.len(),
            out.len() == k,
            table_ok(shapes(table@)),
            shape_ok(shapes(table@), table@.len(), inner.shape()),
            results == entry_results(shapes(table@), inner.shape(), named_jsons(members@)),
            forall|i: int| 0 <= i < k ==> #[trigger] results[i] == Ok::<Datum, Failure>(out[i].1@),
            forall|i: int| 0 <= i < k ==> (#[trigger] out[i]).0@ == members[i].0@,
        decreases members.len() - k,
    {
        match decode_node(table, table.len(), inner, &members[k].1) {
            Ok(x) => {
                out.push((members[k].0.clone(), x));
            },
            Err(e) => {
                let e = e.under(&members[k].0);
                proof {
                    lemma_collect_err(results, k as int);
                }
                return Err(e);
            },
        }
        k += 1;
    }
    proof {
        let ds = Seq::new(out@.len(), |i: int| out@[i].1@);
        lemma_collect_ok(results, ds);
        assert(named_data(out@) =~= zip_entries(named_jsons(members@), ds));
    }
    Ok(out)
}

/// Decodes one field of a record from the object `v` of the record.
pub(crate) fn decode_field(table: &Vec<Node>, level: usize, field: &Field, v: &Value) -> (r: Result<Instance, DecodeError>)
    requires
        table_ok(shapes(table@)),
        field_ok(shapes(table@), level as nat, field.shape()),
    ensures
        decoded_as(r, field_result(shapes(table@), level as nat, field.shape(), v@)),
    decreases v, level, field,
{
    match v {
        Value::Object(members) => {
            match &field.rule {
                Rule::Flatten => decode_node(table, level, &field.node, v),
                Rule::Required => {
                    let p = find_member(members, &field.name);
                    if p < members.len() {
                        match decode_node(table, table.len(), &field.node, &members[p].1) {
                            Ok(x) => Ok(x),
                            Err(e) => Err(e.under(&field.name)),
                        }
                    } else {
                        Err(DecodeError::here(ErrorKind::MissingRequiredField { name: field.name.clone() }))
                    }
                },
                Rule::Defaulted { default, omit } => {
                    let p = find_member(members, &field.name);
                    if p < members.len() {
                        match decode_node(table, table.len(), &field.node, &members[p].1) {
                            Ok(x) => Ok(x),
                            Err(e) => Err(e.under(&field.name)),
                        }
                    } else {
                        Ok(default.duplicate())
                    }
                },
            }
        },
        _ => Err(wrong_kind(Expected::Object)),
    }
}

/// Decodes the fields of a record, in declaration order, from the object
/// `v` of the record.
pub(crate) fn decode_fields(table: &Vec<Node>, level: usize, fields: &Vec<Field>, v: &Value) -> (r: Result<
    Vec<Instance>,
    DecodeError,
>)
    requires
        table_ok(shapes(table@)),
        forall|i: int|
            0 <= i < fields.len() ==> field_ok(shapes(table@), level as nat, #[trigger] field_shapes(fields@)[i]),
    ensures
        collected_as(r, collect(field_results(shapes(table@), level as nat, field_shapes(fields@), v@))),
    decreases v, level, fields,
{
    let ghost results = field_results(shapes(table@), level as nat, field_shapes(fields@), v@);
    let mut out: Vec<Instance> = Vec::new();
    let mut k: usize = 0;
    while k < fields.len()
        invariant
            k <= fields.len(),
            out.len() == k,
            table_ok(shapes(table@)),
            forall|i: int|
                0 <= i < fields.len() ==> field_ok(shapes(table@), level as nat, #[trigger] field_shapes(fields@)[i]),
            results == field_results(shapes(table@), level as nat, field_shapes(fields@), v@),
            forall|i: int| 0 <= i < k ==> #[trigger] results[i] == Ok::<Datum, Failure>(data(out@)[i]),
        decreases fields.len() - k,
    {
        assert(field_shapes(fields@)[k as int] == fields[k as int].shape());
        match decode_field(table, level, &fields[k], v) {
            Ok(x) => {
                out.push(x);
            },
            Err(e) => {
                proof {
                    lemma_collect_err(results, k as int);
                }
                return Err(e);
            },
        }
        k += 1;
    }
    proof {
        lemma_collect_ok(results, data(out@));
    }
    Ok(out)
}

/// Tries the alternatives of an untagged union in declaration order and
/// keeps the first that accepts `v`.
pub(crate) fn decode_alts(table: &Vec<Node>, level: usize, alts: &Vec<Node>, v: &Value) -> (r: Result<Instance, DecodeError>)
    requires
        table_ok(shapes(table@)),
        forall|i: int| 0 <= i < alts.len() ==> shape_ok(shapes(table@), level as nat, #[trigger] shapes(alts@)[i]),
    ensures
        decoded_as(r, decode_spec(shapes(table@), level as nat, Shape::Untagged(shapes(alts@)), v@)),
    decreases v, level, alts,
{
    let ghost results = alt_results(shapes(table@), level as nat, shapes(alts@), v@);
    let mut k: usize = 0;
    while k < alts.len()
        invariant
            k <= alts.len(),
            table_ok(shapes(table@)),
            forall|i: int| 0 <= i < alts.len() ==> shape_ok(shapes(table@), level as nat, #[trigger] shapes(alts@)[i]),
            results == alt_results(shapes(table@), level as nat, shapes(alts@), v@),
            forall|i: int| 0 <= i < k ==> (#[trigger] results[i]) is Err,
        decreases alts.len() - k,
    {
        assert(shapes(alts@)[k as int] == alts[k as int].shape());
        match decode_node(table, level, &alts[k], v) {
            Ok(x) => {
                proof {
                    lemma_first_ok(results);
                    assert(results[k as int] is Ok);
                }
                return Ok(Instance::Variant(k, Box::new(x)));
            },
            Err(_) => {},
        }
        k += 1;
    }
    proof {
        lemma_first_ok(results);
    }
    Err(DecodeError::here(ErrorKind::NoMatchingVariant { tried: alts.len() }))
}

/// Decodes the document `v` under `node`.
pub(crate) fn decode_node(table: &Vec<Node>, level: usize, node: &Node, v: &Value) -> (r: Result<Instance, DecodeError>)
    requires
        table_ok(shapes(table@)),
        shape_ok(shapes(table@), level as nat, node.shape()),
    ensures
        decoded_as(r, decode_spec(shapes(table@), level as nat, node.shape(), v@)),
    decreases v, level, node,
{
    match node {
        Node::Bool => match v {
            Value::Bool(b) => Ok(Instance::Bool(*b)),
            _ => Err(wrong_kind(Expected::Bool)),
        },
        Node::Int => match v {
            Value::Number(Number::PosInt(u)) => if *u <= 0x7fff_ffff_ffff_ffff {
                Ok(Instance::Int(*u as i64))
            } else {
                Err(wrong_kind(Expected::Integer))
            },
            Value::Number(Number::NegInt(i)) => Ok(Instance::Int(*i)),
            _ => Err(wrong_kind(Expected::Integer)),
        },
        Node::Number => match v {
            Value::Number(n) => Ok(Instance::Number(*n)),
            _ => Err(wrong_kind(Expected::Number)),
        },
        Node::Text => match v {
            Value::String(s) => Ok(Instance::Text(s.clone())),
            _ => Err(wrong_kind(Expected::String)),
        },
        Node::Keyword(names) => match v {
            Value::String(s) => {
                let i = find_word(names, s);
                if i < names.len() {
                    Ok(Instance::Keyword(i))
                } else {
                    Err(DecodeError::here(ErrorKind::UnknownVariant { tag: s.clone(), known: copy_words(names) }))
                }
            },
            _ => Err(wrong_kind(Expected::String)),
        },
        Node::Colour => match v {
            Value::String(s) => match HexColour::decode(s.as_str()) {
                Ok(c) => Ok(Instance::Colour(c)),
                Err(_) => Err(DecodeError::here(ErrorKind::Format)),
            },
            _ => Err(wrong_kind(Expected::String)),
        },
        Node::Optional(inner) => match v {
            Value::Null => Ok(Instance::Absent),
            _ => match decode_node(table, level, inner, v) {
                Ok(x) => Ok(Instance::Present(Box::new(x))),
                Err(e) => Err(e),
            },
        },
        Node::List(inner) => match v {
            Value::Array(items) => match decode_items(table, inner, items) {
                Ok(xs) => Ok(Instance::List(xs)),
                Err(e) => Err(e),
            },
            _ => Err(wrong_kind(Expected::Array)),
        },
        Node::Dict(inner) => match v {
            Value::Object(members) => match decode_entries(table, inner, members) {
                Ok(xs) => Ok(Instance::Dict(xs)),
                Err(e) => Err(e),
            },
            _ => Err(wrong_kind(Expected::Object)),
        },
        Node::Record(fields) => match v {
            Value::Object(_) => match decode_fields(table, level, fields, v) {
                Ok(xs) => Ok(Instance::Record(xs)),
                Err(e) => Err(e),
            },
            _ => Err(wrong_kind(Expected::Object)),
        },
        Node::Tagged { tag, content, branches } => match v {
            Value::Object(members) => {
                let t = find_member(members, tag);
                if t < members.len() {
                    match &members[t].1 {
                        Value::String(name) => {
                            let b = find_branch(branches, name);
                            if b < branches.len() {
                                assert(branch_shapes(branches@)[b as int].1 == branches[b as int].1.shape());
                                match content {
                                    None => match decode_node(table, level, &branches[b].1, v) {
                                        Ok(x) => Ok(Instance::Variant(b, Box::new(x))),
                                        Err(e) => Err(e),
                                    },
                                    Some(c) => {
                                        let p = find_member(members, c);
                                        if p < members.len() {
                                            match decode_node(table, table.len(), &branches[b].1, &members[p].1) {
                                                Ok(x) => Ok(Instance::Variant(b, Box::new(x))),
                                                Err(e) => Err(e.under(c)),
                                            }
                                        } else {
                                            Err(
                                                DecodeError::here(
                                                    ErrorKind::MissingRequiredField { name: c.clone() },
                                                ),
                                            )
                                        }
                                    },
                                }
                            } else {
                                Err(
                                    DecodeError::here(
                                        ErrorKind::UnknownVariant { tag: name.clone(), known: known_tags(branches) },
                                    ),
                                )
                            }
                        },
                        _ => Err(DecodeError::here(ErrorKind::MissingTag)),
                    }
                } else {
                    Err(DecodeError::here(ErrorKind::MissingTag))
                }
            },
            _ => Err(DecodeError::here(ErrorKind::MissingTag)),
        },
        Node::Untagged(alts) => decode_alts(table, level, alts, v),
        Node::Ref(j) => {
            assert(shapes(table@)[*j as int] == table[*j as int].shape());
            decode_node(table, *j, &table[*j], v)
        },
    }
}

} // verus!
