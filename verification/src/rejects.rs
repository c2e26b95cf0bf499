//! When a shape rejects a document, and what a value's document is made of:
//! the facts from which one shows that no alternative of a union that stands
//! before the chosen one accepts the document of the chosen one.

use crate::decode::{collect, decode_spec, field_result, field_results};
use crate::encode::{encode_spec, field_piece, field_pieces, legal};
use crate::error::Failure;
use crate::instance::Datum;
use crate::laws::lemma_no_alternative;
use crate::legal::field_legal;
use crate::lemmas::{has_key, lemma_lookup_absent, lemma_position, lemma_word_index_contains};
use crate::schema::{omits, FieldShape, RuleShape, Shape};
use crate::value::{kind_of, members_of, Json, Kind};
use vstd::prelude::*;

verus! {

/// The one kind of document that a shape accepts, for the shapes that
/// accept one kind only.
pub open spec fn own_kind(shape: Shape) -> Option<Kind> {
    match shape {
        Shape::Bool => Some(Kind::Bool),
        Shape::Int => Some(Kind::Number),
        Shape::Number => Some(Kind::Number),
        Shape::Text => Some(Kind::String),
        Shape::Keyword(_) => Some(Kind::String),
        Shape::Colour => Some(Kind::String),
        Shape::List(_) => Some(Kind::Array),
        Shape::Dict(_) => Some(Kind::Object),
        Shape::Record(_) => Some(Kind::Object),
        Shape::Tagged { .. } => Some(Kind::Object),
        _ => None,
    }
}

/// A shape that accepts one kind of document rejects every other kind.
pub proof fn lemma_wrong_kind(table: Seq<Shape>, level: nat, shape: Shape, v: Json)
    requires
        own_kind(shape) matches Some(k) && kind_of(v) != k,
    ensures
        decode_spec(table, level, shape, v) is Err,
{
}

/// A reference reads what the definition that it names reads.
pub proof fn lemma_follow(table: Seq<Shape>, level: nat, k: nat, v: Json)
    requires
        k < level,
        k < table.len(),
    ensures
        decode_spec(table, level, Shape::Ref(k), v) == decode_spec(table, k, table[k as int], v),
{
}

/// A value is written under a reference as under the definition that it
/// names, and can be read back from the one as from the other.
pub proof fn lemma_written_by_reference(table: Seq<Shape>, level: nat, k: nat, d: Datum)
    requires
        k < level,
        k < table.len(),
    ensures
        encode_spec(table, level, Shape::Ref(k), d) == encode_spec(table, k, table[k as int], d),
        legal(table, level, Shape::Ref(k), d) == legal(table, k, table[k as int], d),
{
}

/// Where one of the results failed, collecting them fails.
pub proof fn lemma_collect_fails(results: Seq<Result<Datum, Failure>>, k: int)
    requires
        0 <= k < results.len(),
        results[k] is Err,
    ensures
        collect(results) is Err,
    decreases results.len(),
{
    if k > 0 && results[0] is Ok {
        let rest = results.drop_first();
        assert(rest[k - 1] == results[k]);
        lemma_collect_fails(rest, k - 1);
    }
}

/// A record rejects an object that lacks one of its required members.
pub proof fn lemma_record_rejects(
    table: Seq<Shape>,
    level: nat,
    fields: Seq<FieldShape>,
    members: Seq<(Seq<char>, Json)>,
    r: int,
)
    requires
        0 <= r < fields.len(),
        fields[r].rule is Required,
        !has_key(members, fields[r].name),
    ensures
        decode_spec(table, level, Shape::Record(fields), Json::Object(members)) is Err,
{
    let results = field_results(table, level, fields, Json::Object(members));
    assert(results[r] == field_result(table, level, fields[r], Json::Object(members)));
    lemma_collect_fails(results, r);
}

/// A tagged union rejects an object that has no member under its
/// discriminator.
pub proof fn lemma_tagged_rejects(
    table: Seq<Shape>,
    level: nat,
    tag: Seq<char>,
    content: Option<Seq<char>>,
    branches: Seq<(Seq<char>, Shape)>,
    members: Seq<(Seq<char>, Json)>,
)
    requires
        !has_key(members, tag),
    ensures
        decode_spec(table, level, Shape::Tagged { tag, content, branches }, Json::Object(members)) is Err,
{
}

/// A list of words rejects a string that is none of them.
pub proof fn lemma_keyword_rejects(table: Seq<Shape>, level: nat, words: Seq<Seq<char>>, s: Seq<char>)
    requires
        !words.contains(s),
    ensures
        decode_spec(table, level, Shape::Keyword(words), Json::String(s)) is Err,
{
    lemma_word_index_contains(words, s);
}

/// An untagged union rejects what all its alternatives reject.
pub proof fn lemma_untagged_rejects(table: Seq<Shape>, level: nat, alts: Seq<Shape>, v: Json)
    requires
        forall|j: int| 0 <= j < alts.len() ==> (#[trigger] decode_spec(table, level, alts[j], v)) is Err,
    ensures
        decode_spec(table, level, Shape::Untagged(alts), v) is Err,
{
    lemma_no_alternative(table, level, alts, v);
}

/// Whether each value can be written under the field at its place and read
/// back.
pub open spec fn fields_legal(table: Seq<Shape>, level: nat, fields: Seq<FieldShape>, values: Seq<Datum>) -> bool {
    &&& values.len() == fields.len()
    &&& forall|i: int| 0 <= i < fields.len() ==> field_legal(table, level, fields[i], #[trigger] values[i])
}

/// No values can be written under no fields.
pub proof fn lemma_no_fields_legal(table: Seq<Shape>, level: nat)
    ensures
        fields_legal(table, level, Seq::empty(), Seq::empty()),
{
}

/// Values that can be written under their fields still can with one more
/// field and a value that can be written under it.
pub proof fn lemma_more_fields_legal(
    table: Seq<Shape>,
    level: nat,
    fields: Seq<FieldShape>,
    values: Seq<Datum>,
    field: FieldShape,
    value: Datum,
)
    requires
        fields_legal(table, level, fields, values),
        field_legal(table, level, field, value),
    ensures
        fields_legal(table, level, fields.push(field), values.push(value)),
{
    let fs = fields.push(field);
    let vs = values.push(value);
    assert forall|i: int| 0 <= i < fs.len() implies field_legal(table, level, fs[i], #[trigger] vs[i]) by {
        if i < fields.len() {
            assert(vs[i] == values[i]);
            assert(fs[i] == fields[i]);
        }
    }
}

/// Values that can be written under the fields of a record make a value
/// that can be written under the record, as an object.
pub proof fn lemma_record_legal(table: Seq<Shape>, level: nat, fields: Seq<FieldShape>, values: Seq<Datum>)
    requires
        fields_legal(table, level, fields, values),
    ensures
        legal(table, level, Shape::Record(fields), Datum::Record(values)),
        encode_spec(table, level, Shape::Record(fields), Datum::Record(values)) is Object,
{
    assert forall|i: int| 0 <= i < fields.len() implies match fields[i].rule {
        RuleShape::Required => legal(table, table.len(), fields[i].shape, #[trigger] values[i]),
        RuleShape::Defaulted { default, omit } => if omits(omit, default, values[i]) {
            values[i] == default
        } else {
            legal(table, table.len(), fields[i].shape, values[i])
        },
        RuleShape::Flatten => legal(table, level, fields[i].shape, values[i]),
    } by {
        assert(field_legal(table, level, fields[i], values[i]));
    }
}

/// Whether none of the members that the fields add to the object of their
/// record is named `key`.
pub open spec fn fields_lack(
    table: Seq<Shape>,
    level: nat,
    fields: Seq<FieldShape>,
    values: Seq<Datum>,
    key: Seq<char>,
) -> bool {
    &&& values.len() == fields.len()
    &&& forall|i: int|
        0 <= i < fields.len() ==> !has_key(field_piece(table, level, #[trigger] fields[i], values[i]), key)
}

/// No fields add no member.
pub proof fn lemma_no_fields_lack(table: Seq<Shape>, level: nat, key: Seq<char>)
    ensures
        fields_lack(table, level, Seq::empty(), Seq::empty(), key),
{
}

/// Fields that add no member of a name still add none with one more field
/// that adds none.
pub proof fn lemma_more_fields_lack(
    table: Seq<Shape>,
    level: nat,
    fields: Seq<FieldShape>,
    values: Seq<Datum>,
    field: FieldShape,
    value: Datum,
    key: Seq<char>,
)
    requires
        fields_lack(table, level, fields, values, key),
        !has_key(field_piece(table, level, field, value), key),
    ensures
        fields_lack(table, level, fields.push(field), values.push(value), key),
{
    let fs = fields.push(field);
    let vs = values.push(value);
    assert forall|i: int| 0 <= i < fs.len() implies !has_key(
        field_piece(table, level, #[trigger] fs[i], vs[i]),
        key,
    ) by {
        if i < fields.len() {
            assert(vs[i] == values[i]);
            assert(fs[i] == fields[i]);
        }
    }
}

/// Where no field adds a member of a name, the object of the record has
/// none.
pub proof fn lemma_record_lacks(
    table: Seq<Shape>,
    level: nat,
    fields: Seq<FieldShape>,
    values: Seq<Datum>,
    key: Seq<char>,
)
    requires
        fields_lack(table, level, fields, values, key),
    ensures
        !has_key(members_of(encode_spec(table, level, Shape::Record(fields), Datum::Record(values))), key),
{
    let pieces = field_pieces(table, level, fields, values);
    assert forall|j: int| 0 <= j < pieces.len() implies !has_key(#[trigger] pieces[j], key) by {
        assert(!has_key(field_piece(table, level, fields[j], values[j]), key));
    }
    lemma_lookup_absent(pieces, key);
}

/// A field that is not flattened adds no member of another name than its
/// own.
pub proof fn lemma_piece_lacks(table: Seq<Shape>, level: nat, field: FieldShape, value: Datum, key: Seq<char>)
    requires
        !(field.rule is Flatten),
        field.name != key,
    ensures
        !has_key(field_piece(table, level, field, value), key),
{
    lemma_position(field_piece(table, level, field, value), key);
}

/// A flattened field adds the members of the object of its record.
pub proof fn lemma_flat_piece(table: Seq<Shape>, level: nat, field: FieldShape, value: Datum)
    requires
        field.rule is Flatten,
    ensures
        field_piece(table, level, field, value) == members_of(encode_spec(table, level, field.shape, value)),
{
}

} // verus!
