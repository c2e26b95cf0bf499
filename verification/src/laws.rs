//! The laws of the codec: what is written reads back as itself, canonical
//! documents are written back unchanged, and the first alternative that
//! accepts a document wins.

use crate::decode::{
    alt_results, collect, decode_spec, entry_results, field_result, field_results, first_ok, item_results,
    zip_entries,
};
use crate::encode::{
    conforms, encode_entries_spec, encode_items_spec, encode_spec, field_piece, field_pieces, legal,
};
use crate::error::{Cause, Failure};
use crate::instance::Datum;
use crate::lemmas::{
    has_key, lemma_collect_ok, lemma_collect_values, lemma_first_ok, lemma_flatten_contains,
    lemma_flatten_disjoint, lemma_lookup_absent, lemma_lookup_concat, lemma_lookup_pieces, lemma_position,
    lemma_position_is, lemma_position_none, lemma_word_index_contains, lemma_word_index_unique,
};
use crate::schema::{
    alt_key_parts, branch_key_parts, branch_names, field_key_parts, field_keys, field_ok, gather, keys, omits,
    shape_ok, table_ok, unwrap_all, word_index, FieldShape, RuleShape, Shape,
};
use crate::value::{lookup, members_of, position, Json};
use vstd::prelude::*;

verus! {

/// The names of a part are among the names gathered from all parts.
proof fn lemma_gather_contains(parts: Seq<Option<Seq<Seq<char>>>>, i: int, key: Seq<char>)
    requires
        gather(parts) is Some,
        0 <= i < parts.len(),
        parts[i].unwrap().contains(key),
    ensures
        gather(parts).unwrap().contains(key),
{
    lemma_flatten_contains(unwrap_all(parts), i, key);
}

/// A document written under a shape with fixed member names is an object,
/// and each of its members has one of those names.
pub proof fn lemma_encode_keys(table: Seq<Shape>, level: nat, shape: Shape, d: Datum)
    requires
        table_ok(table),
        shape_ok(table, level, shape),
        keys(table, level, shape) is Some,
        conforms(table, level, shape, d),
    ensures
        encode_spec(table, level, shape, d) is Object,
        forall|key: Seq<char>|
            has_key(members_of(encode_spec(table, level, shape, d)), key) ==> keys(table, level, shape).unwrap().contains(
                key,
            ),
    decreases d, level, shape,
{
    let names = keys(table, level, shape).unwrap();
    let members = members_of(encode_spec(table, level, shape, d));
    match shape {
        Shape::Record(fields) => {
            let values = d->Record_0;
            let pieces = field_pieces(table, level, fields, values);
            let parts = field_key_parts(table, level, fields);
            assert forall|key: Seq<char>| has_key(members, key) implies names.contains(key) by {
                if forall|j: int| 0 <= j < pieces.len() ==> !has_key(#[trigger] pieces[j], key) {
                    lemma_lookup_absent(pieces, key);
                }
                let i = choose|i: int| 0 <= i < pieces.len() && has_key(#[trigger] pieces[i], key);
                lemma_piece_keys(table, level, fields[i], values[i], key);
                assert(parts[i] == field_keys(table, level, fields[i]));
                lemma_gather_contains(parts, i, key);
            }
        },
        Shape::Tagged { tag, content, branches } => {
            let i = d->Variant_0 as int;
            let x = *d->Variant_1;
            match content {
                Some(c) => {
                    assert forall|key: Seq<char>| has_key(members, key) implies names.contains(key) by {
                        lemma_position(members, key);
                        assert(names[0] == tag);
                        assert(names[1] == c);
                    }
                },
                None => {
                    let parts = branch_key_parts(table, level, branches);
                    assert(parts[i] is Some);
                    lemma_encode_keys(table, level, branches[i].1, x);
                    let rest = members_of(encode_spec(table, level, branches[i].1, x));
                    let head = seq![(tag, Json::String(branches[i].0))];
                    assert forall|key: Seq<char>| has_key(members, key) implies names.contains(key) by {
                        lemma_lookup_concat(head, rest, key);
                        if has_key(head, key) {
                            lemma_position(head, key);
                            assert(names[0] == tag);
                        } else {
                            lemma_gather_contains(parts, i, key);
                            let q = choose|q: int| 0 <= q < gather(parts).unwrap().len() && gather(parts).unwrap()[q] == key;
                            assert(names[q + 1] == key);
                        }
                    }
                },
            }
        },
        Shape::Untagged(alts) => {
            let i = d->Variant_0 as int;
            let x = *d->Variant_1;
            let parts = alt_key_parts(table, level, alts);
            assert(parts[i] is Some);
            lemma_encode_keys(table, level, alts[i], x);
            assert forall|key: Seq<char>| has_key(members, key) implies names.contains(key) by {
                lemma_gather_contains(parts, i, key);
            }
        },
        Shape::Ref(j) => {
            lemma_encode_keys(table, j, table[j as int], d);
        },
        _ => {},
    }
}

/// Each member that a field adds to its record has one of the field's names.
proof fn lemma_piece_keys(table: Seq<Shape>, level: nat, field: FieldShape, d: Datum, key: Seq<char>)
    requires
        table_ok(table),
        field_ok(table, level, field),
        conforms(table, if field.rule is Flatten { level } else { table.len() }, field.shape, d),
        has_key(field_piece(table, level, field, d), key),
    ensures
        field_keys(table, level, field) is Some,
        field_keys(table, level, field).unwrap().contains(key),
    decreases d, level + table.len() + 1, field,
{
    let piece = field_piece(table, level, field, d);
    lemma_position(piece, key);
    match field.rule {
        RuleShape::Flatten => {
            lemma_encode_keys(table, level, field.shape, d);
        },
        _ => {
            assert(seq![field.name][0] == key);
        },
    }
}

/// Whether two member lists give the same value for each of `names`.
pub open spec fn agree(a: Seq<(Seq<char>, Json)>, b: Seq<(Seq<char>, Json)>, names: Seq<Seq<char>>) -> bool {
    forall|key: Seq<char>| #[trigger] names.contains(key) ==> lookup(a, key) == lookup(b, key)
}

/// Lists that agree on all names gathered agree on the names of each part.
proof fn lemma_agree_part(
    a: Seq<(Seq<char>, Json)>,
    b: Seq<(Seq<char>, Json)>,
    parts: Seq<Option<Seq<Seq<char>>>>,
    i: int,
)
    requires
        gather(parts) is Some,
        agree(a, b, gather(parts).unwrap()),
        0 <= i < parts.len(),
    ensures
        parts[i] is Some,
        agree(a, b, parts[i].unwrap()),
{
    assert forall|key: Seq<char>| #[trigger] parts[i].unwrap().contains(key) implies lookup(a, key) == lookup(
        b,
        key,
    ) by {
        lemma_gather_contains(parts, i, key);
    }
}

/// A shape with fixed member names reads from an object only the members of
/// those names: objects that agree on them mean the same.
pub proof fn lemma_irrelevant(
    table: Seq<Shape>,
    level: nat,
    shape: Shape,
    a: Seq<(Seq<char>, Json)>,
    b: Seq<(Seq<char>, Json)>,
)
    requires
        table_ok(table),
        shape_ok(table, level, shape),
        keys(table, level, shape) is Some,
        agree(a, b, keys(table, level, shape).unwrap()),
    ensures
        decode_spec(table, level, shape, Json::Object(a)) == decode_spec(table, level, shape, Json::Object(b)),
    decreases level, shape,
{
    let names = keys(table, level, shape).unwrap();
    let va = Json::Object(a);
    let vb = Json::Object(b);
    match shape {
        Shape::Record(fields) => {
            let parts = field_key_parts(table, level, fields);
            assert forall|i: int| 0 <= i < fields.len() implies field_result(table, level, fields[i], va)
                == field_result(table, level, fields[i], vb) by {
                lemma_agree_part(a, b, parts, i);
                lemma_field_irrelevant(table, level, fields[i], a, b);
            }
            assert(field_results(table, level, fields, va) =~= field_results(table, level, fields, vb));
        },
        Shape::Tagged { tag, content, branches } => {
            assert(names[0] == tag);
            assert(names.contains(tag));
            assert(lookup(a, tag) == lookup(b, tag));
            let t = position(a, tag);
            if t < a.len() && a[t as int].1 is String {
                let name = a[t as int].1->String_0;
                let k = word_index(branch_names(branches), name);
                if k < branches.len() {
                    match content {
                        Some(c) => {
                            assert(names[1] == c);
                            assert(names.contains(c));
                        },
                        None => {
                            let parts = branch_key_parts(table, level, branches);
                            assert forall|key: Seq<char>| #[trigger]
                                gather(parts).unwrap().contains(key) implies lookup(a, key) == lookup(b, key) by {
                                let q = choose|q: int|
                                    0 <= q < gather(parts).unwrap().len() && gather(parts).unwrap()[q] == key;
                                assert(names[q + 1] == key);
                                assert(names.contains(key));
                            }
                            lemma_agree_part(a, b, parts, k as int);
                            lemma_irrelevant(table, level, branches[k as int].1, a, b);
                        },
                    }
                }
            }
        },
        Shape::Untagged(alts) => {
            let parts = alt_key_parts(table, level, alts);
            assert forall|i: int| 0 <= i < alts.len() implies decode_spec(table, level, alts[i], va) == decode_spec(
                table,
                level,
                alts[i],
                vb,
            ) by {
                lemma_agree_part(a, b, parts, i);
                lemma_irrelevant(table, level, alts[i], a, b);
            }
            assert(alt_results(table, level, alts, va) =~= alt_results(table, level, alts, vb));
        },
        Shape::Ref(j) => {
            lemma_irrelevant(table, j, table[j as int], a, b);
        },
        _ => {},
    }
}

/// A field reads from the object of its record only the members of its own
/// names.
proof fn lemma_field_irrelevant(
    table: Seq<Shape>,
    level: nat,
    field: FieldShape,
    a: Seq<(Seq<char>, Json)>,
    b: Seq<(Seq<char>, Json)>,
)
    requires
        table_ok(table),
        field_ok(table, level, field),
        field_keys(table, level, field) is Some,
        agree(a, b, field_keys(table, level, field).unwrap()),
    ensures
        field_result(table, level, field, Json::Object(a)) == field_result(table, level, field, Json::Object(b)),
    decreases level, field,
{
    match field.rule {
        RuleShape::Flatten => {
            lemma_irrelevant(table, level, field.shape, a, b);
        },
        _ => {
            let names = field_keys(table, level, field).unwrap();
            assert(names[0] == field.name);
            assert(names.contains(field.name));
        },
    }
}

/// A value that can be written and read back conforms to its shape.
pub proof fn lemma_legal_conforms(table: Seq<Shape>, level: nat, shape: Shape, d: Datum)
    requires
        table_ok(table),
        shape_ok(table, level, shape),
        legal(table, level, shape, d),
    ensures
        conforms(table, level, shape, d),
    decreases d, level, shape,
{
    match shape {
        Shape::Optional(inner) => {
            if d is Present {
                lemma_legal_conforms(table, level, *inner, *d->Present_0);
            }
        },
        Shape::List(inner) => {
            let items = d->List_0;
            assert forall|i: int| 0 <= i < items.len() implies conforms(
                table,
                table.len(),
                *inner,
                #[trigger] items[i],
            ) by {
                lemma_legal_conforms(table, table.len(), *inner, items[i]);
            }
        },
        Shape::Dict(inner) => {
            let entries = d->Dict_0;
            assert forall|i: int| 0 <= i < entries.len() implies conforms(
                table,
                table.len(),
                *inner,
                (#[trigger] entries[i]).1,
            ) by {
                lemma_legal_conforms(table, table.len(), *inner, entries[i].1);
            }
        },
        Shape::Record(fields) => {
            let values = d->Record_0;
            assert forall|i: int| 0 <= i < fields.len() implies conforms(
                table,
                if fields[i].rule is Flatten {
                    level
                } else {
                    table.len()
                },
                fields[i].shape,
                #[trigger] values[i],
            ) by {
                assert(field_ok(table, level, fields[i]));
                match fields[i].rule {
                    RuleShape::Required => {
                        lemma_legal_conforms(table, table.len(), fields[i].shape, values[i]);
                    },
                    RuleShape::Defaulted { default, omit } => {
                        if !omits(omit, default, values[i]) {
                            lemma_legal_conforms(table, table.len(), fields[i].shape, values[i]);
                        }
                    },
                    RuleShape::Flatten => {
                        lemma_legal_conforms(table, level, fields[i].shape, values[i]);
                    },
                }
            }
        },
        Shape::Tagged { tag, content, branches } => {
            let i = d->Variant_0 as int;
            assert(shape_ok(table, if content is None { level } else { table.len() }, branches[i].1));
            lemma_legal_conforms(
                table,
                if content is None {
                    level
                } else {
                    table.len()
                },
                branches[i].1,
                *d->Variant_1,
            );
        },
        Shape::Untagged(alts) => {
            lemma_legal_conforms(table, level, alts[d->Variant_0 as int], *d->Variant_1);
        },
        Shape::Ref(j) => {
            lemma_legal_conforms(table, j, table[j as int], d);
        },
        _ => {},
    }
}

/// Round-trip law: a value that is written under its shape reads back as
/// itself.
pub proof fn lemma_round_trip(table: Seq<Shape>, level: nat, shape: Shape, d: Datum)
    requires
        table_ok(table),
        shape_ok(table, level, shape),
        legal(table, level, shape, d),
    ensures
        decode_spec(table, level, shape, encode_spec(table, level, shape, d)) == Ok::<Datum, Failure>(d),
    decreases d, level, shape, 1nat,
{
    let v = encode_spec(table, level, shape, d);
    match shape {
        Shape::Keyword(words) => {
            lemma_word_index_unique(words, d->Keyword_0 as int);
        },
        Shape::Colour => {
            crate::minecraft::text::lemma_hex_round_trip(d->Colour_0);
        },
        Shape::Optional(inner) => {
            if d is Present {
                lemma_round_trip(table, level, *inner, *d->Present_0);
            }
        },
        Shape::List(inner) => {
            let items = d->List_0;
            let results = item_results(table, *inner, encode_items_spec(table, *inner, items));
            assert forall|i: int| 0 <= i < results.len() implies #[trigger] results[i] == Ok::<Datum, Failure>(
                items[i],
            ) by {
                lemma_round_trip(table, table.len(), *inner, items[i]);
            }
            lemma_collect_ok(results, items);
        },
        Shape::Dict(inner) => {
            let entries = d->Dict_0;
            let members = encode_entries_spec(table, *inner, entries);
            let results = entry_results(table, *inner, members);
            let values = Seq::new(entries.len(), |i: int| entries[i].1);
            assert forall|i: int| 0 <= i < results.len() implies #[trigger] results[i] == Ok::<Datum, Failure>(
                values[i],
            ) by {
                lemma_round_trip(table, table.len(), *inner, entries[i].1);
            }
            lemma_collect_ok(results, values);
            assert(zip_entries(members, values) =~= entries);
        },
        Shape::Record(fields) => {
            let values = d->Record_0;
            let results = field_results(table, level, fields, v);
            assert forall|i: int| 0 <= i < results.len() implies #[trigger] results[i] == Ok::<Datum, Failure>(
                values[i],
            ) by {
                lemma_field_round_trip(table, level, fields, values, i);
            }
            lemma_collect_ok(results, values);
        },
        Shape::Tagged { tag, content, branches } => {
            let i = d->Variant_0 as int;
            let x = *d->Variant_1;
            let members = members_of(v);
            let head = (tag, Json::String(branches[i].0));
            assert(members[0] == head);
            assert(branch_names(branches)[i] == branches[i].0);
            lemma_word_index_unique(branch_names(branches), i);
            match content {
                Some(c) => {
                    lemma_position_is(members, c, 1);
                    lemma_round_trip(table, table.len(), branches[i].1, x);
                },
                None => {
                    lemma_legal_conforms(table, level, branches[i].1, x);
                    lemma_encode_keys(table, level, branches[i].1, x);
                    let rest = members_of(encode_spec(table, level, branches[i].1, x));
                    let names = keys(table, level, branches[i].1).unwrap();
                    assert forall|key: Seq<char>| #[trigger] names.contains(key) implies lookup(members, key)
                        == lookup(rest, key) by {
                        lemma_lookup_concat(seq![head], rest, key);
                        lemma_position_none(seq![head], key);
                    }
                    lemma_irrelevant(table, level, branches[i].1, members, rest);
                    lemma_round_trip(table, level, branches[i].1, x);
                },
            }
        },
        Shape::Untagged(alts) => {
            let i = d->Variant_0 as int;
            let x = *d->Variant_1;
            let results = alt_results(table, level, alts, v);
            lemma_round_trip(table, level, alts[i], x);
            lemma_first_ok(results);
            assert(results[i] is Ok);
            let f = first_ok(results) as int;
            if f < i {
                assert(results[f] == decode_spec(table, level, alts[f], encode_spec(table, level, alts[i], x)));
            }
        },
        Shape::Ref(j) => {
            lemma_round_trip(table, j, table[j as int], d);
        },
        _ => {},
    }
}

/// Each field of a record reads its own value back from the object that the
/// record was written to.
proof fn lemma_field_round_trip(table: Seq<Shape>, level: nat, fields: Seq<FieldShape>, values: Seq<Datum>, i: int)
    requires
        table_ok(table),
        shape_ok(table, level, Shape::Record(fields)),
        legal(table, level, Shape::Record(fields), Datum::Record(values)),
        0 <= i < fields.len(),
    ensures
        field_result(
            table,
            level,
            fields[i],
            encode_spec(table, level, Shape::Record(fields), Datum::Record(values)),
        ) == Ok::<Datum, Failure>(values[i]),
    decreases Datum::Record(values), level, Shape::Record(fields), 0nat,
{
    let shape = Shape::Record(fields);
    let d = Datum::Record(values);
    let pieces = field_pieces(table, level, fields, values);
    let members = pieces.flatten();
    let field = fields[i];
    lemma_legal_conforms(table, level, shape, d);
    assert(field_ok(table, level, field));
    let own = field_keys(table, level, field).unwrap();
    assert forall|key: Seq<char>| #[trigger] own.contains(key) implies lookup(members, key) == lookup(
        pieces[i],
        key,
    ) by {
        lemma_own_keys(table, level, fields, values, i, key);
    }
    match field.rule {
        RuleShape::Flatten => {
            lemma_encode_keys(table, level, field.shape, values[i]);
            lemma_irrelevant(table, level, field.shape, members, pieces[i]);
            lemma_round_trip(table, level, field.shape, values[i]);
        },
        RuleShape::Required => {
            assert(own[0] == field.name);
            assert(own.contains(field.name));
            lemma_position_is(pieces[i], field.name, 0);
            lemma_round_trip(table, table.len(), field.shape, values[i]);
        },
        RuleShape::Defaulted { default, omit } => {
            assert(own[0] == field.name);
            assert(own.contains(field.name));
            if !omits(omit, default, values[i]) {
                lemma_position_is(pieces[i], field.name, 0);
                lemma_round_trip(table, table.len(), field.shape, values[i]);
            }
        },
    }
}

/// Whether a document is in canonical form under a shape: it is what the
/// encoder writes for some value that can be written and read back, with
/// members in declaration order and without those that the rules leave out.
pub open spec fn canonical(table: Seq<Shape>, level: nat, shape: Shape, v: Json) -> bool {
    exists|d: Datum| legal(table, level, shape, d) && #[trigger] encode_spec(table, level, shape, d) == v
}

/// Canonical-form law: a document in canonical form can be read, and what
/// was read is written back as the same document.
pub proof fn lemma_canonical_form(table: Seq<Shape>, level: nat, shape: Shape, v: Json)
    requires
        table_ok(table),
        shape_ok(table, level, shape),
        canonical(table, level, shape, v),
    ensures
        decode_spec(table, level, shape, v) is Ok,
        encode_spec(table, level, shape, decode_spec(table, level, shape, v)->Ok_0) == v,
{
    let d = choose|d: Datum| legal(table, level, shape, d) && #[trigger] encode_spec(table, level, shape, d) == v;
    lemma_round_trip(table, level, shape, d);
}

/// Variant determinism: the alternative that accepts a document while all
/// those declared before it reject it is the one chosen, with its result.
pub proof fn lemma_first_alternative_wins(table: Seq<Shape>, level: nat, alts: Seq<Shape>, v: Json, a: int)
    requires
        0 <= a < alts.len(),
        decode_spec(table, level, alts[a], v) is Ok,
        forall|j: int| 0 <= j < a ==> (#[trigger] decode_spec(table, level, alts[j], v)) is Err,
    ensures
        decode_spec(table, level, Shape::Untagged(alts), v) == Ok::<Datum, Failure>(
            Datum::Variant(a as nat, Box::new(decode_spec(table, level, alts[a], v)->Ok_0)),
        ),
{
    let results = alt_results(table, level, alts, v);
    lemma_first_ok(results);
    assert(results[a] is Ok);
    let f = first_ok(results) as int;
    if f < a {
        assert(results[f] == decode_spec(table, level, alts[f], v));
    }
}

/// Variant determinism: where two alternatives both accept a document, the
/// one declared later is never chosen.
pub proof fn lemma_later_alternative_loses(table: Seq<Shape>, level: nat, alts: Seq<Shape>, v: Json, a: int, b: int)
    requires
        0 <= a < b < alts.len(),
        decode_spec(table, level, alts[a], v) is Ok,
        decode_spec(table, level, alts[b], v) is Ok,
    ensures
        decode_spec(table, level, Shape::Untagged(alts), v) matches Ok(Datum::Variant(i, _)) && i <= a,
{
    let results = alt_results(table, level, alts, v);
    lemma_first_ok(results);
    assert(results[a] is Ok);
}

/// An untagged union rejects a document iff all its alternatives do, and
/// then says how many it tried.
pub proof fn lemma_no_alternative(table: Seq<Shape>, level: nat, alts: Seq<Shape>, v: Json)
    ensures
        decode_spec(table, level, Shape::Untagged(alts), v) is Err <==> forall|j: int|
            0 <= j < alts.len() ==> (#[trigger] decode_spec(table, level, alts[j], v)) is Err,
        decode_spec(table, level, Shape::Untagged(alts), v) matches Err(e) ==> e == Failure::here(
            Cause::NoMatchingVariant { tried: alts.len() },
        ),
{
    let results = alt_results(table, level, alts, v);
    lemma_first_ok(results);
    let f = first_ok(results) as int;
    if f < alts.len() {
        assert(results[f] == decode_spec(table, level, alts[f], v));
    } else {
        assert forall|j: int| 0 <= j < alts.len() implies (#[trigger] decode_spec(table, level, alts[j], v)) is Err by {
            assert(results[j] is Err);
        }
    }
}

/// Unknown tag: an object whose discriminator is a string that names no
/// branch is rejected as an unknown variant, with that string and the names
/// of the branches.
pub proof fn lemma_unknown_tag(
    table: Seq<Shape>,
    level: nat,
    tag: Seq<char>,
    content: Option<Seq<char>>,
    branches: Seq<(Seq<char>, Shape)>,
    members: Seq<(Seq<char>, Json)>,
    word: Seq<char>,
)
    requires
        lookup(members, tag) == Some(Json::String(word)),
        !branch_names(branches).contains(word),
    ensures
        decode_spec(table, level, Shape::Tagged { tag, content, branches }, Json::Object(members)) == Err::<
            Datum,
            Failure,
        >(Failure::here(Cause::UnknownVariant { tag: word, known: branch_names(branches) })),
{
    lemma_word_index_contains(branch_names(branches), word);
}

/// A tagged union rejects what is no object, and an object without a string
/// under the discriminator, as lacking its tag.
pub proof fn lemma_missing_tag(
    table: Seq<Shape>,
    level: nat,
    tag: Seq<char>,
    content: Option<Seq<char>>,
    branches: Seq<(Seq<char>, Shape)>,
    v: Json,
)
    requires
        !(v is Object) || !(lookup(members_of(v), tag) matches Some(Json::String(_))),
    ensures
        decode_spec(table, level, Shape::Tagged { tag, content, branches }, v) == Err::<Datum, Failure>(
            Failure::here(Cause::MissingTag),
        ),
{
}

/// Default elision, reading: where the object has no member of a field's
/// name, a field with a default reads as that default, and a required
/// field fails as missing.
pub proof fn lemma_absent_field(table: Seq<Shape>, level: nat, field: FieldShape, members: Seq<(Seq<char>, Json)>)
    requires
        !has_key(members, field.name),
    ensures
        field.rule matches RuleShape::Defaulted { default, omit } ==> field_result(
            table,
            level,
            field,
            Json::Object(members),
        ) == Ok::<Datum, Failure>(default),
        field.rule is Required ==> field_result(table, level, field, Json::Object(members)) == Err::<
            Datum,
            Failure,
        >(Failure::here(Cause::MissingRequiredField { name: field.name })),
{
}

/// Default elision, writing: the object of a record has a member of a
/// field's name iff the field is not flattened and its rule does not leave
/// the value out, and then that member holds the value's document.
pub proof fn lemma_field_written(table: Seq<Shape>, level: nat, fields: Seq<FieldShape>, values: Seq<Datum>, i: int)
    requires
        table_ok(table),
        shape_ok(table, level, Shape::Record(fields)),
        conforms(table, level, Shape::Record(fields), Datum::Record(values)),
        0 <= i < fields.len(),
        !(fields[i].rule is Flatten),
    ensures
        ({
            let members = members_of(encode_spec(table, level, Shape::Record(fields), Datum::Record(values)));
            let left_out = fields[i].rule matches RuleShape::Defaulted { default, omit } && omits(
                omit,
                default,
                values[i],
            );
            lookup(members, fields[i].name) == if left_out {
                None
            } else {
                Some(encode_spec(table, table.len(), fields[i].shape, values[i]))
            }
        }),
{
    let pieces = field_pieces(table, level, fields, values);
    let members = pieces.flatten();
    assert(field_keys(table, level, fields[i]).unwrap()[0] == fields[i].name);
    lemma_own_keys(table, level, fields, values, i, fields[i].name);
    let left_out = fields[i].rule matches RuleShape::Defaulted { default, omit } && omits(omit, default, values[i]);
    if !left_out {
        lemma_position_is(pieces[i], fields[i].name, 0);
    }
}

/// In the object of a record, a name of one field is looked up in the
/// members that this field added: no other field adds a member of that name.
proof fn lemma_own_keys(
    table: Seq<Shape>,
    level: nat,
    fields: Seq<FieldShape>,
    values: Seq<Datum>,
    i: int,
    key: Seq<char>,
)
    requires
        table_ok(table),
        shape_ok(table, level, Shape::Record(fields)),
        conforms(table, level, Shape::Record(fields), Datum::Record(values)),
        0 <= i < fields.len(),
        field_keys(table, level, fields[i]) matches Some(own) && own.contains(key),
    ensures
        lookup(field_pieces(table, level, fields, values).flatten(), key) == lookup(
            field_pieces(table, level, fields, values)[i],
            key,
        ),
        has_key(field_pieces(table, level, fields, values).flatten(), key) == has_key(
            field_pieces(table, level, fields, values)[i],
            key,
        ),
{
    let pieces = field_pieces(table, level, fields, values);
    let parts = field_key_parts(table, level, fields);
    assert(parts[i] == field_keys(table, level, fields[i]));
    assert forall|j: int| 0 <= j < pieces.len() && j != i implies !has_key(#[trigger] pieces[j], key) by {
        if has_key(pieces[j], key) {
            assert(field_ok(table, level, fields[j]));
            assert(conforms(
                table,
                if fields[j].rule is Flatten {
                    level
                } else {
                    table.len()
                },
                fields[j].shape,
                values[j],
            ));
            lemma_piece_keys(table, level, fields[j], values[j], key);
            assert(parts[j] == field_keys(table, level, fields[j]));
            assert(unwrap_all(parts)[i] == parts[i].unwrap());
            assert(unwrap_all(parts)[j] == parts[j].unwrap());
            if i < j {
                lemma_flatten_disjoint(unwrap_all(parts), i, j, key);
            } else {
                lemma_flatten_disjoint(unwrap_all(parts), j, i, key);
            }
        }
    }
    lemma_lookup_pieces(pieces, i, key);
}

/// Flatten collision: a record in whose object two members may have the
/// same name, its own or those of the records that it flattens, makes the
/// table that holds it ill defined.
pub proof fn lemma_collision_rejected(table: Seq<Shape>, i: int, fields: Seq<FieldShape>)
    requires
        0 <= i < table.len(),
        table[i] == Shape::Record(fields),
        keys(table, i as nat, table[i]) matches Some(names) ==> !names.no_duplicates(),
    ensures
        !table_ok(table),
{
}

/// What a document means under a shape is a value of that shape.
pub proof fn lemma_decode_conforms(table: Seq<Shape>, level: nat, shape: Shape, v: Json)
    requires
        table_ok(table),
        shape_ok(table, level, shape),
        decode_spec(table, level, shape, v) is Ok,
    ensures
        conforms(table, level, shape, decode_spec(table, level, shape, v)->Ok_0),
    decreases v, level, shape,
{
    let d = decode_spec(table, level, shape, v)->Ok_0;
    match shape {
        Shape::Keyword(words) => {},
        Shape::Optional(inner) => {
            if !(v is Null) {
                lemma_decode_conforms(table, level, *inner, v);
            }
        },
        Shape::List(inner) => {
            let items = v->Array_0;
            let results = item_results(table, *inner, items);
            lemma_collect_values(results);
            let ds = d->List_0;
            assert forall|i: int| 0 <= i < ds.len() implies conforms(table, table.len(), *inner, #[trigger] ds[i]) by {
                assert(results[i] == Ok::<Datum, Failure>(ds[i]));
                lemma_decode_conforms(table, table.len(), *inner, items[i]);
            }
        },
        Shape::Dict(inner) => {
            let members = v->Object_0;
            let results = entry_results(table, *inner, members);
            lemma_collect_values(results);
            let ds = collect(results)->Ok_0;
            let entries = d->Dict_0;
            assert(entries == zip_entries(members, ds));
            assert forall|i: int| 0 <= i < entries.len() implies conforms(
                table,
                table.len(),
                *inner,
                (#[trigger] entries[i]).1,
            ) by {
                assert(results[i] == Ok::<Datum, Failure>(ds[i]));
                lemma_decode_conforms(table, table.len(), *inner, members[i].1);
            }
        },
        Shape::Record(fields) => {
            let results = field_results(table, level, fields, v);
            lemma_collect_values(results);
            let ds = d->Record_0;
            assert forall|i: int| 0 <= i < fields.len() implies conforms(
                table,
                if fields[i].rule is Flatten {
                    level
                } else {
                    table.len()
                },
                fields[i].shape,
                #[trigger] ds[i],
            ) by {
                assert(results[i] == Ok::<Datum, Failure>(ds[i]));
                assert(field_ok(table, level, fields[i]));
                let members = v->Object_0;
                let p = position(members, fields[i].name);
                match fields[i].rule {
                    RuleShape::Flatten => {
                        lemma_decode_conforms(table, level, fields[i].shape, v);
                    },
                    _ => {
                        if p < members.len() {
                            lemma_decode_conforms(table, table.len(), fields[i].shape, members[p as int].1);
                        }
                    },
                }
            }
        },
        Shape::Tagged { tag, content, branches } => {
            let members = v->Object_0;
            let t = position(members, tag);
            let name = members[t as int].1->String_0;
            let b = word_index(branch_names(branches), name) as int;
            assert(shape_ok(table, if content is None { level } else { table.len() }, branches[b].1));
            match content {
                None => {
                    lemma_decode_conforms(table, level, branches[b].1, v);
                },
                Some(c) => {
                    let p = position(members, c);
                    lemma_decode_conforms(table, table.len(), branches[b].1, members[p as int].1);
                },
            }
        },
        Shape::Untagged(alts) => {
            let results = alt_results(table, level, alts, v);
            lemma_first_ok(results);
            let i = first_ok(results) as int;
            lemma_decode_conforms(table, level, alts[i], v);
        },
        Shape::Ref(j) => {
            lemma_decode_conforms(table, j, table[j as int], v);
        },
        _ => {},
    }
}

} // verus!
