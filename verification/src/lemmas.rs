//! Facts about searching and collecting that the codec's proofs rest on.

use crate::decode::{collect, first_ok};
use crate::error::Failure;
use crate::instance::Datum;
use crate::schema::word_index;
use crate::value::{lookup, position, Json};
use vstd::prelude::*;

verus! {

/// Whether some member of `members` is named `key`.
pub open spec fn has_key(members: Seq<(Seq<char>, Json)>, key: Seq<char>) -> bool {
    position(members, key) < members.len()
}

/// `position` finds the first member of that name, and only that.
pub proof fn lemma_position(members: Seq<(Seq<char>, Json)>, key: Seq<char>)
    ensures
        position(members, key) <= members.len(),
        position(members, key) < members.len() ==> members[position(members, key) as int].0 == key,
        forall|j: int| 0 <= j < position(members, key) ==> (#[trigger] members[j]).0 != key,
    decreases members.len(),
{
    if members.len() > 0 && members[0].0 != key {
        let rest = members.drop_first();
        lemma_position(rest, key);
        assert forall|j: int| 0 <= j < position(members, key) implies (#[trigger] members[j]).0 != key by {
            if j > 0 {
                assert(members[j] == rest[j - 1]);
            }
        }
    }
}

/// The first member of a name is where `position` says.
pub proof fn lemma_position_is(members: Seq<(Seq<char>, Json)>, key: Seq<char>, i: int)
    requires
        0 <= i < members.len(),
        members[i].0 == key,
        forall|j: int| 0 <= j < i ==> (#[trigger] members[j]).0 != key,
    ensures
        position(members, key) == i,
{
    lemma_position(members, key);
    let p = position(members, key) as int;
    if p > i {
        assert(members[i].0 != key);
    }
}

/// A name that no member has is found nowhere.
pub proof fn lemma_position_none(members: Seq<(Seq<char>, Json)>, key: Seq<char>)
    requires
        forall|j: int| 0 <= j < members.len() ==> (#[trigger] members[j]).0 != key,
    ensures
        position(members, key) == members.len(),
{
    lemma_position(members, key);
}

/// Looking a name up in two lists joined looks in the first, then in the
/// second.
pub proof fn lemma_lookup_concat(a: Seq<(Seq<char>, Json)>, b: Seq<(Seq<char>, Json)>, key: Seq<char>)
    ensures
        lookup(a + b, key) == if has_key(a, key) {
            lookup(a, key)
        } else {
            lookup(b, key)
        },
        has_key(a + b, key) == (has_key(a, key) || has_key(b, key)),
{
    lemma_position(a, key);
    lemma_position(b, key);
    let ab = a + b;
    if has_key(a, key) {
        let p = position(a, key) as int;
        assert(ab[p] == a[p]);
        assert forall|j: int| 0 <= j < p implies (#[trigger] ab[j]).0 != key by {
            assert(ab[j] == a[j]);
        }
        lemma_position_is(ab, key, p);
    } else if has_key(b, key) {
        let p = position(b, key) as int;
        let q = a.len() + p;
        assert(ab[q] == b[p]);
        assert forall|j: int| 0 <= j < q implies (#[trigger] ab[j]).0 != key by {
            if j < a.len() {
                assert(ab[j] == a[j]);
            } else {
                assert(ab[j] == b[j - a.len()]);
            }
        }
        lemma_position_is(ab, key, q);
    } else {
        assert forall|j: int| 0 <= j < ab.len() implies (#[trigger] ab[j]).0 != key by {
            if j < a.len() {
                assert(ab[j] == a[j]);
            } else {
                assert(ab[j] == b[j - a.len()]);
            }
        }
        lemma_position_none(ab, key);
    }
}

/// Among pieces joined in order, a name that only the piece at `i` may hold
/// is looked up in that piece.
pub proof fn lemma_lookup_pieces(pieces: Seq<Seq<(Seq<char>, Json)>>, i: int, key: Seq<char>)
    requires
        0 <= i < pieces.len(),
        forall|j: int| 0 <= j < pieces.len() && j != i ==> !has_key(#[trigger] pieces[j], key),
    ensures
        lookup(pieces.flatten(), key) == lookup(pieces[i], key),
        has_key(pieces.flatten(), key) == has_key(pieces[i], key),
    decreases pieces.len(),
{
    let rest = pieces.drop_first();
    lemma_lookup_concat(pieces[0], rest.flatten(), key);
    if i == 0 {
        lemma_lookup_absent(rest, key);
    } else {
        assert forall|j: int| 0 <= j < rest.len() && j != i - 1 implies !has_key(#[trigger] rest[j], key) by {
            assert(rest[j] == pieces[j + 1]);
        }
        lemma_lookup_pieces(rest, i - 1, key);
    }
}

/// Pieces of which none holds a name hold it nowhere when joined.
pub proof fn lemma_lookup_absent(pieces: Seq<Seq<(Seq<char>, Json)>>, key: Seq<char>)
    requires
        forall|j: int| 0 <= j < pieces.len() ==> !has_key(#[trigger] pieces[j], key),
    ensures
        !has_key(pieces.flatten(), key),
    decreases pieces.len(),
{
    if pieces.len() > 0 {
        let rest = pieces.drop_first();
        assert forall|j: int| 0 <= j < rest.len() implies !has_key(#[trigger] rest[j], key) by {
            assert(rest[j] == pieces[j + 1]);
        }
        lemma_lookup_absent(rest, key);
        lemma_lookup_concat(pieces[0], rest.flatten(), key);
    }
}

/// What stands in one part stands in the parts joined.
pub proof fn lemma_flatten_contains<A>(parts: Seq<Seq<A>>, i: int, x: A)
    requires
        0 <= i < parts.len(),
        parts[i].contains(x),
    ensures
        parts.flatten().contains(x),
    decreases parts.len(),
{
    let rest = parts.drop_first();
    let joined = parts[0] + rest.flatten();
    if i == 0 {
        let p = choose|p: int| 0 <= p < parts[0].len() && parts[0][p] == x;
        assert(joined[p] == x);
    } else {
        assert(rest[i - 1] == parts[i]);
        lemma_flatten_contains(rest, i - 1, x);
        let q = choose|q: int| 0 <= q < rest.flatten().len() && rest.flatten()[q] == x;
        assert(joined[parts[0].len() + q] == x);
    }
}

/// Where the parts joined repeat nothing, two parts share nothing.
pub proof fn lemma_flatten_disjoint<A>(parts: Seq<Seq<A>>, i: int, j: int, x: A)
    requires
        parts.flatten().no_duplicates(),
        0 <= i < j < parts.len(),
        parts[i].contains(x),
    ensures
        !parts[j].contains(x),
    decreases parts.len(),
{
    let rest = parts.drop_first();
    let joined = parts[0] + rest.flatten();
    assert(rest[j - 1] == parts[j]);
    if parts[j].contains(x) {
        if i == 0 {
            let p = choose|p: int| 0 <= p < parts[0].len() && parts[0][p] == x;
            lemma_flatten_contains(rest, j - 1, x);
            let q = choose|q: int| 0 <= q < rest.flatten().len() && rest.flatten()[q] == x;
            assert(joined[p] == x);
            assert(joined[parts[0].len() + q] == x);
        } else {
            assert(rest[i - 1] == parts[i]);
            assert forall|a: int, b: int|
                0 <= a < rest.flatten().len() && 0 <= b < rest.flatten().len() && a != b implies rest.flatten()[a]
                != rest.flatten()[b] by {
                assert(joined[parts[0].len() + a] == rest.flatten()[a]);
                assert(joined[parts[0].len() + b] == rest.flatten()[b]);
            }
            lemma_flatten_disjoint(rest, i - 1, j - 1, x);
        }
    }
}

/// `word_index` finds the first place of a word, and only that.
pub proof fn lemma_word_index(words: Seq<Seq<char>>, word: Seq<char>)
    ensures
        word_index(words, word) <= words.len(),
        word_index(words, word) < words.len() ==> words[word_index(words, word) as int] == word,
        forall|j: int| 0 <= j < word_index(words, word) ==> #[trigger] words[j] != word,
    decreases words.len(),
{
    if words.len() > 0 && words[0] != word {
        let rest = words.drop_first();
        lemma_word_index(rest, word);
        assert forall|j: int| 0 <= j < word_index(words, word) implies #[trigger] words[j] != word by {
            if j > 0 {
                assert(words[j] == rest[j - 1]);
            }
        }
    }
}

/// In a list without repetition each word is found at its own place.
pub proof fn lemma_word_index_unique(words: Seq<Seq<char>>, i: int)
    requires
        0 <= i < words.len(),
        words.no_duplicates(),
    ensures
        word_index(words, words[i]) == i,
{
    lemma_word_index(words, words[i]);
}

/// A word that stands in a list is found in it.
pub proof fn lemma_word_index_contains(words: Seq<Seq<char>>, word: Seq<char>)
    ensures
        words.contains(word) <==> word_index(words, word) < words.len(),
{
    lemma_word_index(words, word);
    if words.contains(word) {
        let i = choose|i: int| 0 <= i < words.len() && words[i] == word;
        if word_index(words, word) >= words.len() {
            assert(words[i] != word);
        }
    }
}

/// Results that all succeeded collect to their values.
pub proof fn lemma_collect_ok(results: Seq<Result<Datum, Failure>>, values: Seq<Datum>)
    requires
        results.len() == values.len(),
        forall|i: int| 0 <= i < results.len() ==> #[trigger] results[i] == Ok::<Datum, Failure>(values[i]),
    ensures
        collect(results) == Ok::<Seq<Datum>, Failure>(values),
    decreases results.len(),
{
    if results.len() == 0 {
        assert(values =~= Seq::empty());
    } else {
        let rest = results.drop_first();
        let tail = values.drop_first();
        assert forall|i: int| 0 <= i < rest.len() implies #[trigger] rest[i] == Ok::<Datum, Failure>(tail[i]) by {
            assert(rest[i] == results[i + 1]);
        }
        lemma_collect_ok(rest, tail);
        assert(results[0] == Ok::<Datum, Failure>(values[0]));
        assert(seq![values[0]] + tail =~= values);
    }
}

/// Results collect to the first failure among them.
pub proof fn lemma_collect_err(results: Seq<Result<Datum, Failure>>, k: int)
    requires
        0 <= k < results.len(),
        results[k] is Err,
        forall|i: int| 0 <= i < k ==> (#[trigger] results[i]) is Ok,
    ensures
        collect(results) == Err::<Seq<Datum>, Failure>(results[k]->Err_0),
    decreases results.len(),
{
    if k > 0 {
        let rest = results.drop_first();
        assert forall|i: int| 0 <= i < k - 1 implies (#[trigger] rest[i]) is Ok by {
            assert(rest[i] == results[i + 1]);
        }
        assert(rest[k - 1] == results[k]);
        lemma_collect_err(rest, k - 1);
        assert(results[0] is Ok);
    }
}

/// What collected to values succeeded everywhere, with those values.
pub proof fn lemma_collect_values(results: Seq<Result<Datum, Failure>>)
    requires
        collect(results) is Ok,
    ensures
        collect(results)->Ok_0.len() == results.len(),
        forall|i: int|
            0 <= i < results.len() ==> #[trigger] results[i] == Ok::<Datum, Failure>(collect(results)->Ok_0[i]),
    decreases results.len(),
{
    if results.len() > 0 {
        let rest = results.drop_first();
        lemma_collect_values(rest);
        let ds = collect(results)->Ok_0;
        assert forall|i: int| 0 <= i < results.len() implies #[trigger] results[i] == Ok::<Datum, Failure>(
            ds[i],
        ) by {
            if i > 0 {
                assert(rest[i - 1] == results[i]);
            }
        }
    }
}

/// `first_ok` finds the first success, and only that.
pub proof fn lemma_first_ok(results: Seq<Result<Datum, Failure>>)
    ensures
        first_ok(results) <= results.len(),
        first_ok(results) < results.len() ==> results[first_ok(results) as int] is Ok,
        forall|j: int| 0 <= j < first_ok(results) ==> (#[trigger] results[j]) is Err,
    decreases results.len(),
{
    if results.len() > 0 && results[0] is Err {
        let rest = results.drop_first();
        lemma_first_ok(rest);
        assert forall|j: int| 0 <= j < first_ok(results) implies (#[trigger] results[j]) is Err by {
            if j > 0 {
                assert(results[j] == rest[j - 1]);
            }
        }
    }
}

} // verus!
