//! What holds of sentences and identifiers taken together.
//!
//! Going from an identifier to its long sentence loses bits; going back
//! cannot find them again. What can be said is this: the sentence of an
//! identifier always resolves, it resolves to the identifier that holds in
//! each group only what the sentence shows, and that identifier has the
//! same sentence. So a second round trip changes nothing.

use crate::bits::{lemma_groups_of_assembled, lemma_spread_groups_len};
use crate::identifier::uuid_bytes;
use crate::inverse::{
    first_error, identifier_of, long_identifier, long_residues, long_slots, DecodeError,
};
use crate::sentence::{
    lemma_table_widths, long_numbers, long_sentence, long_words, short_numbers, short_sentence,
    short_words, NORMAL,
};
use crate::text::{
    all_words, decimal, is_word, lemma_decimal, lemma_words_of_joined, str_views, words_of,
};
use crate::vocabulary::{
    lemma_adjectives, lemma_animals, lemma_first, lemma_last, lemma_middle,
    lemma_personal_nouns, lemma_places, lemma_position_of_entry, lemma_verbs, ADJECTIVES,
    ANIMALS, FIRST, LAST, MIDDLE, PERSONAL_NOUNS, PLACES, VERBS,
};
use uuid::Uuid;
use vstd::arithmetic::power2::{lemma2_to64, lemma_pow2_strictly_increases};
use vstd::prelude::*;

verus! {

/// What a long sentence keeps of twelve numbers: the position of each word
/// in its list, and the numeral.
pub open spec fn long_reduced(n: Seq<nat>) -> Seq<nat> {
    Seq::new(
        12,
        |k: int|
            if k == 9 {
                n[k] % 32
            } else {
                n[k] % 25
            },
    )
}

/// The identifier that holds in each group only what the long sentence of
/// `id` shows of that group.
pub open spec fn canonical(id: Seq<u8>) -> Seq<u8> {
    identifier_of(long_reduced(long_numbers(id)))
}

/// Twelve numbers each of which is a position in a list, or a numeral
/// below 32.
pub open spec fn are_residues(r: Seq<nat>) -> bool {
    &&& r.len() == 12
    &&& forall|k: int| 0 <= k < 12 ==> #[trigger] r[k] < (if k == 9 {
        32nat
    } else {
        25nat
    })
}

/// Identifiers with the same bytes have the same sentences: a sentence
/// depends on nothing but the bytes.
pub proof fn lemma_sentence_depends_on_bytes(a: Uuid, b: Uuid)
    requires
        uuid_bytes(a) == uuid_bytes(b),
    ensures
        long_sentence(uuid_bytes(a)) == long_sentence(uuid_bytes(b)),
        short_sentence(uuid_bytes(a)) == short_sentence(uuid_bytes(b)),
{
}

/// Whatever the numbers, the long form has fifteen words, and the short
/// form six: each a word without white space.
pub proof fn lemma_forms_are_words(n: Seq<nat>)
    ensures
        long_words(n).len() == 15,
        all_words(long_words(n)),
        short_words(n).len() == 6,
        all_words(short_words(n)),
{
    lemma_first();
    lemma_middle();
    lemma_last();
    lemma_personal_nouns();
    lemma_places();
    lemma_verbs();
    lemma_adjectives();
    lemma_animals();
    lemma_decimal(n[9] % 32);
    lemma_decimal(n[2] % 64);
    reveal_strlit("the");
    reveal_strlit("of");
    reveal_strlit("and");
    reveal_strlit("by");
    let first = str_views(FIRST@);
    let middle = str_views(MIDDLE@);
    let last = str_views(LAST@);
    let nouns = str_views(PERSONAL_NOUNS@);
    let places = str_views(PLACES@);
    let verbs = str_views(VERBS@);
    let adjectives = str_views(ADJECTIVES@);
    let animals = str_views(ANIMALS@);
    let l = long_words(n);
    assert forall|i: int| 0 <= i < 15 implies is_word(#[trigger] l[i]) by {
        assert(l[0] == first[(n[0] % 25) as int]);
        assert(l[1] == middle[(n[1] % 25) as int]);
        assert(l[2] == last[(n[2] % 25) as int]);
        assert(l[4] == nouns[(n[3] % 25) as int]);
        assert(l[6] == places[(n[4] % 25) as int]);
        assert(l[7] == verbs[(n[5] % 25) as int]);
        assert(l[8] == first[(n[6] % 25) as int]);
        assert(l[9] == middle[(n[7] % 25) as int]);
        assert(l[10] == last[(n[8] % 25) as int]);
        assert(l[13] == adjectives[(n[10] % 25) as int]);
        assert(l[14] == animals[(n[11] % 25) as int]);
    }
    let s = short_words(n);
    assert forall|i: int| 0 <= i < 6 implies is_word(#[trigger] s[i]) by {
        assert(s[0] == first[(n[0] % 25) as int]);
        assert(s[1] == verbs[(n[1] % 25) as int]);
        assert(s[4] == adjectives[(n[3] % 25) as int]);
        assert(s[5] == animals[(n[4] % 25) as int]);
    }
}

/// The words of a sentence are the words it was made of, in both forms.
/// So a long sentence always has fifteen words, with `the`, `of` and
/// `and` as its fourth, sixth and twelfth, and a short sentence six, with
/// `by` as its third.
pub proof fn lemma_words_of_sentence(id: Seq<u8>)
    ensures
        words_of(long_sentence(id)) == long_words(long_numbers(id)),
        words_of(long_sentence(id)).len() == 15,
        words_of(long_sentence(id))[3] == "the"@,
        words_of(long_sentence(id))[5] == "of"@,
        words_of(long_sentence(id))[11] == "and"@,
        words_of(short_sentence(id)) == short_words(short_numbers(id)),
        words_of(short_sentence(id)).len() == 6,
        words_of(short_sentence(id))[2] == "by"@,
{
    lemma_forms_are_words(long_numbers(id));
    lemma_forms_are_words(short_numbers(id));
    lemma_words_of_joined(long_words(long_numbers(id)));
    lemma_words_of_joined(short_words(short_numbers(id)));
}

/// The numeral of a long sentence is a number below 32 in decimal, that of
/// a short sentence a number below 64.
pub proof fn lemma_numeral_range(id: Seq<u8>)
    ensures
        exists|v: nat| v < 32 && words_of(long_sentence(id))[12] == decimal(v),
        exists|v: nat| v < 64 && words_of(short_sentence(id))[3] == decimal(v),
{
    lemma_words_of_sentence(id);
    let v = long_numbers(id)[9] % 32;
    assert(v < 32 && words_of(long_sentence(id))[12] == decimal(v));
    let u = short_numbers(id)[2] % 64;
    assert(u < 64 && words_of(short_sentence(id))[3] == decimal(u));
}

/// The words of the long form resolve, and to what the form keeps of the
/// numbers they were chosen by.
pub proof fn lemma_residues_of_long_words(n: Seq<nat>)
    ensures
        long_residues(long_words(n)) == Ok::<Seq<nat>, DecodeError>(long_reduced(n)),
{
    lemma_first();
    lemma_middle();
    lemma_last();
    lemma_personal_nouns();
    lemma_places();
    lemma_verbs();
    lemma_adjectives();
    lemma_animals();
    lemma_position_of_entry(FIRST, (n[0] % 25) as int);
    lemma_position_of_entry(MIDDLE, (n[1] % 25) as int);
    lemma_position_of_entry(LAST, (n[2] % 25) as int);
    lemma_position_of_entry(PERSONAL_NOUNS, (n[3] % 25) as int);
    lemma_position_of_entry(PLACES, (n[4] % 25) as int);
    lemma_position_of_entry(VERBS, (n[5] % 25) as int);
    lemma_position_of_entry(FIRST, (n[6] % 25) as int);
    lemma_position_of_entry(MIDDLE, (n[7] % 25) as int);
    lemma_position_of_entry(LAST, (n[8] % 25) as int);
    lemma_position_of_entry(ADJECTIVES, (n[10] % 25) as int);
    lemma_position_of_entry(ANIMALS, (n[11] % 25) as int);
    lemma_decimal(n[9] % 32);
    reveal_with_fuel(first_error, 16);
    let t = long_words(n);
    let s = long_slots(t);
    assert(first_error(s, 0) is None);
    assert(long_residues(t)->Ok_0 =~= long_reduced(n));
}

/// A sentence resolves exactly if it has fifteen words and each of them
/// is among the words of its place. If it has fifteen words and does not
/// resolve, the error is that of the first word that is not: a word
/// unknown at its place is never passed over.
pub proof fn lemma_resolves_iff(sentence: Seq<char>)
    ensures
        long_identifier(sentence) is Ok <==> {
            &&& words_of(sentence).len() == 15
            &&& forall|p: int| 0 <= p < 15 ==> (#[trigger] long_slots(words_of(sentence))[p]) is Ok
        },
        words_of(sentence).len() != 15 ==> long_identifier(sentence) == Err::<
            Seq<u8>,
            DecodeError,
        >(DecodeError::WordCount),
        words_of(sentence).len() == 15 && long_identifier(sentence) is Err ==> exists|p: int|
            {
                &&& 0 <= p < 15
                &&& #[trigger] long_slots(words_of(sentence))[p] == Err::<nat, DecodeError>(
                    long_identifier(sentence)->Err_0,
                )
                &&& forall|q: int| 0 <= q < p ==> (#[trigger] long_slots(words_of(sentence))[q]) is Ok
            },
{
    reveal_with_fuel(first_error, 16);
}

/// The identifier made of residues has exactly those residues for its
/// numbers, and sixteen bytes.
pub proof fn lemma_numbers_of_identifier(r: Seq<nat>)
    requires
        are_residues(r),
    ensures
        identifier_of(r).len() == 16,
        long_numbers(identifier_of(r)) == r,
        long_reduced(r) == r,
{
    lemma_table_widths();
    lemma_spread_groups_len(NORMAL@, r, 12);
    lemma2_to64();
    assert forall|k: int| 0 <= k < 12 implies #[trigger] long_numbers(identifier_of(r))[k]
        == r[k] by {
        assert(5 <= NORMAL[k] <= 14);
        if NORMAL[k] > 5 {
            lemma_pow2_strictly_increases(5, NORMAL[k] as nat);
        }
        lemma_groups_of_assembled(NORMAL@, r, k);
    }
    assert(long_numbers(identifier_of(r)) =~= r);
    assert(long_reduced(r) =~= r);
}

/// The long sentence of every identifier resolves: decoding it never
/// fails. It resolves to the canonical identifier.
pub proof fn lemma_sentence_resolves(id: Seq<u8>)
    requires
        id.len() == 16,
    ensures
        long_identifier(long_sentence(id)) == Ok::<Seq<u8>, DecodeError>(canonical(id)),
{
    lemma_words_of_sentence(id);
    lemma_residues_of_long_words(long_numbers(id));
}

/// The canonical identifier has the same long sentence.
pub proof fn lemma_canonical_keeps_sentence(id: Seq<u8>)
    requires
        id.len() == 16,
    ensures
        canonical(id).len() == 16,
        long_sentence(canonical(id)) == long_sentence(id),
        canonical(canonical(id)) == canonical(id),
{
    let n = long_numbers(id);
    let r = long_reduced(n);
    assert(are_residues(r));
    lemma_numbers_of_identifier(r);
    assert(long_words(r) =~= long_words(n));
}

/// Decoding, encoding and decoding again gives what the first decoding
/// gave: whatever a sentence resolves to has a sentence that resolves to
/// the same identifier.
pub proof fn lemma_resolved_is_stable(sentence: Seq<char>)
    requires
        long_identifier(sentence) is Ok,
    ensures
        long_identifier(sentence)->Ok_0.len() == 16,
        long_identifier(long_sentence(long_identifier(sentence)->Ok_0)) == long_identifier(
            sentence,
        ),
{
    let t = words_of(sentence);
    let r = long_residues(t)->Ok_0;
    let s = long_slots(t);
    reveal_with_fuel(first_error, 16);
    str_views(FIRST@).index_of_first_ensures(t[0]);
    str_views(MIDDLE@).index_of_first_ensures(t[1]);
    str_views(LAST@).index_of_first_ensures(t[2]);
    str_views(PERSONAL_NOUNS@).index_of_first_ensures(t[4]);
    str_views(PLACES@).index_of_first_ensures(t[6]);
    str_views(VERBS@).index_of_first_ensures(t[7]);
    str_views(FIRST@).index_of_first_ensures(t[8]);
    str_views(MIDDLE@).index_of_first_ensures(t[9]);
    str_views(LAST@).index_of_first_ensures(t[10]);
    str_views(ADJECTIVES@).index_of_first_ensures(t[13]);
    str_views(ANIMALS@).index_of_first_ensures(t[14]);
    assert(are_residues(r));
    lemma_numbers_of_identifier(r);
    lemma_sentence_resolves(identifier_of(r));
}

/// A second round trip changes nothing: the identifier that the sentence
/// of `id` resolves to has the same sentence as `id`, and that sentence
/// resolves to it again.
pub proof fn lemma_round_trip_is_idempotent(id: Seq<u8>)
    requires
        id.len() == 16,
    ensures
        long_identifier(long_sentence(id)) is Ok,
        long_sentence(long_identifier(long_sentence(id))->Ok_0) == long_sentence(id),
        long_identifier(long_sentence(long_identifier(long_sentence(id))->Ok_0))
            == long_identifier(long_sentence(id)),
{
    lemma_sentence_resolves(id);
    lemma_canonical_keeps_sentence(id);
}

} // verus!
