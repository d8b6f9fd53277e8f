//! Sentences from identifiers.
//!
//! The bits of an identifier are cut into groups, each group is read as a
//! number, and each number selects a word (or is reduced to a small
//! numeral). The words fill a fixed sentence.
//!
//! A group is read in full before it is reduced: the number of a group of
//! `w` bits is anything below two to the power of `w`, and only the
//! selection takes it modulo the length of the list. Since a list has fewer
//! words than a group has values, different identifiers can give the same
//! sentence. This is meant: a sentence is easy to keep in mind, it is not
//! a safe or unique token.

use crate::bits::{
    group_value, lemma_groups_fit, lemma_unpack_bits_are_bits, partition, unpack_bits, width_sum,
};
use crate::identifier::{is_version_4, uuid_bytes};
use crate::text::{decimal, decimal_string, join_words, joined, str_views};
use crate::vocabulary::{
    select, ADJECTIVES, ANIMALS, FIRST, LAST, MIDDLE, PERSONAL_NOUNS, PLACES, VERBS,
};
use uuid::Uuid;
use vstd::prelude::*;

verus! {

/// The group widths of the long form: twelve groups that use all 128 bits.
pub const NORMAL: [u8; 12] = [12, 11, 14, 13, 13, 10, 12, 11, 14, 5, 6, 7];

/// The group widths of the short form: five groups that use the first 32
/// bits.
pub const SHORT: [u8; 5] = [6, 6, 7, 8, 5];

/// The numeral of the long form is below this.
pub const LONG_NUMERAL_RANGE: usize = 32;

/// The numeral of the short form is below this.
pub const SHORT_NUMERAL_RANGE: usize = 64;

/// The word that the number `n` selects from `list`.
pub open spec fn word(list: [&'static str; 25], n: nat) -> Seq<char> {
    list[(n % 25) as int]@
}

/// The twelve numbers of the long form.
pub open spec fn long_numbers(id: Seq<u8>) -> Seq<nat> {
    Seq::new(12, |k: int| group_value(NORMAL@, unpack_bits(id), k))
}

/// The five numbers of the short form.
pub open spec fn short_numbers(id: Seq<u8>) -> Seq<nat> {
    Seq::new(5, |k: int| group_value(SHORT@, unpack_bits(id), k))
}

/// The fifteen words of the long form for twelve numbers:
/// `{first} {middle} {last} the {personal noun} of {place} {verb} {first}
/// {middle} {last} and {numeral} {adjective} {animal}`.
pub open spec fn long_words(n: Seq<nat>) -> Seq<Seq<char>> {
    seq![
        word(FIRST, n[0]),
        word(MIDDLE, n[1]),
        word(LAST, n[2]),
        "the"@,
        word(PERSONAL_NOUNS, n[3]),
        "of"@,
        word(PLACES, n[4]),
        word(VERBS, n[5]),
        word(FIRST, n[6]),
        word(MIDDLE, n[7]),
        word(LAST, n[8]),
        "and"@,
        decimal(n[9] % 32),
        word(ADJECTIVES, n[10]),
        word(ANIMALS, n[11]),
    ]
}

/// The six words of the short form for five numbers:
/// `{first} {verb} by {numeral} {adjective} {animal}`.
pub open spec fn short_words(n: Seq<nat>) -> Seq<Seq<char>> {
    seq![
        word(FIRST, n[0]),
        word(VERBS, n[1]),
        "by"@,
        decimal(n[2] % 64),
        word(ADJECTIVES, n[3]),
        word(ANIMALS, n[4]),
    ]
}

/// The long sentence of an identifier.
pub open spec fn long_sentence(id: Seq<u8>) -> Seq<char> {
    joined(long_words(long_numbers(id)))
}

/// The short sentence of an identifier.
pub open spec fn short_sentence(id: Seq<u8>) -> Seq<char> {
    joined(short_words(short_numbers(id)))
}

/// The long form uses 128 bits, the short form 32.
pub proof fn lemma_table_widths()
    ensures
        width_sum(NORMAL@, 12) == 128,
        width_sum(SHORT@, 5) == 32,
{
    reveal_with_fuel(width_sum, 13);
}

/// Every group of an identifier, in either form, fits in sixteen bits.
pub proof fn lemma_tables_fit(id: Seq<u8>)
    requires
        id.len() == 16,
    ensures
        forall|k: int|
            0 <= k < 12 ==> #[trigger] group_value(NORMAL@, unpack_bits(id), k) <= u16::MAX,
        forall|k: int|
            0 <= k < 5 ==> #[trigger] group_value(SHORT@, unpack_bits(id), k) <= u16::MAX,
{
    lemma_table_widths();
    lemma_unpack_bits_are_bits(id);
    lemma_groups_fit(NORMAL@, unpack_bits(id));
    lemma_groups_fit(SHORT@, unpack_bits(id));
}

/// The long sentence for sixteen bytes.
pub fn generate_from_bytes(bytes: &[u8; 16]) -> (sentence: String)
    ensures
        sentence@ == long_sentence(bytes@),
{
    proof {
        lemma_table_widths();
        lemma_tables_fit(bytes@);
    }
    let numbers = partition(NORMAL.as_slice(), bytes.as_slice());
    let numeral = decimal_string(numbers[9] % LONG_NUMERAL_RANGE);
    let words: [&str; 15] = [
        select(&FIRST, numbers[0]),
        select(&MIDDLE, numbers[1]),
        select(&LAST, numbers[2]),
        "the",
        select(&PERSONAL_NOUNS, numbers[3]),
        "of",
        select(&PLACES, numbers[4]),
        select(&VERBS, numbers[5]),
        select(&FIRST, numbers[6]),
        select(&MIDDLE, numbers[7]),
        select(&LAST, numbers[8]),
        "and",
        numeral.as_str(),
        select(&ADJECTIVES, numbers[10]),
        select(&ANIMALS, numbers[11]),
    ];
    assert(str_views(words@) =~= long_words(long_numbers(bytes@)));
    join_words(words.as_slice())
}

/// The short sentence for sixteen bytes, of which it reads the first four.
pub fn short_from_bytes(bytes: &[u8; 16]) -> (sentence: String)
    ensures
        sentence@ == short_sentence(bytes@),
{
    proof {
        lemma_table_widths();
        lemma_tables_fit(bytes@);
    }
    let numbers = partition(SHORT.as_slice(), bytes.as_slice());
    let numeral = decimal_string(numbers[2] % SHORT_NUMERAL_RANGE);
    let words: [&str; 6] = [
        select(&FIRST, numbers[0]),
        select(&VERBS, numbers[1]),
        "by",
        numeral.as_str(),
        select(&ADJECTIVES, numbers[3]),
        select(&ANIMALS, numbers[4]),
    ];
    assert(str_views(words@) =~= short_words(short_numbers(bytes@)));
    join_words(words.as_slice())
}

/// Derive a long sentence from an identifier.
///
/// Example of a result: `Joy Bolt Kahler the avenger of Esbon jumped Carey
/// Fatma Sander and 8 large ducks`
pub fn generate_from(uuid: Uuid) -> (sentence: String)
    ensures
        uuid_bytes(uuid).len() == 16,
        sentence@ == long_sentence(uuid_bytes(uuid)),
{
    generate_from_bytes(uuid.as_bytes())
}

/// Derive a short sentence from an identifier.
///
/// Example of a result: `Alex sang by 60 narrow chickens`
pub fn short_from(uuid: Uuid) -> (sentence: String)
    ensures
        uuid_bytes(uuid).len() == 16,
        sentence@ == short_sentence(uuid_bytes(uuid)),
{
    short_from_bytes(uuid.as_bytes())
}

/// Create a long sentence from a new random identifier.
pub fn generate() -> (sentence: String)
    ensures
        exists|id: Seq<u8>| is_version_4(id) && sentence@ == long_sentence(id),
{
    let uuid = Uuid::new_v4();
    generate_from(uuid)
}

/// Create a short sentence from a new random identifier.
pub fn short() -> (sentence: String)
    ensures
        exists|id: Seq<u8>| is_version_4(id) && sentence@ == short_sentence(id),
{
    let uuid = Uuid::new_v4();
    short_from(uuid)
}

} // verus!
