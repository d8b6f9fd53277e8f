//! From a long sentence back to an identifier.
//!
//! A sentence keeps less than an identifier holds: of each group of bits
//! only the position of its word, or its numeral. The identifier that is
//! given back holds in each group exactly that position or numeral. It has
//! the same long sentence as every identifier that the sentence came from,
//! and is in general not one of them bit for bit.

use crate::bits::{as_nats, assemble, lemma_spread_groups_len, pack_bits, spread_groups};
use crate::identifier::uuid_bytes;
use crate::sentence::{lemma_table_widths, LONG_NUMERAL_RANGE, NORMAL};
use crate::text::{decimal_value, parse_decimal, same_chars, split_words, words_of};
use crate::vocabulary::{
    find, position_of, ADJECTIVES, ANIMALS, FIRST, LAST, MIDDLE, PERSONAL_NOUNS, PLACES, VERBS,
};
use uuid::Uuid;
use vstd::prelude::*;

verus! {

/// How many words a long sentence has.
pub const LONG_WORD_COUNT: usize = 15;

/// Why a sentence is not a long sentence.
#[derive(Debug, Clone, Copy, PartialEq, Eq, Structural)]
pub enum DecodeError {
    /// The sentence does not have fifteen words.
    WordCount,
    /// The word at `position` (counted from 0) is not among the words that
    /// a long sentence has there.
    UnknownWord { position: usize },
    /// The numeral is not a decimal number below 32.
    InvalidNumeral,
}

/// The position of `token` in `list`, for the word at `position` of a
/// sentence.
pub open spec fn listed(list: [&'static str; 25], token: Seq<char>, position: usize) -> Result<
    nat,
    DecodeError,
> {
    match position_of(list, token) {
        Some(i) => Ok(i as nat),
        None => Err(DecodeError::UnknownWord { position }),
    }
}

/// A fixed word of the sentence, at `position`, stands for nothing but has
/// to be there.
pub open spec fn fixed(word: Seq<char>, token: Seq<char>, position: usize) -> Result<
    nat,
    DecodeError,
> {
    if token == word {
        Ok(0)
    } else {
        Err(DecodeError::UnknownWord { position })
    }
}

/// The number that a numeral spells, if it is below 32.
pub open spec fn numeral(token: Seq<char>) -> Result<nat, DecodeError> {
    match decimal_value(token) {
        Some(v) => if v < 32 {
            Ok(v)
        } else {
            Err(DecodeError::InvalidNumeral)
        },
        None => Err(DecodeError::InvalidNumeral),
    }
}

/// What each of fifteen words resolves to, position by position.
pub open spec fn long_slots(t: Seq<Seq<char>>) -> Seq<Result<nat, DecodeError>> {
    seq![
        listed(FIRST, t[0], 0),
        listed(MIDDLE, t[1], 1),
        listed(LAST, t[2], 2),
        fixed("the"@, t[3], 3),
        listed(PERSONAL_NOUNS, t[4], 4),
        fixed("of"@, t[5], 5),
        listed(PLACES, t[6], 6),
        listed(VERBS, t[7], 7),
        listed(FIRST, t[8], 8),
        listed(MIDDLE, t[9], 9),
        listed(LAST, t[10], 10),
        fixed("and"@, t[11], 11),
        numeral(t[12]),
        listed(ADJECTIVES, t[13], 13),
        listed(ANIMALS, t[14], 14),
    ]
}

/// The error of the first slot, from `from` on, that has one.
pub open spec fn first_error(slots: Seq<Result<nat, DecodeError>>, from: int) -> Option<
    DecodeError,
>
    decreases slots.len() - from,
{
    if from < 0 || from >= slots.len() {
        None
    } else {
        match slots[from] {
            Err(e) => Some(e),
            Ok(_) => first_error(slots, from + 1),
        }
    }
}

/// The twelve numbers that fifteen words stand for, in the order of the
/// groups; or the error of the first word that stands for none.
pub open spec fn long_residues(t: Seq<Seq<char>>) -> Result<Seq<nat>, DecodeError> {
    let s = long_slots(t);
    if t.len() != 15 {
        Err(DecodeError::WordCount)
    } else {
        match first_error(s, 0) {
            Some(e) => Err(e),
            None => Ok(
                seq![
                    s[0]->Ok_0,
                    s[1]->Ok_0,
                    s[2]->Ok_0,
                    s[4]->Ok_0,
                    s[6]->Ok_0,
                    s[7]->Ok_0,
                    s[8]->Ok_0,
                    s[9]->Ok_0,
                    s[10]->Ok_0,
                    s[12]->Ok_0,
                    s[13]->Ok_0,
                    s[14]->Ok_0,
                ],
            ),
        }
    }
}

/// The identifier whose groups hold the given numbers.
pub open spec fn identifier_of(residues: Seq<nat>) -> Seq<u8> {
    pack_bits(spread_groups(NORMAL@, residues, 12))
}

/// The identifier that a sentence resolves to, or why it resolves to none.
pub open spec fn long_identifier(sentence: Seq<char>) -> Result<Seq<u8>, DecodeError> {
    match long_residues(words_of(sentence)) {
        Ok(residues) => Ok(identifier_of(residues)),
        Err(e) => Err(e),
    }
}

/// The bytes of a decoding result.
pub open spec fn bytes_view(result: Result<[u8; 16], DecodeError>) -> Result<
    Seq<u8>,
    DecodeError,
> {
    match result {
        Ok(bytes) => Ok(bytes@),
        Err(e) => Err(e),
    }
}

/// The bytes of the identifier of a decoding result.
pub open spec fn uuid_view(result: Result<Uuid, DecodeError>) -> Result<Seq<u8>, DecodeError> {
    match result {
        Ok(id) => Ok(uuid_bytes(id)),
        Err(e) => Err(e),
    }
}

/// Resolve a word of a list.
fn lookup(list: &[&'static str; 25], token: &Vec<char>, position: usize) -> (index: Result<
    usize,
    DecodeError,
>)
    ensures
        index matches Ok(i) ==> i < 25,
        listed(*list, token@, position) == match index {
            Ok(i) => Ok::<nat, DecodeError>(i as nat),
            Err(e) => Err(e),
        },
{
    match find(list, token) {
        Some(i) => Ok(i),
        None => Err(DecodeError::UnknownWord { position }),
    }
}

/// Check a fixed word.
fn expect(word: &str, token: &Vec<char>, position: usize) -> (found: Result<usize, DecodeError>)
    ensures
        found matches Ok(i) ==> i == 0,
        fixed(word@, token@, position) == match found {
            Ok(i) => Ok::<nat, DecodeError>(i as nat),
            Err(e) => Err(e),
        },
{
    if same_chars(token, word) {
        Ok(0)
    } else {
        Err(DecodeError::UnknownWord { position })
    }
}

/// Resolve the numeral.
fn read_numeral(token: &Vec<char>) -> (number: Result<usize, DecodeError>)
    ensures
        number matches Ok(n) ==> n < 32,
        numeral(token@) == match number {
            Ok(n) => Ok::<nat, DecodeError>(n as nat),
            Err(e) => Err(e),
        },
{
    match parse_decimal(token) {
        Some(n) => if n < LONG_NUMERAL_RANGE {
            Ok(n)
        } else {
            Err(DecodeError::InvalidNumeral)
        },
        None => Err(DecodeError::InvalidNumeral),
    }
}

/// Sixteen bytes as an array.
fn into_array(bytes: &Vec<u8>) -> (array: [u8; 16])
    requires
        bytes.len() == 16,
    ensures
        array@ == bytes@,
{
    let mut array = [0u8; 16];
    for i in 0..16usize
        invariant
            bytes.len() == 16,
            forall|k: int| 0 <= k < i ==> array@[k] == bytes@[k],
    {
        array[i] = bytes[i];
    }
    assert(array@ =~= bytes@);
    array
}

/// The sixteen bytes that a long sentence resolves to.
///
/// The sentence is cut at white space. It must have fifteen words, each of
/// them among the words that the long form has at its place: a word of the
/// list of that place, the fixed word of that place, or a numeral below 32.
/// The first word that is not decides the error.
pub fn generate_inverse_bytes(sentence: &str) -> (result: Result<[u8; 16], DecodeError>)
    ensures
        bytes_view(result) == long_identifier(sentence@),
{
    let t = split_words(sentence);
    if t.len() != LONG_WORD_COUNT {
        return Err(DecodeError::WordCount);
    }
    let ghost w = words_of(sentence@);
    let ghost slots = long_slots(w);
    proof {
        reveal_with_fuel(first_error, 16);
        assert(forall|k: int| 0 <= k < 15 ==> w[k] == #[trigger] t@[k]@);
    }
    let first = lookup(&FIRST, &t[0], 0)?;
    let middle = lookup(&MIDDLE, &t[1], 1)?;
    let last = lookup(&LAST, &t[2], 2)?;
    expect("the", &t[3], 3)?;
    let noun = lookup(&PERSONAL_NOUNS, &t[4], 4)?;
    expect("of", &t[5], 5)?;
    let place = lookup(&PLACES, &t[6], 6)?;
    let verb = lookup(&VERBS, &t[7], 7)?;
    let first2 = lookup(&FIRST, &t[8], 8)?;
    let middle2 = lookup(&MIDDLE, &t[9], 9)?;
    let last2 = lookup(&LAST, &t[10], 10)?;
    expect("and", &t[11], 11)?;
    let number = read_numeral(&t[12])?;
    let adjective = lookup(&ADJECTIVES, &t[13], 13)?;
    let animal = lookup(&ANIMALS, &t[14], 14)?;
    let residues: [usize; 12] = [
        first,
        middle,
        last,
        noun,
        place,
        verb,
        first2,
        middle2,
        last2,
        number,
        adjective,
        animal,
    ];
    proof {
        assert(first_error(slots, 0) is None);
        assert(long_residues(w)->Ok_0 =~= as_nats(residues@));
        lemma_table_widths();
        lemma_spread_groups_len(NORMAL@, as_nats(residues@), 12);
    }
    let bytes = assemble(NORMAL.as_slice(), &residues);
    Ok(into_array(&bytes))
}

/// The identifier that a long sentence resolves to.
pub fn generate_inverse(sentence: &str) -> (result: Result<Uuid, DecodeError>)
    ensures
        uuid_view(result) == long_identifier(sentence@),
{
    match generate_inverse_bytes(sentence) {
        Ok(bytes) => Ok(Uuid::from_bytes(bytes)),
        Err(e) => Err(e),
    }
}

} // verus!
