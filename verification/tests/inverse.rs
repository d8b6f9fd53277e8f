use uuid::Uuid;
use uuid_readable_rs::inverse::generate_inverse_bytes;
use uuid_readable_rs::{generate, generate_from, generate_inverse, DecodeError};

const SENTENCE: &str =
    "Joy Bolt Kahler the avenger of Esbon jumped Carey Fatma Sander and 8 large ducks";

#[test]
fn inverse_of_the_recorded_sentence() {
    let resolved = generate_inverse(SENTENCE).unwrap();
    assert_eq!(
        resolved,
        Uuid::parse_str("80082800-1d80-0160-3000-0690009280c8").unwrap()
    );
    assert_eq!(
        generate_inverse_bytes(SENTENCE),
        Ok([128, 8, 40, 0, 29, 128, 1, 96, 48, 0, 6, 144, 0, 146, 128, 200])
    );
}

#[test]
fn inverse_is_not_the_identifier_but_has_its_sentence() {
    let uuid = Uuid::parse_str("0ee001c7-12f3-4b29-a4cc-f48838b3587a").unwrap();
    let resolved = generate_inverse(&generate_from(uuid)).unwrap();
    assert_ne!(resolved, uuid);
    assert_eq!(generate_from(resolved), generate_from(uuid));
}

#[test]
fn second_round_trip_changes_nothing() {
    for text in [
        "0ee001c7-12f3-4b29-a4cc-f48838b3587a",
        "08c60edc-1297-476c-a876-cef77a014757",
        "ffffffff-ffff-ffff-ffff-ffffffffffff",
        "00000000-0000-0000-0000-000000000000",
    ] {
        let uuid = Uuid::parse_str(text).unwrap();
        let first = generate_inverse(&generate_from(uuid)).unwrap();
        let second = generate_inverse(&generate_from(first)).unwrap();
        assert_eq!(first, second);
    }
}

#[test]
fn every_generated_sentence_resolves() {
    for _ in 0..100 {
        let sentence = generate();
        let resolved = generate_inverse(&sentence);
        assert!(resolved.is_ok(), "{}", sentence);
        assert_eq!(generate_from(resolved.unwrap()), sentence);
    }
}

#[test]
fn inverse_of_the_nil_sentence_is_nil() {
    let sentence = generate_from(Uuid::nil());
    assert_eq!(generate_inverse(&sentence), Ok(Uuid::nil()));
}

#[test]
fn inverse_takes_any_white_space_between_words() {
    let spaced =
        "  Joy\tBolt Kahler the  avenger of Esbon\njumped Carey Fatma Sander and 8 large ducks ";
    assert_eq!(generate_inverse(spaced), generate_inverse(SENTENCE));
}

#[test]
fn inverse_reads_leading_zeros_in_the_numeral() {
    let padded =
        "Joy Bolt Kahler the avenger of Esbon jumped Carey Fatma Sander and 08 large ducks";
    assert_eq!(generate_inverse(padded), generate_inverse(SENTENCE));
}

#[test]
fn unknown_adjective_is_an_error() {
    let sentence =
        "Joy Bolt Kahler the avenger of Esbon jumped Carey Fatma Sander and 8 purple ducks";
    assert_eq!(
        generate_inverse(sentence),
        Err(DecodeError::UnknownWord { position: 13 })
    );
}

#[test]
fn word_of_another_list_is_an_error() {
    let sentence =
        "ducks Bolt Kahler the avenger of Esbon jumped Carey Fatma Sander and 8 large ducks";
    assert_eq!(
        generate_inverse(sentence),
        Err(DecodeError::UnknownWord { position: 0 })
    );
}

#[test]
fn first_unknown_word_decides() {
    let sentence = "Joy Bolt Kahler the avenger of Nowhere hopped Carey Fatma Sander and 8 x y";
    assert_eq!(
        generate_inverse(sentence),
        Err(DecodeError::UnknownWord { position: 6 })
    );
}

#[test]
fn wrong_fixed_word_is_an_error() {
    let sentence =
        "Joy Bolt Kahler a avenger of Esbon jumped Carey Fatma Sander and 8 large ducks";
    assert_eq!(
        generate_inverse(sentence),
        Err(DecodeError::UnknownWord { position: 3 })
    );
    let sentence =
        "Joy Bolt Kahler the avenger from Esbon jumped Carey Fatma Sander and 8 large ducks";
    assert_eq!(
        generate_inverse(sentence),
        Err(DecodeError::UnknownWord { position: 5 })
    );
    let sentence =
        "Joy Bolt Kahler the avenger of Esbon jumped Carey Fatma Sander or 8 large ducks";
    assert_eq!(
        generate_inverse(sentence),
        Err(DecodeError::UnknownWord { position: 11 })
    );
}

#[test]
fn numeral_that_is_no_number_is_an_error() {
    let sentence =
        "Joy Bolt Kahler the avenger of Esbon jumped Carey Fatma Sander and eight large ducks";
    assert_eq!(generate_inverse(sentence), Err(DecodeError::InvalidNumeral));
    let sentence =
        "Joy Bolt Kahler the avenger of Esbon jumped Carey Fatma Sander and -1 large ducks";
    assert_eq!(generate_inverse(sentence), Err(DecodeError::InvalidNumeral));
}

#[test]
fn numeral_out_of_range_is_an_error() {
    let sentence =
        "Joy Bolt Kahler the avenger of Esbon jumped Carey Fatma Sander and 32 large ducks";
    assert_eq!(generate_inverse(sentence), Err(DecodeError::InvalidNumeral));
    let sentence =
        "Joy Bolt Kahler the avenger of Esbon jumped Carey Fatma Sander and 31 large ducks";
    assert!(generate_inverse(sentence).is_ok());
    let sentence = "Joy Bolt Kahler the avenger of Esbon jumped Carey Fatma Sander and \
                    99999999999999999999999999999 large ducks";
    assert_eq!(generate_inverse(sentence), Err(DecodeError::InvalidNumeral));
}

#[test]
fn wrong_number_of_words_is_an_error() {
    assert_eq!(generate_inverse(""), Err(DecodeError::WordCount));
    assert_eq!(
        generate_inverse("Alex sang by 60 narrow chickens"),
        Err(DecodeError::WordCount)
    );
    let longer = format!("{} indeed", SENTENCE);
    assert_eq!(generate_inverse(&longer), Err(DecodeError::WordCount));
    let shorter =
        "Joy Bolt Kahler the avenger of Esbon jumped Carey Fatma Sander and 8 large";
    assert_eq!(generate_inverse(shorter), Err(DecodeError::WordCount));
}

#[test]
fn word_count_is_checked_before_the_words() {
    assert_eq!(generate_inverse("x y z"), Err(DecodeError::WordCount));
}
