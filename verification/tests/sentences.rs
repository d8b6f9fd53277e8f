use uuid::Uuid;
use uuid_readable_rs::sentence::{generate_from_bytes, short_from_bytes};
use uuid_readable_rs::{generate, generate_from, short, short_from};

#[test]
fn sanity() {
    let uuid = Uuid::parse_str("0ee001c7-12f3-4b29-a4cc-f48838b3587a").unwrap();

    let g = generate_from(uuid);
    assert_eq!(
        g,
        "Joy Bolt Kahler the avenger of Esbon jumped Carey Fatma Sander and 8 large ducks"
    );

    let s = short_from(uuid);
    assert_eq!(s, "Alex sang by 60 narrow chickens");
}

#[test]
fn sentences_from_bytes() {
    let uuid = Uuid::parse_str("0ee001c7-12f3-4b29-a4cc-f48838b3587a").unwrap();
    assert_eq!(
        generate_from_bytes(uuid.as_bytes()),
        "Joy Bolt Kahler the avenger of Esbon jumped Carey Fatma Sander and 8 large ducks"
    );
    assert_eq!(
        short_from_bytes(uuid.as_bytes()),
        "Alex sang by 60 narrow chickens"
    );
}

#[test]
fn sentences_of_the_nil_identifier() {
    assert_eq!(
        generate_from(Uuid::nil()),
        "Abby Ansel Abbott the admirer of Alvo sang Abby Ansel Abbott and 0 angry ants"
    );
    assert_eq!(short_from(Uuid::nil()), "Abby sang by 0 angry ants");
}

#[test]
fn sentences_of_the_largest_identifier() {
    let max = Uuid::from_bytes([0xff; 16]);
    assert_eq!(
        generate_from(max),
        "Jonas Upton Ingram the painter of Provo warned Jonas Upton Ingram and 31 merry cats"
    );
    assert_eq!(short_from(max), "Cyrus kicked by 63 eager eagles");
}

#[test]
fn same_identifier_same_sentence() {
    let uuid = Uuid::parse_str("08c60edc-1297-476c-a876-cef77a014757").unwrap();
    assert_eq!(generate_from(uuid), generate_from(uuid));
    assert_eq!(short_from(uuid), short_from(uuid));
    let again = Uuid::from_bytes(*uuid.as_bytes());
    assert_eq!(generate_from(uuid), generate_from(again));
}

#[test]
fn different_identifiers_can_share_a_sentence() {
    // The first group is twelve bits wide and selects one of 25 words:
    // 1792 and 1792 + 25 select the same one.
    let a = Uuid::parse_str("0ee001c7-12f3-4b29-a4cc-f48838b3587a").unwrap();
    let mut bytes = *a.as_bytes();
    // 1792 + 25 = 1817 = 0b0111_0001_1001: the first twelve bits, eight of
    // them in byte 0 (least significant first) and four in byte 1.
    bytes[0] = 0b1000_1110;
    bytes[1] = (bytes[1] & 0xf0) | 0b1001;
    let b = Uuid::from_bytes(bytes);
    assert_ne!(a, b);
    assert_eq!(generate_from(a), generate_from(b));
}

#[test]
fn short_sentence_reads_the_first_four_bytes() {
    let a = Uuid::parse_str("0ee001c7-12f3-4b29-a4cc-f48838b3587a").unwrap();
    let b = Uuid::parse_str("0ee001c7-ffff-ffff-ffff-ffffffffffff").unwrap();
    assert_eq!(short_from(a), short_from(b));
    assert_ne!(generate_from(a), generate_from(b));
}

#[test]
fn long_sentence_has_its_fixed_words_in_place() {
    for text in [
        "0ee001c7-12f3-4b29-a4cc-f48838b3587a",
        "08c60edc-1297-476c-a876-cef77a014757",
        "ffffffff-ffff-ffff-ffff-ffffffffffff",
        "00000000-0000-0000-0000-000000000000",
    ] {
        let sentence = generate_from(Uuid::parse_str(text).unwrap());
        let words: Vec<&str> = sentence.split(' ').collect();
        assert_eq!(words.len(), 15);
        assert_eq!(words[3], "the");
        assert_eq!(words[5], "of");
        assert_eq!(words[11], "and");
        let numeral: usize = words[12].parse().unwrap();
        assert!(numeral < 32);
    }
}

#[test]
fn short_sentence_has_its_fixed_word_in_place() {
    for text in [
        "0ee001c7-12f3-4b29-a4cc-f48838b3587a",
        "08c60edc-1297-476c-a876-cef77a014757",
        "ffffffff-ffff-ffff-ffff-ffffffffffff",
        "00000000-0000-0000-0000-000000000000",
    ] {
        let sentence = short_from(Uuid::parse_str(text).unwrap());
        let words: Vec<&str> = sentence.split(' ').collect();
        assert_eq!(words.len(), 6);
        assert_eq!(words[2], "by");
        let numeral: usize = words[3].parse().unwrap();
        assert!(numeral < 64);
    }
}

#[test]
fn random_sentences_have_the_shape() {
    for _ in 0..50 {
        let long = generate();
        let words: Vec<&str> = long.split(' ').collect();
        assert_eq!(words.len(), 15);
        assert_eq!(words[3], "the");
        assert_eq!(words[5], "of");
        assert_eq!(words[11], "and");
        assert!(words[12].parse::<usize>().unwrap() < 32);

        let short = short();
        let words: Vec<&str> = short.split(' ').collect();
        assert_eq!(words.len(), 6);
        assert_eq!(words[2], "by");
        assert!(words[3].parse::<usize>().unwrap() < 64);
    }
}
