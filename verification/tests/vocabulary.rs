use uuid_readable_rs::vocabulary::{
    find, select, ADJECTIVES, ANIMALS, FIRST, LAST, LIST_LEN, MIDDLE, PERSONAL_NOUNS, PLACES,
    VERBS,
};

fn chars(s: &str) -> Vec<char> {
    s.chars().collect()
}

#[test]
fn every_list_has_twenty_five_words() {
    assert_eq!(LIST_LEN, 25);
    for list in [
        &FIRST,
        &MIDDLE,
        &LAST,
        &PERSONAL_NOUNS,
        &PLACES,
        &VERBS,
        &ADJECTIVES,
        &ANIMALS,
    ] {
        assert_eq!(list.len(), 25);
    }
}

#[test]
fn select_reduces_modulo_the_length() {
    assert_eq!(select(&FIRST, 17), "Joy");
    assert_eq!(select(&FIRST, 1792), "Joy");
    assert_eq!(select(&FIRST, 17 + 25), "Joy");
    assert_eq!(select(&VERBS, 0), "sang");
    assert_eq!(select(&VERBS, 24), "jumped");
    assert_eq!(select(&VERBS, 25), "sang");
    assert_eq!(select(&ANIMALS, usize::MAX), ANIMALS[usize::MAX % 25]);
}

#[test]
fn select_never_leaves_the_list() {
    for value in 0..200 {
        let word = select(&PLACES, value);
        assert!(PLACES.contains(&word));
    }
}

#[test]
fn find_gives_the_place_of_a_word() {
    assert_eq!(find(&FIRST, &chars("Joy")), Some(17));
    assert_eq!(find(&FIRST, &chars("Alex")), Some(3));
    assert_eq!(find(&ANIMALS, &chars("ducks")), Some(19));
    assert_eq!(find(&ANIMALS, &chars("duck")), None);
    assert_eq!(find(&ANIMALS, &chars("Ducks")), None);
    assert_eq!(find(&ANIMALS, &chars("")), None);
    assert_eq!(find(&FIRST, &chars("ducks")), None);
}

#[test]
fn find_undoes_select() {
    for list in [
        &FIRST,
        &MIDDLE,
        &LAST,
        &PERSONAL_NOUNS,
        &PLACES,
        &VERBS,
        &ADJECTIVES,
        &ANIMALS,
    ] {
        for i in 0..25 {
            assert_eq!(find(list, &chars(select(list, i))), Some(i));
        }
    }
}

#[test]
fn words_are_free_of_white_space() {
    for list in [
        &FIRST,
        &MIDDLE,
        &LAST,
        &PERSONAL_NOUNS,
        &PLACES,
        &VERBS,
        &ADJECTIVES,
        &ANIMALS,
    ] {
        for word in list.iter() {
            assert!(!word.is_empty());
            assert!(!word.chars().any(|c| c.is_whitespace()));
        }
    }
}
