use uuid_readable_rs::text::{
    append_decimal, chars_of, decimal_string, digit, digit_str, is_whitespace, join_words,
    parse_decimal, same_chars, split_words,
};

fn chars(s: &str) -> Vec<char> {
    s.chars().collect()
}

#[test]
fn join_words_puts_single_spaces() {
    assert_eq!(join_words(&["Alex", "sang", "by"]), "Alex sang by");
    assert_eq!(join_words(&["Alex"]), "Alex");
    assert_eq!(join_words(&[]), "");
}

#[test]
fn split_words_cuts_at_any_white_space() {
    assert_eq!(
        split_words("  Alex\tsang \n by\u{3000}60 "),
        vec![chars("Alex"), chars("sang"), chars("by"), chars("60")]
    );
    assert_eq!(split_words(""), Vec::<Vec<char>>::new());
    assert_eq!(split_words(" \t "), Vec::<Vec<char>>::new());
    assert_eq!(split_words("ducks"), vec![chars("ducks")]);
}

#[test]
fn split_words_undoes_join_words() {
    let words = ["Joy", "Bolt", "Kahler", "the", "avenger", "8"];
    let sentence = join_words(&words);
    let back = split_words(&sentence);
    assert_eq!(back.len(), 6);
    for i in 0..6 {
        assert_eq!(back[i], chars(words[i]));
    }
}

#[test]
fn is_whitespace_agrees_with_std() {
    for n in 0..0x3100u32 {
        if let Some(c) = char::from_u32(n) {
            assert_eq!(is_whitespace(c), c.is_whitespace(), "U+{:04X}", n);
        }
    }
}

#[test]
fn chars_of_keeps_every_character() {
    assert_eq!(chars_of("a\u{e9}\u{1F600}b"), vec!['a', '\u{e9}', '\u{1F600}', 'b']);
    assert_eq!(chars_of(""), Vec::<char>::new());
}

#[test]
fn same_chars_compares_whole_words() {
    assert!(same_chars(&chars("ducks"), "ducks"));
    assert!(!same_chars(&chars("duck"), "ducks"));
    assert!(!same_chars(&chars("ducks"), "duck"));
    assert!(!same_chars(&chars("dacks"), "ducks"));
    assert!(same_chars(&chars(""), ""));
}

#[test]
fn decimal_string_has_no_leading_zeros() {
    assert_eq!(decimal_string(0), "0");
    assert_eq!(decimal_string(8), "8");
    assert_eq!(decimal_string(31), "31");
    assert_eq!(decimal_string(60), "60");
    assert_eq!(decimal_string(1000203), "1000203");
    assert_eq!(decimal_string(usize::MAX), format!("{}", usize::MAX));
}

#[test]
fn append_decimal_keeps_what_was_there() {
    let mut s = String::from("and ");
    append_decimal(&mut s, 17);
    assert_eq!(s, "and 17");
}

#[test]
fn digit_str_and_digit_agree() {
    let digits = ['0', '1', '2', '3', '4', '5', '6', '7', '8', '9'];
    for d in 0..10 {
        assert_eq!(digit_str(d), format!("{}", d));
        assert_eq!(digit(digits[d]), Some(d));
    }
    assert_eq!(digit('/'), None);
    assert_eq!(digit(':'), None);
    assert_eq!(digit('a'), None);
    assert_eq!(digit('\u{662}'), None);
}

#[test]
fn parse_decimal_reads_runs_of_digits() {
    assert_eq!(parse_decimal(&chars("8")), Some(8));
    assert_eq!(parse_decimal(&chars("31")), Some(31));
    assert_eq!(parse_decimal(&chars("008")), Some(8));
    assert_eq!(parse_decimal(&chars("0")), Some(0));
    assert_eq!(parse_decimal(&chars("")), None);
    assert_eq!(parse_decimal(&chars("1a")), None);
    assert_eq!(parse_decimal(&chars("+8")), None);
    assert_eq!(parse_decimal(&chars("-8")), None);
    assert_eq!(parse_decimal(&chars("8 ")), None);
}

#[test]
fn parse_decimal_gives_none_for_what_does_not_fit() {
    let largest = format!("{}", usize::MAX);
    assert_eq!(parse_decimal(&chars(&largest)), Some(usize::MAX));
    let too_large = format!("{}0", usize::MAX);
    assert_eq!(parse_decimal(&chars(&too_large)), None);
    assert_eq!(parse_decimal(&chars("99999999999999999999999999")), None);
}

#[test]
fn parse_decimal_undoes_decimal_string() {
    for n in [0usize, 1, 9, 10, 31, 63, 99, 100, 12345] {
        assert_eq!(parse_decimal(&chars(&decimal_string(n))), Some(n));
    }
}
