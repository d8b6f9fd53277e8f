//! Words and the spaces between them.
//!
//! A sentence is a sequence of characters, a word a non-empty run of
//! characters that are not white space. Joining puts one space between
//! neighbours; splitting cuts at any white space.

use vstd::prelude::*;

verus! {

/// White space as Unicode lists it (the property `White_Space`).
pub open spec fn is_space(c: char) -> bool {
    let n = c as u32;
    ||| 0x09 <= n <= 0x0D
    ||| n == 0x20
    ||| n == 0x85
    ||| n == 0xA0
    ||| n == 0x1680
    ||| 0x2000 <= n <= 0x200A
    ||| n == 0x2028
    ||| n == 0x2029
    ||| n == 0x202F
    ||| n == 0x205F
    ||| n == 0x3000
}

/// A word: at least one character, none of them white space.
pub open spec fn is_word(w: Seq<char>) -> bool {
    &&& w.len() > 0
    &&& forall|i: int| 0 <= i < w.len() ==> !is_space(#[trigger] w[i])
}

/// Every element is a word.
pub open spec fn all_words(words: Seq<Seq<char>>) -> bool {
    forall|i: int| 0 <= i < words.len() ==> is_word(#[trigger] words[i])
}

/// The words in order, with one space between neighbours.
pub open spec fn joined(words: Seq<Seq<char>>) -> Seq<char>
    decreases words.len(),
{
    if words.len() == 0 {
        Seq::empty()
    } else if words.len() == 1 {
        words[0]
    } else {
        joined(words.drop_last()) + seq![' '] + words.last()
    }
}

/// How many characters at the front of `s` are not white space.
pub open spec fn word_len(s: Seq<char>) -> nat
    decreases s.len(),
{
    if s.len() == 0 || is_space(s[0]) {
        0
    } else {
        1 + word_len(s.drop_first())
    }
}

/// The words of `s`: its maximal runs of characters that are not white
/// space, from left to right.
pub open spec fn words_of(s: Seq<char>) -> Seq<Seq<char>>
    decreases s.len(),
{
    if s.len() == 0 {
        Seq::empty()
    } else if is_space(s[0]) {
        words_of(s.drop_first())
    } else {
        let n = 1 + word_len(s.drop_first());
        proof {
            lemma_word_len_ends(s.drop_first());
        }
        seq![s.take(n as int)] + words_of(s.skip(n as int))
    }
}

/// The characters of each string.
pub open spec fn str_views(words: Seq<&str>) -> Seq<Seq<char>> {
    Seq::new(words.len(), |i: int| words[i]@)
}

/// The characters of each vector.
pub open spec fn vec_views(words: Seq<Vec<char>>) -> Seq<Seq<char>> {
    Seq::new(words.len(), |i: int| words[i]@)
}

/// The character for a digit.
pub open spec fn digit_char(d: nat) -> char {
    if d == 0 {
        '0'
    } else if d == 1 {
        '1'
    } else if d == 2 {
        '2'
    } else if d == 3 {
        '3'
    } else if d == 4 {
        '4'
    } else if d == 5 {
        '5'
    } else if d == 6 {
        '6'
    } else if d == 7 {
        '7'
    } else if d == 8 {
        '8'
    } else {
        '9'
    }
}

/// The digit that a character stands for, if it is one of `0` to `9`.
pub open spec fn digit_value(c: char) -> Option<nat> {
    if '0' <= c <= '9' {
        Some((c as u32 - '0' as u32) as nat)
    } else {
        None
    }
}

/// `n` in decimal, without leading zeros.
pub open spec fn decimal(n: nat) -> Seq<char>
    decreases n,
{
    if n < 10 {
        seq![digit_char(n)]
    } else {
        decimal(n / 10).push(digit_char(n % 10))
    }
}

/// The number that `s` spells in decimal, if `s` is a non-empty run of
/// digits. Leading zeros are read as digits.
pub open spec fn decimal_value(s: Seq<char>) -> Option<nat>
    decreases s.len(),
{
    if s.len() == 0 {
        None
    } else {
        match digit_value(s.last()) {
            None => None,
            Some(d) => if s.len() == 1 {
                Some(d)
            } else {
                match decimal_value(s.drop_last()) {
                    None => None,
                    Some(v) => Some(10 * v + d),
                }
            },
        }
    }
}

/// Whether a character is white space.
pub fn is_whitespace(c: char) -> (b: bool)
    ensures
        b == is_space(c),
{
    let n = c as u32;
    (0x09 <= n && n <= 0x0D) || n == 0x20 || n == 0x85 || n == 0xA0 || n == 0x1680
        || (0x2000 <= n && n <= 0x200A) || n == 0x2028 || n == 0x2029 || n == 0x202F
        || n == 0x205F || n == 0x3000
}

/// The characters of a string.
pub fn chars_of(s: &str) -> (chars: Vec<char>)
    ensures
        chars@ == s@,
{
    let mut chars: Vec<char> = Vec::new();
    for c in it: s.chars()
        invariant
            chars@ == it.seq().take(it.index() as int),
    {
        chars.push(c);
    }
    chars
}

/// The characters of a string are those of a word, one by one.
pub fn same_chars(token: &Vec<char>, word: &str) -> (same: bool)
    ensures
        same == (token@ == word@),
{
    let mut i: usize = 0;
    for c in it: word.chars()
        invariant
            i == it.index(),
            i <= token.len(),
            it.seq() == word@,
            token@.take(i as int) == word@.take(i as int),
    {
        if i >= token.len() || token[i] != c {
            return false;
        }
        assert(token@.take(i + 1) == token@.take(i as int).push(token@[i as int]));
        assert(word@.take(i + 1) == word@.take(i as int).push(word@[i as int]));
        i += 1;
    }
    assert(word@.take(i as int) == word@);
    assert(i == token.len() ==> token@.take(i as int) == token@);
    i == token.len()
}

/// Join words with single spaces.
pub fn join_words(words: &[&str]) -> (sentence: String)
    ensures
        sentence@ == joined(str_views(words@)),
{
    let mut sentence = String::new();
    let ghost views = str_views(words@);
    for i in 0..words.len()
        invariant
            views == str_views(words@),
            sentence@ == joined(views.take(i as int)),
    {
        proof {
            reveal_strlit(" ");
            assert(views.take(i + 1).drop_last() == views.take(i as int));
            assert(" "@ =~= seq![' ']);
        }
        if i > 0 {
            sentence.append(" ");
        }
        sentence.append(words[i]);
    }
    assert(views.take(words.len() as int) == views);
    sentence
}

/// Cut a text into its words.
pub fn split_words(text: &str) -> (words: Vec<Vec<char>>)
    ensures
        vec_views(words@) == words_of(text@),
{
    let chars = chars_of(text);
    let mut words: Vec<Vec<char>> = Vec::new();
    let mut i: usize = 0;
    assert(chars@.skip(0) == chars@);
    assert(vec_views(words@) + words_of(chars@) == words_of(chars@));
    while i < chars.len()
        invariant
            i <= chars.len(),
            chars@ == text@,
            words_of(text@) == vec_views(words@) + words_of(chars@.skip(i as int)),
        decreases chars.len() - i,
    {
        let ghost rest = chars@.skip(i as int);
        if is_whitespace(chars[i]) {
            assert(rest.drop_first() == chars@.skip(i + 1));
            i += 1;
        } else {
            let start = i;
            let mut word: Vec<char> = Vec::new();
            word.push(chars[i]);
            i += 1;
            while i < chars.len() && !is_whitespace(chars[i])
                invariant
                    start < i <= chars.len(),
                    word@ == chars@.subrange(start as int, i as int),
                    forall|k: int| start <= k < i ==> !is_space(#[trigger] chars@[k]),
                decreases chars.len() - i,
            {
                word.push(chars[i]);
                i += 1;
            }
            proof {
                lemma_word_len_is(rest.drop_first(), i - start - 1);
                assert(rest.take(i - start) == word@);
                assert(rest.skip(i - start) == chars@.skip(i as int));
            }
            let ghost before = vec_views(words@);
            words.push(word);
            assert(vec_views(words@) == before + seq![word@]);
        }
    }
    assert(chars@.skip(i as int) == Seq::<char>::empty());
    words
}

/// The one-character string for a digit.
pub fn digit_str(d: usize) -> (s: &'static str)
    requires
        d < 10,
    ensures
        s@ == seq![digit_char(d as nat)],
{
    proof {
        reveal_strlit("0");
        reveal_strlit("1");
        reveal_strlit("2");
        reveal_strlit("3");
        reveal_strlit("4");
        reveal_strlit("5");
        reveal_strlit("6");
        reveal_strlit("7");
        reveal_strlit("8");
        reveal_strlit("9");
    }
    let s = match d {
        0 => "0",
        1 => "1",
        2 => "2",
        3 => "3",
        4 => "4",
        5 => "5",
        6 => "6",
        7 => "7",
        8 => "8",
        _ => "9",
    };
    assert(s@ =~= seq![digit_char(d as nat)]);
    s
}

/// Append `n` in decimal to `out`.
pub fn append_decimal(out: &mut String, n: usize)
    ensures
        final(out)@ == old(out)@ + decimal(n as nat),
    decreases n,
{
    if n >= 10 {
        append_decimal(out, n / 10);
    }
    out.append(digit_str(n % 10));
    assert(out@ =~= old(out)@ + decimal(n as nat));
}

/// `n` in decimal.
pub fn decimal_string(n: usize) -> (s: String)
    ensures
        s@ == decimal(n as nat),
{
    let mut s = String::new();
    append_decimal(&mut s, n);
    assert(s@ =~= decimal(n as nat));
    s
}

/// The digit that a character stands for.
pub fn digit(c: char) -> (d: Option<usize>)
    ensures
        d == match digit_value(c) {
            Some(v) => Some(v as usize),
            None => None,
        },
        d matches Some(v) ==> v < 10,
{
    let n = c as u32;
    if 0x30 <= n && n <= 0x39 {
        Some((n - 0x30) as usize)
    } else {
        None
    }
}

/// Read a non-empty run of digits as a decimal number. Anything else, and
/// a number too large for `usize`, gives `None`.
pub fn parse_decimal(token: &Vec<char>) -> (number: Option<usize>)
    ensures
        number == match decimal_value(token@) {
            Some(v) => if v <= usize::MAX {
                Some(v as usize)
            } else {
                None
            },
            None => None,
        },
{
    if token.len() == 0 {
        return None;
    }
    let mut value: usize = 0;
    for i in 0..token.len()
        invariant
            i == 0 ==> value == 0,
            i > 0 ==> decimal_value(token@.take(i as int)) == Some(value as nat),
    {
        let ghost prefix = token@.take(i + 1);
        proof {
            assert(prefix.drop_last() == token@.take(i as int));
            assert(prefix.last() == token@[i as int]);
            if decimal_value(token@) is Some {
                lemma_decimal_value_prefix(token@, i + 1);
            }
        }
        let next = match (digit(token[i]), value.checked_mul(10)) {
            (Some(d), Some(tens)) => tens.checked_add(d),
            _ => None,
        };
        match next {
            Some(v) => {
                value = v;
            },
            None => {
                return None;
            },
        }
    }
    assert(token@.take(token.len() as int) == token@);
    Some(value)
}

/// Where the first word of a text ends.
pub proof fn lemma_word_len_is(s: Seq<char>, n: int)
    requires
        0 <= n <= s.len(),
        forall|k: int| 0 <= k < n ==> !is_space(#[trigger] s[k]),
        n == s.len() || is_space(s[n]),
    ensures
        word_len(s) == n,
    decreases s.len(),
{
    if n > 0 {
        let rest = s.drop_first();
        assert forall|k: int| 0 <= k < n - 1 implies !is_space(#[trigger] rest[k]) by {
            assert(rest[k] == s[k + 1]);
        }
        lemma_word_len_is(rest, n - 1);
    }
}

/// The first word of a text has no white space, and ends at white space or
/// at the end of the text.
pub proof fn lemma_word_len_ends(s: Seq<char>)
    ensures
        word_len(s) <= s.len(),
        forall|k: int| 0 <= k < word_len(s) ==> !is_space(#[trigger] s[k]),
        word_len(s) == s.len() || is_space(s[word_len(s) as int]),
    decreases s.len(),
{
    if s.len() > 0 && !is_space(s[0]) {
        let rest = s.drop_first();
        lemma_word_len_ends(rest);
        assert forall|k: int| 0 <= k < word_len(s) implies !is_space(#[trigger] s[k]) by {
            if k > 0 {
                assert(s[k] == rest[k - 1]);
            }
        }
    }
}

/// A word is the only word of itself.
pub proof fn lemma_words_of_word(w: Seq<char>)
    requires
        is_word(w),
    ensures
        words_of(w) == seq![w],
{
    let rest = w.drop_first();
    assert forall|k: int| 0 <= k < rest.len() implies !is_space(#[trigger] rest[k]) by {
        assert(rest[k] == w[k + 1]);
    }
    lemma_word_len_is(rest, rest.len() as int);
    assert(w.take(w.len() as int) == w);
    assert(w.skip(w.len() as int) == Seq::<char>::empty());
    assert(words_of(Seq::<char>::empty()) == Seq::<Seq<char>>::empty());
    assert(words_of(w) =~= seq![w]);
}

/// A space and a word after a text add that word to the words of the text.
pub proof fn lemma_words_of_append(a: Seq<char>, w: Seq<char>)
    requires
        is_word(w),
    ensures
        words_of(a + seq![' '] + w) == words_of(a).push(w),
    decreases a.len(),
{
    let s = a + seq![' '] + w;
    if a.len() == 0 {
        assert(s.drop_first() == w);
        lemma_words_of_word(w);
        assert(words_of(a).push(w) =~= seq![w]);
    } else if is_space(a[0]) {
        assert(s.drop_first() == a.drop_first() + seq![' '] + w);
        lemma_words_of_append(a.drop_first(), w);
    } else {
        let m = word_len(a.drop_first()) as int;
        let tail = s.drop_first();
        lemma_word_len_ends(a.drop_first());
        assert forall|k: int| 0 <= k < m implies !is_space(#[trigger] tail[k]) by {
            assert(tail[k] == a.drop_first()[k]);
        }
        if m < a.drop_first().len() {
            assert(tail[m] == a.drop_first()[m]);
        } else {
            assert(tail[m] == ' ');
        }
        lemma_word_len_is(tail, m);
        let n = 1 + m;
        assert(s.take(n) == a.take(n));
        assert(s.skip(n) == a.skip(n) + seq![' '] + w);
        lemma_words_of_append(a.skip(n), w);
        assert(words_of(s) =~= words_of(a).push(w));
    }
}

/// Splitting undoes joining: words joined by single spaces are the words of
/// the joined text.
pub proof fn lemma_words_of_joined(words: Seq<Seq<char>>)
    requires
        all_words(words),
    ensures
        words_of(joined(words)) == words,
    decreases words.len(),
{
    if words.len() == 0 {
    } else if words.len() == 1 {
        lemma_words_of_word(words[0]);
        assert(words =~= seq![words[0]]);
    } else {
        lemma_words_of_joined(words.drop_last());
        lemma_words_of_append(joined(words.drop_last()), words.last());
        assert(words.drop_last().push(words.last()) =~= words);
    }
}

/// A number in decimal is a word, and spells that number.
pub proof fn lemma_decimal(n: nat)
    ensures
        is_word(decimal(n)),
        decimal_value(decimal(n)) == Some(n),
    decreases n,
{
    if n >= 10 {
        lemma_decimal(n / 10);
        let s = decimal(n);
        assert(s.drop_last() == decimal(n / 10));
        assert(s.last() == digit_char(n % 10));
    }
}

/// A prefix of a decimal number is a decimal number, and not a larger one.
pub proof fn lemma_decimal_value_prefix(s: Seq<char>, n: int)
    requires
        0 < n <= s.len(),
        decimal_value(s) is Some,
    ensures
        decimal_value(s.take(n)) is Some,
        decimal_value(s.take(n))->0 <= decimal_value(s)->0,
    decreases s.len(),
{
    if n == s.len() {
        assert(s.take(n) == s);
    } else {
        assert(s.drop_last().take(n) == s.take(n));
        lemma_decimal_value_prefix(s.drop_last(), n);
    }
}

} // verus!
