//! The word lists.
//!
//! Eight lists of twenty-five words each. A list is used through
//! [`select`], which reduces any number to a position in the list, and
//! through [`find`], which looks a word up again.

use crate::text::{all_words, same_chars, str_views};
use vstd::prelude::*;

verus! {

/// How many words each list holds.
pub const LIST_LEN: usize = 25;

/// First names.
pub const FIRST: [&'static str; 25] = [
    "Abby", "Adam", "Agnes", "Alex", "Amos", "Anna", "Basil", "Bella", "Boris", "Brenda",
    "Bruno", "Carla", "Carey", "Cyrus", "Daisy", "Edgar", "Fiona", "Joy", "Hugo", "Irene",
    "Jonas", "Karen", "Lionel", "Mabel", "Nora",
];

/// Middle names.
pub const MIDDLE: [&'static str; 25] = [
    "Ansel", "Blythe", "Corwin", "Delphi", "Emlyn", "Farrow", "Garnet", "Harlow", "Ivor",
    "Fatma", "Bolt", "Jarvis", "Kendrick", "Linden", "Merrit", "Noble", "Orrin", "Piper",
    "Quill", "Rowan", "Sable", "Teague", "Upton", "Vance", "Wren",
];

/// Last names.
pub const LAST: [&'static str; 25] = [
    "Abbott", "Barlow", "Carver", "Dalton", "Easton", "Farley", "Garner", "Hadley", "Ingram",
    "Jasper", "Keller", "Lawson", "Mercer", "Norton", "Osborn", "Parker", "Quimby", "Ramsey",
    "Sander", "Thorne", "Ulrich", "Vernon", "Walker", "Kahler", "Yardley",
];

/// What a person is called after what they do.
pub const PERSONAL_NOUNS: [&'static str; 25] = [
    "admirer", "baker", "captain", "dancer", "editor", "farmer", "avenger", "gardener",
    "hunter", "inventor", "juggler", "keeper", "lawyer", "mayor", "neighbor", "officer",
    "painter", "queen", "ranger", "sailor", "teacher", "umpire", "visitor", "warden", "yodeler",
];

/// Names of towns.
pub const PLACES: [&'static str; 25] = [
    "Alvo", "Bly", "Cody", "Esbon", "Dover", "Elgin", "Fargo", "Galena", "Hilo", "Irvine",
    "Juneau", "Keene", "Laredo", "Macon", "Nome", "Ojai", "Provo", "Quincy", "Reno", "Salem",
    "Tulsa", "Utica", "Vail", "Waco", "Yuma",
];

/// Verbs in the past tense.
pub const VERBS: [&'static str; 25] = [
    "sang", "asked", "baked", "called", "chased", "dared", "fed", "found", "greeted", "helped",
    "hugged", "invited", "joined", "kicked", "led", "met", "nudged", "painted", "praised",
    "raced", "saw", "taught", "thanked", "warned", "jumped",
];

/// Adjectives.
pub const ADJECTIVES: [&'static str; 25] = [
    "angry", "brave", "large", "calm", "clever", "eager", "fancy", "narrow", "gentle", "happy",
    "jolly", "kind", "lazy", "merry", "noisy", "proud", "quiet", "rapid", "shiny", "tidy",
    "vast", "witty", "young", "zany", "bold",
];

/// Animals, in the plural.
pub const ANIMALS: [&'static str; 25] = [
    "ants", "bears", "cats", "chickens", "cows", "deer", "eagles", "foxes", "geese", "hares",
    "horses", "ibises", "jackals", "koalas", "lions", "moose", "newts", "otters", "pigs",
    "ducks", "quails", "rabbits", "seals", "tigers", "wolves",
];

/// The word that `value` selects from `list`: the one at `value` modulo the
/// length of the list. Every value selects a word, and many values select
/// the same one.
pub fn select(list: &[&'static str; 25], value: usize) -> (word: &'static str)
    ensures
        0 <= value % 25 < str_views(list@).len(),
        word@ == str_views(list@)[(value % 25) as int],
{
    list[value % LIST_LEN]
}

/// Where `token` first stands in `list`, if it stands there.
pub open spec fn position_of(list: [&'static str; 25], token: Seq<char>) -> Option<int> {
    str_views(list@).index_of_first(token)
}

/// Look a word up in `list`: the first position at which it stands.
pub fn find(list: &[&'static str; 25], token: &Vec<char>) -> (position: Option<usize>)
    ensures
        position_of(*list, token@) == match position {
            Some(i) => Some(i as int),
            None => None,
        },
        position matches Some(i) ==> {
            &&& i < 25
            &&& str_views(list@)[i as int] == token@
            &&& forall|k: int| 0 <= k < i ==> str_views(list@)[k] != token@
        },
        position is None ==> forall|k: int| 0 <= k < 25 ==> str_views(list@)[k] != token@,
{
    let ghost words = str_views(list@);
    for i in 0..LIST_LEN
        invariant
            words == str_views(list@),
            forall|k: int| 0 <= k < i ==> words[k] != token@,
    {
        if same_chars(token, list[i]) {
            proof {
                assert(words[i as int] == token@);
                words.index_of_first_ensures(token@);
            }
            return Some(i);
        }
    }
    proof {
        words.index_of_first_ensures(token@);
    }
    None
}

/// In a list without repetition each word is found where it stands.
pub proof fn lemma_position_of_entry(list: [&'static str; 25], i: int)
    requires
        str_views(list@).no_duplicates(),
        0 <= i < 25,
    ensures
        position_of(list, list[i]@) == Some(i),
{
    let words = str_views(list@);
    assert(words[i] == list[i]@);
    words.index_of_first_ensures(list[i]@);
}

/// The entries of `FIRST` are words, and no two of them are the same.
pub proof fn lemma_first()
    ensures
        all_words(str_views(FIRST@)),
        str_views(FIRST@).no_duplicates(),
{
    reveal_strlit("Abby");
    reveal_strlit("Adam");
    reveal_strlit("Agnes");
    reveal_strlit("Alex");
    reveal_strlit("Amos");
    reveal_strlit("Anna");
    reveal_strlit("Basil");
    reveal_strlit("Bella");
    reveal_strlit("Boris");
    reveal_strlit("Brenda");
    reveal_strlit("Bruno");
    reveal_strlit("Carla");
    reveal_strlit("Carey");
    reveal_strlit("Cyrus");
    reveal_strlit("Daisy");
    reveal_strlit("Edgar");
    reveal_strlit("Fiona");
    reveal_strlit("Joy");
    reveal_strlit("Hugo");
    reveal_strlit("Irene");
    reveal_strlit("Jonas");
    reveal_strlit("Karen");
    reveal_strlit("Lionel");
    reveal_strlit("Mabel");
    reveal_strlit("Nora");
    assert(FIRST[0]@ =~= seq!['A', 'b', 'b', 'y']);
    assert(FIRST[1]@ =~= seq!['A', 'd', 'a', 'm']);
    assert(FIRST[2]@ =~= seq!['A', 'g', 'n', 'e', 's']);
    assert(FIRST[3]@ =~= seq!['A', 'l', 'e', 'x']);
    assert(FIRST[4]@ =~= seq!['A', 'm', 'o', 's']);
    assert(FIRST[5]@ =~= seq!['A', 'n', 'n', 'a']);
    assert(FIRST[6]@ =~= seq!['B', 'a', 's', 'i', 'l']);
    assert(FIRST[7]@ =~= seq!['B', 'e', 'l', 'l', 'a']);
    assert(FIRST[8]@ =~= seq!['B', 'o', 'r', 'i', 's']);
    assert(FIRST[9]@ =~= seq!['B', 'r', 'e', 'n', 'd', 'a']);
    assert(FIRST[10]@ =~= seq!['B', 'r', 'u', 'n', 'o']);
    assert(FIRST[11]@ =~= seq!['C', 'a', 'r', 'l', 'a']);
    assert(FIRST[12]@ =~= seq!['C', 'a', 'r', 'e', 'y']);
    assert(FIRST[13]@ =~= seq!['C', 'y', 'r', 'u', 's']);
    assert(FIRST[14]@ =~= seq!['D', 'a', 'i', 's', 'y']);
    assert(FIRST[15]@ =~= seq!['E', 'd', 'g', 'a', 'r']);
    assert(FIRST[16]@ =~= seq!['F', 'i', 'o', 'n', 'a']);
    assert(FIRST[17]@ =~= seq!['J', 'o', 'y']);
    assert(FIRST[18]@ =~= seq!['H', 'u', 'g', 'o']);
    assert(FIRST[19]@ =~= seq!['I', 'r', 'e', 'n', 'e']);
    assert(FIRST[20]@ =~= seq!['J', 'o', 'n', 'a', 's']);
    assert(FIRST[21]@ =~= seq!['K', 'a', 'r', 'e', 'n']);
    assert(FIRST[22]@ =~= seq!['L', 'i', 'o', 'n', 'e', 'l']);
    assert(FIRST[23]@ =~= seq!['M', 'a', 'b', 'e', 'l']);
    assert(FIRST[24]@ =~= seq!['N', 'o', 'r', 'a']);
}

/// The entries of `MIDDLE` are words, and no two of them are the same.
pub proof fn lemma_middle()
    ensures
        all_words(str_views(MIDDLE@)),
        str_views(MIDDLE@).no_duplicates(),
{
    reveal_strlit("Ansel");
    reveal_strlit("Blythe");
    reveal_strlit("Corwin");
    reveal_strlit("Delphi");
    reveal_strlit("Emlyn");
    reveal_strlit("Farrow");
    reveal_strlit("Garnet");
    reveal_strlit("Harlow");
    reveal_strlit("Ivor");
    reveal_strlit("Fatma");
    reveal_strlit("Bolt");
    reveal_strlit("Jarvis");
    reveal_strlit("Kendrick");
    reveal_strlit("Linden");
    reveal_strlit("Merrit");
    reveal_strlit("Noble");
    reveal_strlit("Orrin");
    reveal_strlit("Piper");
    reveal_strlit("Quill");
    reveal_strlit("Rowan");
    reveal_strlit("Sable");
    reveal_strlit("Teague");
    reveal_strlit("Upton");
    reveal_strlit("Vance");
    reveal_strlit("Wren");
    assert(MIDDLE[0]@ =~= seq!['A', 'n', 's', 'e', 'l']);
    assert(MIDDLE[1]@ =~= seq!['B', 'l', 'y', 't', 'h', 'e']);
    assert(MIDDLE[2]@ =~= seq!['C', 'o', 'r', 'w', 'i', 'n']);
    assert(MIDDLE[3]@ =~= seq!['D', 'e', 'l', 'p', 'h', 'i']);
    assert(MIDDLE[4]@ =~= seq!['E', 'm', 'l', 'y', 'n']);
    assert(MIDDLE[5]@ =~= seq!['F', 'a', 'r', 'r', 'o', 'w']);
    assert(MIDDLE[6]@ =~= seq!['G', 'a', 'r', 'n', 'e', 't']);
    assert(MIDDLE[7]@ =~= seq!['H', 'a', 'r', 'l', 'o', 'w']);
    assert(MIDDLE[8]@ =~= seq!['I', 'v', 'o', 'r']);
    assert(MIDDLE[9]@ =~= seq!['F', 'a', 't', 'm', 'a']);
    assert(MIDDLE[10]@ =~= seq!['B', 'o', 'l', 't']);
    assert(MIDDLE[11]@ =~= seq!['J', 'a', 'r', 'v', 'i', 's']);
    assert(MIDDLE[12]@ =~= seq!['K', 'e', 'n', 'd', 'r', 'i', 'c', 'k']);
    assert(MIDDLE[13]@ =~= seq!['L', 'i', 'n', 'd', 'e', 'n']);
    assert(MIDDLE[14]@ =~= seq!['M', 'e', 'r', 'r', 'i', 't']);
    assert(MIDDLE[15]@ =~= seq!['N', 'o', 'b', 'l', 'e']);
    assert(MIDDLE[16]@ =~= seq!['O', 'r', 'r', 'i', 'n']);
    assert(MIDDLE[17]@ =~= seq!['P', 'i', 'p', 'e', 'r']);
    assert(MIDDLE[18]@ =~= seq!['Q', 'u', 'i', 'l', 'l']);
    assert(MIDDLE[19]@ =~= seq!['R', 'o', 'w', 'a', 'n']);
    assert(MIDDLE[20]@ =~= seq!['S', 'a', 'b', 'l', 'e']);
    assert(MIDDLE[21]@ =~= seq!['T', 'e', 'a', 'g', 'u', 'e']);
    assert(MIDDLE[22]@ =~= seq!['U', 'p', 't', 'o', 'n']);
    assert(MIDDLE[23]@ =~= seq!['V', 'a', 'n', 'c', 'e']);
    assert(MIDDLE[24]@ =~= seq!['W', 'r', 'e', 'n']);
}

/// The entries of `LAST` are words, and no two of them are the same.
pub proof fn lemma_last()
    ensures
        all_words(str_views(LAST@)),
        str_views(LAST@).no_duplicates(),
{
    reveal_strlit("Abbott");
    reveal_strlit("Barlow");
    reveal_strlit("Carver");
    reveal_strlit("Dalton");
    reveal_strlit("Easton");
    reveal_strlit("Farley");
    reveal_strlit("Garner");
    reveal_strlit("Hadley");
    reveal_strlit("Ingram");
    reveal_strlit("Jasper");
    reveal_strlit("Keller");
    reveal_strlit("Lawson");
    reveal_strlit("Mercer");
    reveal_strlit("Norton");
    reveal_strlit("Osborn");
    reveal_strlit("Parker");
    reveal_strlit("Quimby");
    reveal_strlit("Ramsey");
    reveal_strlit("Sander");
    reveal_strlit("Thorne");
    reveal_strlit("Ulrich");
    reveal_strlit("Vernon");
    reveal_strlit("Walker");
    reveal_strlit("Kahler");
    reveal_strlit("Yardley");
    assert(LAST[0]@ =~= seq!['A', 'b', 'b', 'o', 't', 't']);
    assert(LAST[1]@ =~= seq!['B', 'a', 'r', 'l', 'o', 'w']);
    assert(LAST[2]@ =~= seq!['C', 'a', 'r', 'v', 'e', 'r']);
    assert(LAST[3]@ =~= seq!['D', 'a', 'l', 't', 'o', 'n']);
    assert(LAST[4]@ =~= seq!['E', 'a', 's', 't', 'o', 'n']);
    assert(LAST[5]@ =~= seq!['F', 'a', 'r', 'l', 'e', 'y']);
    assert(LAST[6]@ =~= seq!['G', 'a', 'r', 'n', 'e', 'r']);
    assert(LAST[7]@ =~= seq!['H', 'a', 'd', 'l', 'e', 'y']);
    assert(LAST[8]@ =~= seq!['I', 'n', 'g', 'r', 'a', 'm']);
    assert(LAST[9]@ =~= seq!['J', 'a', 's', 'p', 'e', 'r']);
    assert(LAST[10]@ =~= seq!['K', 'e', 'l', 'l', 'e', 'r']);
    assert(LAST[11]@ =~= seq!['L', 'a', 'w', 's', 'o', 'n']);
    assert(LAST[12]@ =~= seq!['M', 'e', 'r', 'c', 'e', 'r']);
    assert(LAST[13]@ =~= seq!['N', 'o', 'r', 't', 'o', 'n']);
    assert(LAST[14]@ =~= seq!['O', 's', 'b', 'o', 'r', 'n']);
    assert(LAST[15]@ =~= seq!['P', 'a', 'r', 'k', 'e', 'r']);
    assert(LAST[16]@ =~= seq!['Q', 'u', 'i', 'm', 'b', 'y']);
    assert(LAST[17]@ =~= seq!['R', 'a', 'm', 's', 'e', 'y']);
    assert(LAST[18]@ =~= seq!['S', 'a', 'n', 'd', 'e', 'r']);
    assert(LAST[19]@ =~= seq!['T', 'h', 'o', 'r', 'n', 'e']);
    assert(LAST[20]@ =~= seq!['U', 'l', 'r', 'i', 'c', 'h']);
    assert(LAST[21]@ =~= seq!['V', 'e', 'r', 'n', 'o', 'n']);
    assert(LAST[22]@ =~= seq!['W', 'a', 'l', 'k', 'e', 'r']);
    assert(LAST[23]@ =~= seq!['K', 'a', 'h', 'l', 'e', 'r']);
    assert(LAST[24]@ =~= seq!['Y', 'a', 'r', 'd', 'l', 'e', 'y']);
}

/// The entries of `PERSONAL_NOUNS` are words, and no two of them are the same.
pub proof fn lemma_personal_nouns()
    ensures
        all_words(str_views(PERSONAL_NOUNS@)),
        str_views(PERSONAL_NOUNS@).no_duplicates(),
{
    reveal_strlit("admirer");
    reveal_strlit("baker");
    reveal_strlit("captain");
    reveal_strlit("dancer");
    reveal_strlit("editor");
    reveal_strlit("farmer");
    reveal_strlit("avenger");
    reveal_strlit("gardener");
    reveal_strlit("hunter");
    reveal_strlit("inventor");
    reveal_strlit("juggler");
    reveal_strlit("keeper");
    reveal_strlit("lawyer");
    reveal_strlit("mayor");
    reveal_strlit("neighbor");
    reveal_strlit("officer");
    reveal_strlit("painter");
    reveal_strlit("queen");
    reveal_strlit("ranger");
    reveal_strlit("sailor");
    reveal_strlit("teacher");
    reveal_strlit("umpire");
    reveal_strlit("visitor");
    reveal_strlit("warden");
    reveal_strlit("yodeler");
    assert(PERSONAL_NOUNS[0]@ =~= seq!['a', 'd', 'm', 'i', 'r', 'e', 'r']);
    assert(PERSONAL_NOUNS[1]@ =~= seq!['b', 'a', 'k', 'e', 'r']);
    assert(PERSONAL_NOUNS[2]@ =~= seq!['c', 'a', 'p', 't', 'a', 'i', 'n']);
    assert(PERSONAL_NOUNS[3]@ =~= seq!['d', 'a', 'n', 'c', 'e', 'r']);
    assert(PERSONAL_NOUNS[4]@ =~= seq!['e', 'd', 'i', 't', 'o', 'r']);
    assert(PERSONAL_NOUNS[5]@ =~= seq!['f', 'a', 'r', 'm', 'e', 'r']);
    assert(PERSONAL_NOUNS[6]@ =~= seq!['a', 'v', 'e', 'n', 'g', 'e', 'r']);
    assert(PERSONAL_NOUNS[7]@ =~= seq!['g', 'a', 'r', 'd', 'e', 'n', 'e', 'r']);
    assert(PERSONAL_NOUNS[8]@ =~= seq!['h', 'u', 'n', 't', 'e', 'r']);
    assert(PERSONAL_NOUNS[9]@ =~= seq!['i', 'n', 'v', 'e', 'n', 't', 'o', 'r']);
    assert(PERSONAL_NOUNS[10]@ =~= seq!['j', 'u', 'g', 'g', 'l', 'e', 'r']);
    assert(PERSONAL_NOUNS[11]@ =~= seq!['k', 'e', 'e', 'p', 'e', 'r']);
    assert(PERSONAL_NOUNS[12]@ =~= seq!['l', 'a', 'w', 'y', 'e', 'r']);
    assert(PERSONAL_NOUNS[13]@ =~= seq!['m', 'a', 'y', 'o', 'r']);
    assert(PERSONAL_NOUNS[14]@ =~= seq!['n', 'e', 'i', 'g', 'h', 'b', 'o', 'r']);
    assert(PERSONAL_NOUNS[15]@ =~= seq!['o', 'f', 'f', 'i', 'c', 'e', 'r']);
    assert(PERSONAL_NOUNS[16]@ =~= seq!['p', 'a', 'i', 'n', 't', 'e', 'r']);
    assert(PERSONAL_NOUNS[17]@ =~= seq!['q', 'u', 'e', 'e', 'n']);
    assert(PERSONAL_NOUNS[18]@ =~= seq!['r', 'a', 'n', 'g', 'e', 'r']);
    assert(PERSONAL_NOUNS[19]@ =~= seq!['s', 'a', 'i', 'l', 'o', 'r']);
    assert(PERSONAL_NOUNS[20]@ =~= seq!['t', 'e', 'a', 'c', 'h', 'e', 'r']);
    assert(PERSONAL_NOUNS[21]@ =~= seq!['u', 'm', 'p', 'i', 'r', 'e']);
    assert(PERSONAL_NOUNS[22]@ =~= seq!['v', 'i', 's', 'i', 't', 'o', 'r']);
    assert(PERSONAL_NOUNS[23]@ =~= seq!['w', 'a', 'r', 'd', 'e', 'n']);
    assert(PERSONAL_NOUNS[24]@ =~= seq!['y', 'o', 'd', 'e', 'l', 'e', 'r']);
}

/// The entries of `PLACES` are words, and no two of them are the same.
pub proof fn lemma_places()
    ensures
        all_words(str_views(PLACES@)),
        str_views(PLACES@).no_duplicates(),
{
    reveal_strlit("Alvo");
    reveal_strlit("Bly");
    reveal_strlit("Cody");
    reveal_strlit("Esbon");
    reveal_strlit("Dover");
    reveal_strlit("Elgin");
    reveal_strlit("Fargo");
    reveal_strlit("Galena");
    reveal_strlit("Hilo");
    reveal_strlit("Irvine");
    reveal_strlit("Juneau");
    reveal_strlit("Keene");
    reveal_strlit("Laredo");
    reveal_strlit("Macon");
    reveal_strlit("Nome");
    reveal_strlit("Ojai");
    reveal_strlit("Provo");
    reveal_strlit("Quincy");
    reveal_strlit("Reno");
    reveal_strlit("Salem");
    reveal_strlit("Tulsa");
    reveal_strlit("Utica");
    reveal_strlit("Vail");
    reveal_strlit("Waco");
    reveal_strlit("Yuma");
    assert(PLACES[0]@ =~= seq!['A', 'l', 'v', 'o']);
    assert(PLACES[1]@ =~= seq!['B', 'l', 'y']);
    assert(PLACES[2]@ =~= seq!['C', 'o', 'd', 'y']);
    assert(PLACES[3]@ =~= seq!['E', 's', 'b', 'o', 'n']);
    assert(PLACES[4]@ =~= seq!['D', 'o', 'v', 'e', 'r']);
    assert(PLACES[5]@ =~= seq!['E', 'l', 'g', 'i', 'n']);
    assert(PLACES[6]@ =~= seq!['F', 'a', 'r', 'g', 'o']);
    assert(PLACES[7]@ =~= seq!['G', 'a', 'l', 'e', 'n', 'a']);
    assert(PLACES[8]@ =~= seq!['H', 'i', 'l', 'o']);
    assert(PLACES[9]@ =~= seq!['I', 'r', 'v', 'i', 'n', 'e']);
    assert(PLACES[10]@ =~= seq!['J', 'u', 'n', 'e', 'a', 'u']);
    assert(PLACES[11]@ =~= seq!['K', 'e', 'e', 'n', 'e']);
    assert(PLACES[12]@ =~= seq!['L', 'a', 'r', 'e', 'd', 'o']);
    assert(PLACES[13]@ =~= seq!['M', 'a', 'c', 'o', 'n']);
    assert(PLACES[14]@ =~= seq!['N', 'o', 'm', 'e']);
    assert(PLACES[15]@ =~= seq!['O', 'j', 'a', 'i']);
    assert(PLACES[16]@ =~= seq!['P', 'r', 'o', 'v', 'o']);
    assert(PLACES[17]@ =~= seq!['Q', 'u', 'i', 'n', 'c', 'y']);
    assert(PLACES[18]@ =~= seq!['R', 'e', 'n', 'o']);
    assert(PLACES[19]@ =~= seq!['S', 'a', 'l', 'e', 'm']);
    assert(PLACES[20]@ =~= seq!['T', 'u', 'l', 's', 'a']);
    assert(PLACES[21]@ =~= seq!['U', 't', 'i', 'c', 'a']);
    assert(PLACES[22]@ =~= seq!['V', 'a', 'i', 'l']);
    assert(PLACES[23]@ =~= seq!['W', 'a', 'c', 'o']);
    assert(PLACES[24]@ =~= seq!['Y', 'u', 'm', 'a']);
}

/// The entries of `VERBS` are words, and no two of them are the same.
pub proof fn lemma_verbs()
    ensures
        all_words(str_views(VERBS@)),
        str_views(VERBS@).no_duplicates(),
{
    reveal_strlit("sang");
    reveal_strlit("asked");
    reveal_strlit("baked");
    reveal_strlit("called");
    reveal_strlit("chased");
    reveal_strlit("dared");
    reveal_strlit("fed");
    reveal_strlit("found");
    reveal_strlit("greeted");
    reveal_strlit("helped");
    reveal_strlit("hugged");
    reveal_strlit("invited");
    reveal_strlit("joined");
    reveal_strlit("kicked");
    reveal_strlit("led");
    reveal_strlit("met");
    reveal_strlit("nudged");
    reveal_strlit("painted");
    reveal_strlit("praised");
    reveal_strlit("raced");
    reveal_strlit("saw");
    reveal_strlit("taught");
    reveal_strlit("thanked");
    reveal_strlit("warned");
    reveal_strlit("jumped");
    assert(VERBS[0]@ =~= seq!['s', 'a', 'n', 'g']);
    assert(VERBS[1]@ =~= seq!['a', 's', 'k', 'e', 'd']);
    assert(VERBS[2]@ =~= seq!['b', 'a', 'k', 'e', 'd']);
    assert(VERBS[3]@ =~= seq!['c', 'a', 'l', 'l', 'e', 'd']);
    assert(VERBS[4]@ =~= seq!['c', 'h', 'a', 's', 'e', 'd']);
    assert(VERBS[5]@ =~= seq!['d', 'a', 'r', 'e', 'd']);
    assert(VERBS[6]@ =~= seq!['f', 'e', 'd']);
    assert(VERBS[7]@ =~= seq!['f', 'o', 'u', 'n', 'd']);
    assert(VERBS[8]@ =~= seq!['g', 'r', 'e', 'e', 't', 'e', 'd']);
    assert(VERBS[9]@ =~= seq!['h', 'e', 'l', 'p', 'e', 'd']);
    assert(VERBS[10]@ =~= seq!['h', 'u', 'g', 'g', 'e', 'd']);
    assert(VERBS[11]@ =~= seq!['i', 'n', 'v', 'i', 't', 'e', 'd']);
    assert(VERBS[12]@ =~= seq!['j', 'o', 'i', 'n', 'e', 'd']);
    assert(VERBS[13]@ =~= seq!['k', 'i', 'c', 'k', 'e', 'd']);
    assert(VERBS[14]@ =~= seq!['l', 'e', 'd']);
    assert(VERBS[15]@ =~= seq!['m', 'e', 't']);
    assert(VERBS[16]@ =~= seq!['n', 'u', 'd', 'g', 'e', 'd']);
    assert(VERBS[17]@ =~= seq!['p', 'a', 'i', 'n', 't', 'e', 'd']);
    assert(VERBS[18]@ =~= seq!['p', 'r', 'a', 'i', 's', 'e', 'd']);
    assert(VERBS[19]@ =~= seq!['r', 'a', 'c', 'e', 'd']);
    assert(VERBS[20]@ =~= seq!['s', 'a', 'w']);
    assert(VERBS[21]@ =~= seq!['t', 'a', 'u', 'g', 'h', 't']);
    assert(VERBS[22]@ =~= seq!['t', 'h', 'a', 'n', 'k', 'e', 'd']);
    assert(VERBS[23]@ =~= seq!['w', 'a', 'r', 'n', 'e', 'd']);
    assert(VERBS[24]@ =~= seq!['j', 'u', 'm', 'p', 'e', 'd']);
}

/// The entries of `ADJECTIVES` are words, and no two of them are the same.
pub proof fn lemma_adjectives()
    ensures
        all_words(str_views(ADJECTIVES@)),
        str_views(ADJECTIVES@).no_duplicates(),
{
    reveal_strlit("angry");
    reveal_strlit("brave");
    reveal_strlit("large");
    reveal_strlit("calm");
    reveal_strlit("clever");
    reveal_strlit("eager");
    reveal_strlit("fancy");
    reveal_strlit("narrow");
    reveal_strlit("gentle");
    reveal_strlit("happy");
    reveal_strlit("jolly");
    reveal_strlit("kind");
    reveal_strlit("lazy");
    reveal_strlit("merry");
    reveal_strlit("noisy");
    reveal_strlit("proud");
    reveal_strlit("quiet");
    reveal_strlit("rapid");
    reveal_strlit("shiny");
    reveal_strlit("tidy");
    reveal_strlit("vast");
    reveal_strlit("witty");
    reveal_strlit("young");
    reveal_strlit("zany");
    reveal_strlit("bold");
    assert(ADJECTIVES[0]@ =~= seq!['a', 'n', 'g', 'r', 'y']);
    assert(ADJECTIVES[1]@ =~= seq!['b', 'r', 'a', 'v', 'e']);
    assert(ADJECTIVES[2]@ =~= seq!['l', 'a', 'r', 'g', 'e']);
    assert(ADJECTIVES[3]@ =~= seq!['c', 'a', 'l', 'm']);
    assert(ADJECTIVES[4]@ =~= seq!['c', 'l', 'e', 'v', 'e', 'r']);
    assert(ADJECTIVES[5]@ =~= seq!['e', 'a', 'g', 'e', 'r']);
    assert(ADJECTIVES[6]@ =~= seq!['f', 'a', 'n', 'c', 'y']);
    assert(ADJECTIVES[7]@ =~= seq!['n', 'a', 'r', 'r', 'o', 'w']);
    assert(ADJECTIVES[8]@ =~= seq!['g', 'e', 'n', 't', 'l', 'e']);
    assert(ADJECTIVES[9]@ =~= seq!['h', 'a', 'p', 'p', 'y']);
    assert(ADJECTIVES[10]@ =~= seq!['j', 'o', 'l', 'l', 'y']);
    assert(ADJECTIVES[11]@ =~= seq!['k', 'i', 'n', 'd']);
    assert(ADJECTIVES[12]@ =~= seq!['l', 'a', 'z', 'y']);
    assert(ADJECTIVES[13]@ =~= seq!['m', 'e', 'r', 'r', 'y']);
    assert(ADJECTIVES[14]@ =~= seq!['n', 'o', 'i', 's', 'y']);
    assert(ADJECTIVES[15]@ =~= seq!['p', 'r', 'o', 'u', 'd']);
    assert(ADJECTIVES[16]@ =~= seq!['q', 'u', 'i', 'e', 't']);
    assert(ADJECTIVES[17]@ =~= seq!['r', 'a', 'p', 'i', 'd']);
    assert(ADJECTIVES[18]@ =~= seq!['s', 'h', 'i', 'n', 'y']);
    assert(ADJECTIVES[19]@ =~= seq!['t', 'i', 'd', 'y']);
    assert(ADJECTIVES[20]@ =~= seq!['v', 'a', 's', 't']);
    assert(ADJECTIVES[21]@ =~= seq!['w', 'i', 't', 't', 'y']);
    assert(ADJECTIVES[22]@ =~= seq!['y', 'o', 'u', 'n', 'g']);
    assert(ADJECTIVES[23]@ =~= seq!['z', 'a', 'n', 'y']);
    assert(ADJECTIVES[24]@ =~= seq!['b', 'o', 'l', 'd']);
}

/// The entries of `ANIMALS` are words, and no two of them are the same.
pub proof fn lemma_animals()
    ensures
        all_words(str_views(ANIMALS@)),
        str_views(ANIMALS@).no_duplicates(),
{
    reveal_strlit("ants");
    reveal_strlit("bears");
    reveal_strlit("cats");
    reveal_strlit("chickens");
    reveal_strlit("cows");
    reveal_strlit("deer");
    reveal_strlit("eagles");
    reveal_strlit("foxes");
    reveal_strlit("geese");
    reveal_strlit("hares");
    reveal_strlit("horses");
    reveal_strlit("ibises");
    reveal_strlit("jackals");
    reveal_strlit("koalas");
    reveal_strlit("lions");
    reveal_strlit("moose");
    reveal_strlit("newts");
    reveal_strlit("otters");
    reveal_strlit("pigs");
    reveal_strlit("ducks");
    reveal_strlit("quails");
    reveal_strlit("rabbits");
    reveal_strlit("seals");
    reveal_strlit("tigers");
    reveal_strlit("wolves");
    assert(ANIMALS[0]@ =~= seq!['a', 'n', 't', 's']);
    assert(ANIMALS[1]@ =~= seq!['b', 'e', 'a', 'r', 's']);
    assert(ANIMALS[2]@ =~= seq!['c', 'a', 't', 's']);
    assert(ANIMALS[3]@ =~= seq!['c', 'h', 'i', 'c', 'k', 'e', 'n', 's']);
    assert(ANIMALS[4]@ =~= seq!['c', 'o', 'w', 's']);
    assert(ANIMALS[5]@ =~= seq!['d', 'e', 'e', 'r']);
    assert(ANIMALS[6]@ =~= seq!['e', 'a', 'g', 'l', 'e', 's']);
    assert(ANIMALS[7]@ =~= seq!['f', 'o', 'x', 'e', 's']);
    assert(ANIMALS[8]@ =~= seq!['g', 'e', 'e', 's', 'e']);
    assert(ANIMALS[9]@ =~= seq!['h', 'a', 'r', 'e', 's']);
    assert(ANIMALS[10]@ =~= seq!['h', 'o', 'r', 's', 'e', 's']);
    assert(ANIMALS[11]@ =~= seq!['i', 'b', 'i', 's', 'e', 's']);
    assert(ANIMALS[12]@ =~= seq!['j', 'a', 'c', 'k', 'a', 'l', 's']);
    assert(ANIMALS[13]@ =~= seq!['k', 'o', 'a', 'l', 'a', 's']);
    assert(ANIMALS[14]@ =~= seq!['l', 'i', 'o', 'n', 's']);
    assert(ANIMALS[15]@ =~= seq!['m', 'o', 'o', 's', 'e']);
    assert(ANIMALS[16]@ =~= seq!['n', 'e', 'w', 't', 's']);
    assert(ANIMALS[17]@ =~= seq!['o', 't', 't', 'e', 'r', 's']);
    assert(ANIMALS[18]@ =~= seq!['p', 'i', 'g', 's']);
    assert(ANIMALS[19]@ =~= seq!['d', 'u', 'c', 'k', 's']);
    assert(ANIMALS[20]@ =~= seq!['q', 'u', 'a', 'i', 'l', 's']);
    assert(ANIMALS[21]@ =~= seq!['r', 'a', 'b', 'b', 'i', 't', 's']);
    assert(ANIMALS[22]@ =~= seq!['s', 'e', 'a', 'l', 's']);
    assert(ANIMALS[23]@ =~= seq!['t', 'i', 'g', 'e', 'r', 's']);
    assert(ANIMALS[24]@ =~= seq!['w', 'o', 'l', 'v', 'e', 's']);
}

} // verus!
