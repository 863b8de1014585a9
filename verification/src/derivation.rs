//! Construction of the derivation table, in stages: each stage spells the
//! member names it needs with the letters of the stages before it.

use crate::encode::{can_synthesize, constructor_word, covers, from_string, from_string_spec};
use crate::formatter::{index_by_num_spec, index_by_str_spec, Formatter, JavascriptIndex};
use crate::numeral::{number, number_spec};
use crate::table::CharMap;
use vstd::prelude::*;
use vstd::string::*;

verus! {

/// The name of the method that renders a number in a given radix.
pub open spec fn to_string_word() -> Seq<char> {
    "toString"@
}

/// The body of the function that hands out the global `escape`.
pub open spec fn return_escape_word() -> Seq<char> {
    "return escape"@
}

/// An object added to an empty array: the string `[object Object]`.
pub open spec fn object_phrase() -> Seq<char> {
    "{}+[]"@
}

/// A negated empty array as a string: `false`.
pub open spec fn false_phrase() -> Seq<char> {
    "![]+[]"@
}

/// A doubly negated empty array as a string: `true`.
pub open spec fn true_phrase() -> Seq<char> {
    "!![]+[]"@
}

/// One divided by zero as a string: `Infinity`.
pub open spec fn infinity_phrase() -> Seq<char> {
    "+!![]/+![]+[]"@
}

/// A regular expression that matches one backslash, as a string.
pub open spec fn backslash_phrase() -> Seq<char> {
    "/\\\\/+[]"@
}

/// The source text of the constructor of `value`, as `table` reaches it:
/// `function Name() { [native code] }`.
pub open spec fn constructor_phrase(value: Seq<char>, table: Map<char, Seq<char>>) -> Seq<char> {
    "[]+"@ + index_by_str_spec(value, table, constructor_word())
}

/// The digit that `value` renders as in `radix`: `toString`, spelled through
/// `table`, called on the one numeral with the other.
pub open spec fn radix_digit_spec(table: Map<char, Seq<char>>, value: nat, radix: nat) -> Seq<
    char,
> {
    "("@ + number_spec(value) + ")["@ + from_string_spec(table, to_string_word()) + "]("@
        + number_spec(radix) + ")"@
}

/// The function constructor, reached from an empty arrow function.
pub open spec fn function_constructor_spec(table: Map<char, Seq<char>>) -> Seq<char> {
    "(()=>{})["@ + from_string_spec(table, constructor_word()) + "]"@
}

/// The third character of the escaped backslash, `%5C`: a function that
/// returns `escape` is made and called, and its result called on the
/// table's backslash.
pub open spec fn escaped_backslash_spec(table: Map<char, Seq<char>>) -> Seq<char> {
    "("@ + function_constructor_spec(table) + "("@ + from_string_spec(table, return_escape_word())
        + ")()("@ + table['\\'] + "))["@ + number_spec(2) + "]"@
}

/// The letters and the space read off the strings that plain coercions give.
pub open spec fn coercion_stage() -> Map<char, Seq<char>> {
    Map::<char, Seq<char>>::empty().insert('a', "(+{}+[])[+!![]]"@).insert(
        'o',
        index_by_num_spec(object_phrase(), 1),
    ).insert('b', index_by_num_spec(object_phrase(), 2)).insert(
        'j',
        index_by_num_spec(object_phrase(), 3),
    ).insert('e', index_by_num_spec(object_phrase(), 4)).insert(
        'c',
        index_by_num_spec(object_phrase(), 5),
    ).insert(' ', index_by_num_spec(object_phrase(), 7)).insert(
        'f',
        index_by_num_spec(false_phrase(), 0),
    ).insert('l', index_by_num_spec(false_phrase(), 2)).insert(
        's',
        index_by_num_spec(false_phrase(), 3),
    ).insert('t', index_by_num_spec(true_phrase(), 0)).insert(
        'r',
        index_by_num_spec(true_phrase(), 1),
    ).insert('u', index_by_num_spec(true_phrase(), 2)).insert(
        'n',
        index_by_num_spec(infinity_phrase(), 4),
    ).insert('i', index_by_num_spec(infinity_phrase(), 3))
}

/// The letters read off the source text of the string constructor.
pub open spec fn string_stage() -> Map<char, Seq<char>> {
    let before = coercion_stage();
    let phrase = constructor_phrase("[]+[]"@, before);
    before.insert('S', index_by_num_spec(phrase, 9)).insert('g', index_by_num_spec(phrase, 14))
}

/// The letter read off the source text of the regular-expression constructor,
/// and the backslash.
pub open spec fn regexp_stage() -> Map<char, Seq<char>> {
    let before = string_stage();
    let phrase = constructor_phrase("/-/"@, before);
    before.insert('p', index_by_num_spec(phrase, 14)).insert(
        '\\',
        index_by_num_spec(backslash_phrase(), 1),
    )
}

/// The letters that are digits in a radix above ten.
pub open spec fn radix_stage() -> Map<char, Seq<char>> {
    let with_d = regexp_stage().insert('d', radix_digit_spec(regexp_stage(), 13, 14));
    let with_h = with_d.insert('h', radix_digit_spec(with_d, 17, 18));
    with_h.insert('m', radix_digit_spec(with_h, 22, 23))
}

/// The finished table.
pub open spec fn char_map_spec() -> Map<char, Seq<char>> {
    radix_stage().insert('C', escaped_backslash_spec(radix_stage()))
}

/// The characters that the finished table knows.
pub open spec fn base_alphabet() -> Set<char> {
    set![
        'a', 'o', 'b', 'j', 'e', 'c', ' ', 'f', 'l', 's', 't', 'r', 'u', 'n', 'i', 'S', 'g', 'p',
        '\\', 'd', 'h', 'm', 'C',
    ]
}

/// A word that a table covers stays covered when an entry is set.
pub proof fn lemma_covers_insert(
    table: Map<char, Seq<char>>,
    word: Seq<char>,
    c: char,
    expr: Seq<char>,
)
    requires
        covers(table, word),
    ensures
        covers(table.insert(c, expr), word),
{
}

/// The letters of the first stage spell `constructor`.
pub proof fn lemma_coercion_stage_covers()
    ensures
        covers(coercion_stage(), constructor_word()),
{
    reveal_strlit("constructor");
}

/// With the letters of the string constructor the table spells `toString`
/// too.
pub proof fn lemma_string_stage_covers()
    ensures
        covers(string_stage(), constructor_word()),
        covers(string_stage(), to_string_word()),
{
    reveal_strlit("constructor");
    reveal_strlit("toString");
}

/// The third stage adds what `return escape` needs.
pub proof fn lemma_regexp_stage_covers()
    ensures
        covers(regexp_stage(), constructor_word()),
        covers(regexp_stage(), to_string_word()),
        covers(regexp_stage(), return_escape_word()),
        regexp_stage().contains_key('\\'),
{
    reveal_strlit("constructor");
    reveal_strlit("toString");
    reveal_strlit("return escape");
}

/// The fourth stage still spells what the last entry is written with, and
/// holds the backslash.
pub proof fn lemma_radix_stage_covers()
    ensures
        covers(radix_stage(), constructor_word()),
        covers(radix_stage(), return_escape_word()),
        radix_stage().contains_key('\\'),
{
    lemma_regexp_stage_covers();
    let before = regexp_stage();
    let d = radix_digit_spec(before, 13, 14);
    let with_d = before.insert('d', d);
    let h = radix_digit_spec(with_d, 17, 18);
    let with_h = with_d.insert('h', h);
    let m = radix_digit_spec(with_h, 22, 23);
    lemma_covers_insert(before, constructor_word(), 'd', d);
    lemma_covers_insert(before, return_escape_word(), 'd', d);
    lemma_covers_insert(with_d, constructor_word(), 'h', h);
    lemma_covers_insert(with_d, return_escape_word(), 'h', h);
    lemma_covers_insert(with_h, constructor_word(), 'm', m);
    lemma_covers_insert(with_h, return_escape_word(), 'm', m);
}

/// The finished table knows exactly the base alphabet, and spells both words
/// that code-point synthesis is written with.
pub proof fn lemma_char_map_covers()
    ensures
        char_map_spec().dom() == base_alphabet(),
        can_synthesize(char_map_spec()),
{
    reveal_strlit("constructor");
    reveal_strlit("fromCharCode");
    assert(char_map_spec().dom() =~= base_alphabet());
}

/// Builds the derivation table. The stages follow one another strictly: a
/// member name is only ever spelled with letters that earlier stages set.
#[verifier::rlimit(30)]
pub fn build_char_map() -> (map: CharMap)
    ensures
        map@ == char_map_spec(),
        map@.dom() == base_alphabet(),
        can_synthesize(map@),
{
    let mut map = CharMap::new();

    // +{} is NaN, and adding [] makes a string of it
    map.insert('a', String::from_str("(+{}+[])[+!![]]"));
    // {}+[] is the string '[object Object]'
    let phrase = Formatter(String::from_str("{}+[]"), map.clone());
    map.insert('o', phrase.index(JavascriptIndex::NUMBER(1)));
    map.insert('b', phrase.index(JavascriptIndex::NUMBER(2)));
    map.insert('j', phrase.index(JavascriptIndex::NUMBER(3)));
    map.insert('e', phrase.index(JavascriptIndex::NUMBER(4)));
    map.insert('c', phrase.index(JavascriptIndex::NUMBER(5)));
    map.insert('t', phrase.index(JavascriptIndex::NUMBER(6)));
    map.insert(' ', phrase.index(JavascriptIndex::NUMBER(7)));
    // ![]+[] is the string 'false'
    let phrase = Formatter(String::from_str("![]+[]"), map.clone());
    map.insert('f', phrase.index(JavascriptIndex::NUMBER(0)));
    map.insert('l', phrase.index(JavascriptIndex::NUMBER(2)));
    map.insert('s', phrase.index(JavascriptIndex::NUMBER(3)));
    // !![]+[] is the string 'true'
    let phrase = Formatter(String::from_str("!![]+[]"), map.clone());
    map.insert('t', phrase.index(JavascriptIndex::NUMBER(0)));
    map.insert('r', phrase.index(JavascriptIndex::NUMBER(1)));
    map.insert('u', phrase.index(JavascriptIndex::NUMBER(2)));
    // one divided by zero, plus [], is the string 'Infinity'
    let phrase = Formatter(String::from_str("+!![]/+![]+[]"), map.clone());
    map.insert('n', phrase.index(JavascriptIndex::NUMBER(4)));
    map.insert('i', phrase.index(JavascriptIndex::NUMBER(3)));
    proof {
        assert(map@ =~= coercion_stage());
        lemma_coercion_stage_covers();
    }

    // the constructor of a string prints as 'function String() { [native code] }'
    let phrase = Formatter(String::from_str("[]+[]"), map.clone()).index(
        JavascriptIndex::STRING("constructor"),
    );
    let phrase = Formatter(String::from_str("[]+").concat(phrase.as_str()), map.clone());
    map.insert('S', phrase.index(JavascriptIndex::NUMBER(9)));
    map.insert('g', phrase.index(JavascriptIndex::NUMBER(14)));
    proof {
        assert(map@ =~= string_stage());
        lemma_string_stage_covers();
    }

    // the constructor of a regular expression prints as 'function RegExp() ...'
    let phrase = Formatter(String::from_str("/-/"), map.clone()).index(
        JavascriptIndex::STRING("constructor"),
    );
    let phrase = Formatter(String::from_str("[]+").concat(phrase.as_str()), map.clone());
    map.insert('p', phrase.index(JavascriptIndex::NUMBER(14)));

    let phrase = Formatter(String::from_str("/\\\\/+[]"), map.clone());
    map.insert('\\', phrase.index(JavascriptIndex::NUMBER(1)));
    proof {
        assert(map@ =~= regexp_stage());
        lemma_regexp_stage_covers();
    }

    let digit = radix_digit(&map, 13, 14);
    proof {
        lemma_covers_insert(map@, to_string_word(), 'd', digit@);
    }
    map.insert('d', digit);
    let digit = radix_digit(&map, 17, 18);
    proof {
        lemma_covers_insert(map@, to_string_word(), 'h', digit@);
    }
    map.insert('h', digit);
    let digit = radix_digit(&map, 22, 23);
    map.insert('m', digit);
    proof {
        assert(map@ =~= radix_stage());
        lemma_radix_stage_covers();
    }

    // what is left is reached through the function constructor
    let mut function_constructor = String::from_str("(()=>{})[");
    function_constructor.append(from_string(&map, "constructor").as_str());
    function_constructor.append("]");
    let escape_body = from_string(&map, "return escape");
    let two = number(2);
    let mut escaped = String::from_str("(");
    escaped.append(function_constructor.as_str());
    escaped.append("(");
    escaped.append(escape_body.as_str());
    escaped.append(")()(");
    match map.get('\\') {
        Some(backslash) => {
            escaped.append(backslash.as_str());
        },
        None => {
            assert(false);
        },
    }
    escaped.append("))[");
    escaped.append(two.as_str());
    escaped.append("]");
    map.insert('C', escaped);
    proof {
        lemma_char_map_covers();
    }

    map
}

/// The expression for the digit that `value` renders as in `radix`, with
/// `toString` spelled through `map`.
pub fn radix_digit(map: &CharMap, value: usize, radix: usize) -> (out: String)
    requires
        covers(map@, to_string_word()),
    ensures
        out@ == radix_digit_spec(map@, value as nat, radix as nat),
{
    let method = from_string(map, "toString");
    let mut out = String::from_str("(");
    out.append(number(value).as_str());
    out.append(")[");
    out.append(method.as_str());
    out.append("](");
    out.append(number(radix).as_str());
    out.append(")");
    out
}

/// Construction is deterministic: any two tables that it returns hold the
/// same characters with the same expressions.
pub proof fn lemma_build_deterministic(first: CharMap, second: CharMap)
    requires
        first@ == char_map_spec(),
        second@ == char_map_spec(),
    ensures
        first@ == second@,
        forall|c: char| first@.contains_key(c) == second@.contains_key(c),
        forall|c: char| first@.contains_key(c) ==> first@[c] == second@[c],
{
}

} // verus!
