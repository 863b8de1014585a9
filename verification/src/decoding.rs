//! Reading an encoding back: no two characters share an expression, so an
//! encoding tells its text.

use crate::alphabet::{lemma_within_repeat, within};
use crate::brackets::{guarded, lemma_char_expr_sound, lemma_join_injective};
use crate::derivation::{
    backslash_phrase, base_alphabet, char_map_spec, coercion_stage, constructor_phrase,
    escaped_backslash_spec, false_phrase, infinity_phrase, lemma_char_map_covers, object_phrase,
    radix_digit_spec, radix_stage, regexp_stage, string_stage, true_phrase,
};
use crate::encode::{
    char_expr, char_exprs, compile_spec, constructor_word, fallback_expr, from_char_code_word,
    from_string_spec, word_expr,
};
use crate::formatter::index_by_num_spec;
use crate::numeral::{lemma_number_len, number_spec, one_expr, repeat, zero_expr};
use vstd::prelude::*;

verus! {

/// An indexed phrase opens with a parenthesis and the phrase, and is as long
/// as its pieces together.
pub proof fn lemma_indexed_profile(phrase: Seq<char>, position: nat)
    requires
        phrase.len() >= 5,
    ensures
        index_by_num_spec(phrase, position).len() == phrase.len() + 4 + number_spec(
            position,
        ).len(),
        index_by_num_spec(phrase, position)[1] == phrase[0],
        index_by_num_spec(phrase, position)[2] == phrase[1],
        index_by_num_spec(phrase, position)[4] == phrase[3],
        index_by_num_spec(phrase, position)[5] == phrase[4],
{
    reveal_strlit("(");
    reveal_strlit(")[");
    reveal_strlit("]");
}

/// A numeral above zero opens with a one-literal.
pub proof fn lemma_number_front(n: nat)
    requires
        n > 0,
    ensures
        number_spec(n).len() >= 5,
        number_spec(n)[0] == '+',
        number_spec(n)[1] == '!',
    decreases n,
{
    reveal_strlit("+!![]");
    lemma_number_len(n);
    if n > 1 {
        lemma_number_front((n - 1) as nat);
        lemma_number_len((n - 1) as nat);
    } else {
        assert(repeat(one_expr(), 0) =~= Seq::<char>::empty());
    }
}

/// No numeral holds a closing parenthesis.
pub proof fn lemma_number_has_no_parenthesis(n: nat, at: int)
    requires
        0 <= at < number_spec(n).len(),
    ensures
        number_spec(n)[at] != ')',
{
    let allowed = set!['+', '!', '[', ']'];
    reveal_strlit("+[]");
    reveal_strlit("+!![]");
    assert(within(allowed, zero_expr()));
    assert(within(allowed, one_expr()));
    lemma_within_repeat(allowed, one_expr(), n);
    assert(allowed.contains(number_spec(n)[at]));
}

/// A radix digit opens with a parenthesis and its first numeral, closed by a
/// parenthesis.
pub proof fn lemma_radix_digit_profile(table: Map<char, Seq<char>>, value: nat, radix: nat)
    requires
        value > 0,
    ensures
        radix_digit_spec(table, value, radix).len() >= 5 * value + 3,
        radix_digit_spec(table, value, radix)[1] == '+',
        radix_digit_spec(table, value, radix)[2] == '!',
        radix_digit_spec(table, value, radix)[5 * value as int + 1] == ')',
        forall|i: int|
            1 <= i < 5 * value + 1 ==> radix_digit_spec(table, value, radix)[i] != ')',
{
    reveal_strlit("(");
    reveal_strlit(")[");
    let first = number_spec(value);
    let whole = radix_digit_spec(table, value, radix);
    lemma_number_len(value);
    lemma_number_front(value);
    assert forall|i: int| 1 <= i < 5 * value + 1 implies whole[i] != ')' by {
        lemma_number_has_no_parenthesis(value, i - 1);
        assert(whole[i] == first[i - 1]);
    }
    assert(whole[1] == first[0]);
    assert(whole[2] == first[1]);
    assert(whole[5 * value as int + 1] == ")["@[0]);
}

/// A number that tells the entries of the finished table apart, read off the
/// opening characters, the place of the first closing parenthesis and the
/// length of an expression.
#[verifier::opaque]
pub open spec fn fingerprint(entry: Seq<char>) -> int {
    if entry.len() < 13 {
        0
    } else if entry[1] == '{' {
        1000 + entry.len() as int
    } else if entry[1] == '!' && entry[2] == '[' {
        2000 + entry.len() as int
    } else if entry[1] == '!' {
        3000 + entry.len() as int
    } else if entry[1] == '/' {
        1
    } else if entry[1] == '(' {
        2
    } else if entry[1] == '[' {
        if entry[4] == '[' {
            9
        } else if entry[5] == '/' {
            3
        } else {
            4
        }
    } else if entry[2] == '{' {
        5
    } else if entry.len() < 68 {
        4000 + entry.len() as int
    } else if entry[66] == ')' {
        6
    } else if entry.len() >= 88 && entry[86] == ')' {
        7
    } else {
        8
    }
}

/// The fingerprints of the entries read off `[object Object]`.
pub proof fn lemma_object_fingerprints()
    ensures
        fingerprint(index_by_num_spec(object_phrase(), 1)) == 1014,
        fingerprint(index_by_num_spec(object_phrase(), 2)) == 1019,
        fingerprint(index_by_num_spec(object_phrase(), 3)) == 1024,
        fingerprint(index_by_num_spec(object_phrase(), 4)) == 1029,
        fingerprint(index_by_num_spec(object_phrase(), 5)) == 1034,
        fingerprint(index_by_num_spec(object_phrase(), 7)) == 1044,
{
    reveal(fingerprint);
    reveal_strlit("{}+[]");
    lemma_indexed_profile(object_phrase(), 1);
    lemma_indexed_profile(object_phrase(), 2);
    lemma_indexed_profile(object_phrase(), 3);
    lemma_indexed_profile(object_phrase(), 4);
    lemma_indexed_profile(object_phrase(), 5);
    lemma_indexed_profile(object_phrase(), 7);
    lemma_number_len(1);
    lemma_number_len(2);
    lemma_number_len(3);
    lemma_number_len(4);
    lemma_number_len(5);
    lemma_number_len(7);
}

/// The fingerprints of the entries read off `false`, `true` and the
/// regular expression.
pub proof fn lemma_boolean_fingerprints()
    ensures
        fingerprint(index_by_num_spec(false_phrase(), 0)) == 2013,
        fingerprint(index_by_num_spec(false_phrase(), 2)) == 2020,
        fingerprint(index_by_num_spec(false_phrase(), 3)) == 2025,
        fingerprint(index_by_num_spec(true_phrase(), 0)) == 3014,
        fingerprint(index_by_num_spec(true_phrase(), 1)) == 3016,
        fingerprint(index_by_num_spec(true_phrase(), 2)) == 3021,
        fingerprint(index_by_num_spec(backslash_phrase(), 1)) == 1,
{
    reveal(fingerprint);
    reveal_strlit("![]+[]");
    reveal_strlit("!![]+[]");
    reveal_strlit("/\\\\/+[]");
    lemma_indexed_profile(false_phrase(), 0);
    lemma_indexed_profile(false_phrase(), 2);
    lemma_indexed_profile(false_phrase(), 3);
    lemma_indexed_profile(true_phrase(), 0);
    lemma_indexed_profile(true_phrase(), 1);
    lemma_indexed_profile(true_phrase(), 2);
    lemma_indexed_profile(backslash_phrase(), 1);
    lemma_number_len(0);
    lemma_number_len(1);
    lemma_number_len(2);
    lemma_number_len(3);
}

/// The fingerprints of the entries read off `Infinity` and `NaN`.
pub proof fn lemma_plus_fingerprints()
    ensures
        fingerprint("(+{}+[])[+!![]]"@) == 5,
        fingerprint(index_by_num_spec(infinity_phrase(), 4)) == 4037,
        fingerprint(index_by_num_spec(infinity_phrase(), 3)) == 4032,
{
    reveal(fingerprint);
    reveal_strlit("(+{}+[])[+!![]]");
    reveal_strlit("+!![]/+![]+[]");
    lemma_indexed_profile(infinity_phrase(), 4);
    lemma_indexed_profile(infinity_phrase(), 3);
    lemma_number_len(4);
    lemma_number_len(3);
}

/// The fingerprints of the entries read off constructors' source text.
pub proof fn lemma_constructor_fingerprints()
    ensures
        fingerprint(index_by_num_spec(constructor_phrase("[]+[]"@, coercion_stage()), 9)) == 4,
        fingerprint(index_by_num_spec(constructor_phrase("[]+[]"@, coercion_stage()), 14)) == 4,
        index_by_num_spec(constructor_phrase("[]+[]"@, coercion_stage()), 9).len()
            != index_by_num_spec(constructor_phrase("[]+[]"@, coercion_stage()), 14).len(),
        fingerprint(index_by_num_spec(constructor_phrase("/-/"@, string_stage()), 14)) == 3,
{
    reveal(fingerprint);
    reveal_strlit("[]+[]");
    reveal_strlit("/-/");
    reveal_strlit("[]+");
    reveal_strlit("(");
    let string_phrase = constructor_phrase("[]+[]"@, coercion_stage());
    let regexp_phrase = constructor_phrase("/-/"@, string_stage());
    assert(string_phrase.len() >= 9 && string_phrase[0] == '[' && string_phrase[3] == '('
        && string_phrase[4] == '[');
    assert(regexp_phrase.len() >= 7 && regexp_phrase[0] == '[' && regexp_phrase[3] == '('
        && regexp_phrase[4] == '/');
    lemma_indexed_profile(string_phrase, 9);
    lemma_indexed_profile(string_phrase, 14);
    lemma_indexed_profile(regexp_phrase, 14);
    lemma_number_len(9);
    lemma_number_len(14);
}

/// The fingerprints of the radix digits.
pub proof fn lemma_radix_fingerprints(
    first: Map<char, Seq<char>>,
    second: Map<char, Seq<char>>,
    third: Map<char, Seq<char>>,
)
    ensures
        fingerprint(radix_digit_spec(first, 13, 14)) == 6,
        fingerprint(radix_digit_spec(second, 17, 18)) == 7,
        fingerprint(radix_digit_spec(third, 22, 23)) == 8,
{
    reveal(fingerprint);
    lemma_radix_digit_profile(first, 13, 14);
    lemma_radix_digit_profile(second, 17, 18);
    lemma_radix_digit_profile(third, 22, 23);
}

/// The fingerprint of the last entry.
pub proof fn lemma_escaped_fingerprint(table: Map<char, Seq<char>>)
    ensures
        fingerprint(escaped_backslash_spec(table)) == 2,
{
    reveal(fingerprint);
    reveal_strlit("(");
    reveal_strlit("(()=>{})[");
    reveal_strlit("))[");
    reveal_strlit("]");
    let entry = escaped_backslash_spec(table);
    assert(entry[1] == '(');
    assert(entry.len() >= 13);
}

/// The fingerprint that the entry of `c` has in the finished table.
pub open spec fn expected_fingerprint(c: char) -> int {
    if c == 'a' {
        5
    } else if c == 'o' {
        1014
    } else if c == 'b' {
        1019
    } else if c == 'j' {
        1024
    } else if c == 'e' {
        1029
    } else if c == 'c' {
        1034
    } else if c == ' ' {
        1044
    } else if c == 'f' {
        2013
    } else if c == 'l' {
        2020
    } else if c == 's' {
        2025
    } else if c == 't' {
        3014
    } else if c == 'r' {
        3016
    } else if c == 'u' {
        3021
    } else if c == 'n' {
        4037
    } else if c == 'i' {
        4032
    } else if c == '\\' {
        1
    } else if c == 'C' {
        2
    } else if c == 'p' {
        3
    } else if c == 'S' || c == 'g' {
        4
    } else if c == 'd' {
        6
    } else if c == 'h' {
        7
    } else if c == 'm' {
        8
    } else {
        0
    }
}

/// Every entry of `table` has the fingerprint expected of its character.
pub open spec fn entries_marked(table: Map<char, Seq<char>>) -> bool {
    forall|c: char|
        table.contains_key(c) ==> fingerprint(#[trigger] table[c]) == expected_fingerprint(c)
}

/// Setting an entry with the expected fingerprint keeps the entries marked.
pub proof fn lemma_insert_marked(table: Map<char, Seq<char>>, c: char, expr: Seq<char>)
    requires
        entries_marked(table),
        fingerprint(expr) == expected_fingerprint(c),
    ensures
        entries_marked(table.insert(c, expr)),
{
}

/// The entries of the first stage are marked.
pub proof fn lemma_coercion_stage_marked()
    ensures
        entries_marked(coercion_stage()),
{
    lemma_object_fingerprints();
    lemma_boolean_fingerprints();
    lemma_plus_fingerprints();
}

/// The entries of the third stage are marked, and those of `S` and `g`
/// differ in length.
#[verifier::rlimit(30)]
pub proof fn lemma_regexp_stage_marked()
    ensures
        entries_marked(regexp_stage()),
        regexp_stage()['S'].len() != regexp_stage()['g'].len(),
{
    lemma_coercion_stage_marked();
    lemma_constructor_fingerprints();
    lemma_boolean_fingerprints();
    let first = coercion_stage();
    let string_phrase = constructor_phrase("[]+[]"@, first);
    let with_s = first.insert('S', index_by_num_spec(string_phrase, 9));
    let second = with_s.insert('g', index_by_num_spec(string_phrase, 14));
    lemma_insert_marked(first, 'S', index_by_num_spec(string_phrase, 9));
    lemma_insert_marked(with_s, 'g', index_by_num_spec(string_phrase, 14));
    assert(second == string_stage());
    let regexp_phrase = constructor_phrase("/-/"@, second);
    let with_p = second.insert('p', index_by_num_spec(regexp_phrase, 14));
    lemma_insert_marked(second, 'p', index_by_num_spec(regexp_phrase, 14));
    lemma_insert_marked(with_p, '\\', index_by_num_spec(backslash_phrase(), 1));
}

/// The entries of the finished table are marked, and those of `S` and `g`
/// differ in length.
#[verifier::rlimit(30)]
pub proof fn lemma_char_map_marked()
    ensures
        entries_marked(char_map_spec()),
        char_map_spec()['S'].len() != char_map_spec()['g'].len(),
{
    lemma_regexp_stage_marked();
    let before = regexp_stage();
    let d = radix_digit_spec(before, 13, 14);
    let with_d = before.insert('d', d);
    let h = radix_digit_spec(with_d, 17, 18);
    let with_h = with_d.insert('h', h);
    let m = radix_digit_spec(with_h, 22, 23);
    let with_m = with_h.insert('m', m);
    lemma_radix_fingerprints(before, with_d, with_h);
    lemma_insert_marked(before, 'd', d);
    lemma_insert_marked(with_d, 'h', h);
    lemma_insert_marked(with_h, 'm', m);
    assert(with_m == radix_stage());
    lemma_escaped_fingerprint(with_m);
    lemma_insert_marked(with_m, 'C', escaped_backslash_spec(with_m));
}

/// In a marked table over the base alphabet, no two characters share an
/// entry and no entry has the fingerprint of a synthesis.
#[verifier::rlimit(30)]
pub proof fn lemma_marked_distinct(table: Map<char, Seq<char>>)
    requires
        entries_marked(table),
        table.dom() == base_alphabet(),
        table['S'].len() != table['g'].len(),
    ensures
        forall|c: char, d: char|
            table.contains_key(c) && table.contains_key(d) && #[trigger] table[c]
                == #[trigger] table[d] ==> c == d,
        forall|c: char| table.contains_key(c) ==> fingerprint(#[trigger] table[c]) != 9,
{
    assert forall|c: char| table.contains_key(c) implies expected_fingerprint(c) != 0
        && expected_fingerprint(c) != 9 by {
        assert(base_alphabet().contains(c));
    }
    assert forall|c: char, d: char|
        table.contains_key(c) && table.contains_key(d) && #[trigger] table[c]
            == #[trigger] table[d] implies c == d by {
        assert(expected_fingerprint(c) == expected_fingerprint(d));
        assert(expected_fingerprint(c) != 0);
        if c == 'S' || c == 'g' {
            assert(d == 'S' || d == 'g');
        }
    }
}

/// No two characters share an entry of the finished table, and no entry
/// has the fingerprint of a synthesis.
pub proof fn lemma_entries_distinct()
    ensures
        forall|c: char, d: char|
            char_map_spec().contains_key(c) && char_map_spec().contains_key(d)
                && #[trigger] char_map_spec()[c] == #[trigger] char_map_spec()[d] ==> c == d,
        forall|c: char|
            char_map_spec().contains_key(c) ==> fingerprint(#[trigger] char_map_spec()[c]) != 9,
{
    lemma_char_map_marked();
    lemma_char_map_covers();
    lemma_marked_distinct(char_map_spec());
}

/// A synthesis has a fingerprint of its own, and its length is that of the
/// numeral and of what stands around it.
pub proof fn lemma_fallback_profile(table: Map<char, Seq<char>>, c: char)
    ensures
        fingerprint(fallback_expr(table, c)) == 9,
        fallback_expr(table, c).len() == 13 + word_expr(table, constructor_word()).len()
            + word_expr(table, from_char_code_word()).len() + number_spec(c as nat).len(),
{
    reveal(fingerprint);
    reveal_strlit("([]+[])[");
    reveal_strlit("][");
    reveal_strlit("](");
    reveal_strlit(")");
    let whole = fallback_expr(table, c);
    assert(whole[1] == '[');
    assert(whole[4] == '[');
}

/// Against the finished table, distinct characters have distinct
/// expressions.
pub proof fn lemma_char_expr_injective(c: char, d: char)
    requires
        char_expr(char_map_spec(), c) == char_expr(char_map_spec(), d),
    ensures
        c == d,
{
    let table = char_map_spec();
    lemma_entries_distinct();
    lemma_fallback_profile(table, c);
    lemma_fallback_profile(table, d);
    if !table.contains_key(c) && !table.contains_key(d) {
        lemma_number_len(c as nat);
        lemma_number_len(d as nat);
        assert(c as nat == d as nat);
    }
}

/// String round trip, as far as the text of an encoding goes: against the
/// finished table, two texts with the same encoding are the same text.
pub proof fn lemma_encoding_injective(first: Seq<char>, second: Seq<char>)
    requires
        from_string_spec(char_map_spec(), first) == from_string_spec(char_map_spec(), second),
    ensures
        first == second,
{
    let table = char_map_spec();
    let parts_a = char_exprs(table, first);
    let parts_b = char_exprs(table, second);
    assert forall|i: int| 0 <= i < parts_a.len() implies guarded(#[trigger] parts_a[i]) by {
        lemma_char_expr_sound(first[i]);
    }
    assert forall|i: int| 0 <= i < parts_b.len() implies guarded(#[trigger] parts_b[i]) by {
        lemma_char_expr_sound(second[i]);
    }
    lemma_join_injective(parts_a, parts_b);
    assert(first.len() == second.len());
    assert forall|i: int| 0 <= i < first.len() implies first[i] == second[i] by {
        assert(parts_a[i] == parts_b[i]);
        lemma_char_expr_injective(first[i], second[i]);
    }
    assert(first =~= second);
}

/// Two source texts with the same assembled program are the same text.
pub proof fn lemma_program_injective(first: Seq<char>, second: Seq<char>)
    requires
        compile_spec(char_map_spec(), first) == compile_spec(char_map_spec(), second),
    ensures
        first == second,
{
    let table = char_map_spec();
    let head = "(()=>{})["@ + from_string_spec(table, constructor_word()) + "]("@;
    let body_a = from_string_spec(table, first);
    let body_b = from_string_spec(table, second);
    let whole = compile_spec(table, first);
    assert(whole == head + body_a + ")()"@);
    assert(whole == head + body_b + ")()"@);
    assert(body_a.len() == body_b.len());
    assert(body_a =~= whole.subrange(head.len() as int, (head.len() + body_a.len()) as int));
    assert(body_b =~= whole.subrange(head.len() as int, (head.len() + body_a.len()) as int));
    lemma_encoding_injective(first, second);
}

} // verus!
