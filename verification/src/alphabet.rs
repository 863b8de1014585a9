//! The characters that output is written in, and the proof that encoding
//! never leaves them.

use crate::derivation::{
    backslash_phrase, base_alphabet, char_map_spec, coercion_stage, constructor_phrase,
    escaped_backslash_spec, false_phrase, function_constructor_spec, infinity_phrase,
    lemma_char_map_covers, lemma_coercion_stage_covers, lemma_covers_insert,
    lemma_radix_stage_covers, lemma_regexp_stage_covers, lemma_string_stage_covers, object_phrase, radix_digit_spec,
    radix_stage, regexp_stage, return_escape_word, string_stage, to_string_word, true_phrase,
};
use crate::encode::{
    can_synthesize, char_exprs, compile_spec, constructor_word, covers, encodable,
    fallback_expr, from_char_code_word, from_string_spec, join, lemma_covered_word, plus,
    word_expr,
};
use crate::formatter::{index_by_num_spec, index_by_str_spec};
use crate::numeral::{number_spec, one_expr, repeat, zero_expr};
use vstd::prelude::*;

verus! {

/// The punctuation that expressions are meant to be written in.
pub open spec fn restricted_alphabet() -> Set<char> {
    set!['(', ')', '[', ']', '{', '}', '/', '+', '!', '-', '=', '\\']
}

/// The restricted alphabet together with `>`, which the arrow function that
/// leads to the function constructor is written with.
pub open spec fn output_alphabet() -> Set<char> {
    restricted_alphabet().insert('>')
}

/// Every character of `expr` is one of `allowed`.
pub open spec fn within(allowed: Set<char>, expr: Seq<char>) -> bool {
    forall|i: int| 0 <= i < expr.len() ==> allowed.contains(#[trigger] expr[i])
}

/// Every entry of `table` is written in `allowed`.
pub open spec fn entries_within(allowed: Set<char>, table: Map<char, Seq<char>>) -> bool {
    forall|c: char| table.contains_key(c) ==> within(allowed, #[trigger] table[c])
}

/// A concatenation is written in `allowed` exactly when both halves are.
pub proof fn lemma_within_concat(allowed: Set<char>, left: Seq<char>, right: Seq<char>)
    ensures
        within(allowed, left + right) == (within(allowed, left) && within(allowed, right)),
{
    let whole = left + right;
    if within(allowed, whole) {
        assert forall|i: int| 0 <= i < left.len() implies allowed.contains(#[trigger] left[i]) by {
            assert(whole[i] == left[i]);
        }
        assert forall|i: int| 0 <= i < right.len() implies allowed.contains(
            #[trigger] right[i],
        ) by {
            assert(whole[left.len() + i] == right[i]);
        }
    }
}

/// Copies of a unit written in `allowed` are written in `allowed`.
pub proof fn lemma_within_repeat(allowed: Set<char>, unit: Seq<char>, count: nat)
    requires
        within(allowed, unit),
    ensures
        within(allowed, repeat(unit, count)),
    decreases count,
{
    if count > 0 {
        lemma_within_repeat(allowed, unit, (count - 1) as nat);
        lemma_within_concat(allowed, repeat(unit, (count - 1) as nat), unit);
    }
}

/// Every numeral is written in the restricted alphabet.
pub proof fn lemma_number_within(allowed: Set<char>, n: nat)
    requires
        restricted_alphabet().subset_of(allowed),
    ensures
        within(allowed, number_spec(n)),
{
    reveal_strlit("+[]");
    reveal_strlit("+!![]");
    assert(within(restricted_alphabet(), zero_expr()));
    assert(within(restricted_alphabet(), one_expr()));
    lemma_within_repeat(allowed, one_expr(), n);
}

/// Parts and a separator written in `allowed` join to an expression written
/// in `allowed`.
pub proof fn lemma_join_within(allowed: Set<char>, parts: Seq<Seq<char>>, sep: Seq<char>)
    requires
        within(allowed, sep),
        forall|i: int| 0 <= i < parts.len() ==> within(allowed, #[trigger] parts[i]),
    ensures
        within(allowed, join(parts, sep)),
    decreases parts.len(),
{
    if parts.len() > 1 {
        lemma_join_within(allowed, parts.drop_last(), sep);
        lemma_within_concat(allowed, join(parts.drop_last(), sep), sep);
        lemma_within_concat(allowed, join(parts.drop_last(), sep) + sep, parts.last());
    }
}

/// A word spelled from entries written in `allowed` is written in `allowed`.
pub proof fn lemma_word_within(allowed: Set<char>, table: Map<char, Seq<char>>, word: Seq<char>)
    requires
        restricted_alphabet().subset_of(allowed),
        forall|i: int|
            0 <= i < word.len() ==> table.contains_key(#[trigger] word[i]) && within(
                allowed,
                table[word[i]],
            ),
    ensures
        within(allowed, from_string_spec(table, word)),
        within(allowed, word_expr(table, word)),
{
    reveal_strlit("+");
    assert(within(restricted_alphabet(), plus()));
    lemma_covered_word(table, word);
    lemma_join_within(allowed, word.map_values(|c: char| table[c]), plus());
}

/// The synthesis of a character is written in the alphabet of the entries
/// that spell its two words.
pub proof fn lemma_fallback_within(allowed: Set<char>, table: Map<char, Seq<char>>, c: char)
    requires
        restricted_alphabet().subset_of(allowed),
        entries_within(allowed, table),
        can_synthesize(table),
    ensures
        within(allowed, fallback_expr(table, c)),
{
    reveal_strlit("([]+[])[");
    reveal_strlit("][");
    reveal_strlit("](");
    reveal_strlit(")");
    assert(within(restricted_alphabet(), "([]+[])["@));
    assert(within(restricted_alphabet(), "]["@));
    assert(within(restricted_alphabet(), "]("@));
    assert(within(restricted_alphabet(), ")"@));
    let first = word_expr(table, constructor_word());
    let second = word_expr(table, from_char_code_word());
    let numeral = number_spec(c as nat);
    lemma_word_within(allowed, table, constructor_word());
    lemma_word_within(allowed, table, from_char_code_word());
    lemma_number_within(allowed, c as nat);
    lemma_within_concat(allowed, "([]+[])["@, first);
    lemma_within_concat(allowed, "([]+[])["@ + first, "]["@);
    lemma_within_concat(allowed, "([]+[])["@ + first + "]["@, second);
    lemma_within_concat(allowed, "([]+[])["@ + first + "]["@ + second, "]("@);
    lemma_within_concat(allowed, "([]+[])["@ + first + "]["@ + second + "]("@, numeral);
    lemma_within_concat(allowed, "([]+[])["@ + first + "]["@ + second + "]("@ + numeral, ")"@);
}

/// Encoding against a table written in `allowed` gives an expression written
/// in `allowed`, whatever the text.
pub proof fn lemma_from_string_within(
    allowed: Set<char>,
    table: Map<char, Seq<char>>,
    s: Seq<char>,
)
    requires
        restricted_alphabet().subset_of(allowed),
        entries_within(allowed, table),
        encodable(table, s),
    ensures
        within(allowed, from_string_spec(table, s)),
{
    if covers(table, s) {
        lemma_word_within(allowed, table, s);
    } else {
        reveal_strlit("+");
        assert(within(restricted_alphabet(), plus()));
        let parts = char_exprs(table, s);
        assert forall|i: int| 0 <= i < parts.len() implies within(allowed, #[trigger] parts[i]) by {
            if !table.contains_key(s[i]) {
                lemma_fallback_within(allowed, table, s[i]);
            }
        }
        lemma_join_within(allowed, parts, plus());
    }
}

/// An assembled program is written in the alphabet of the table's entries
/// and `>`.
pub proof fn lemma_compile_within(allowed: Set<char>, table: Map<char, Seq<char>>, code: Seq<char>)
    requires
        output_alphabet().subset_of(allowed),
        entries_within(allowed, table),
        covers(table, constructor_word()),
        encodable(table, code),
    ensures
        within(allowed, compile_spec(table, code)),
{
    reveal_strlit("(()=>{})[");
    reveal_strlit("](");
    reveal_strlit(")()");
    assert(within(output_alphabet(), "(()=>{})["@));
    assert(within(output_alphabet(), "]("@));
    assert(within(output_alphabet(), ")()"@));
    let name = from_string_spec(table, constructor_word());
    let body = from_string_spec(table, code);
    lemma_from_string_within(allowed, table, constructor_word());
    lemma_from_string_within(allowed, table, code);
    lemma_within_concat(allowed, "(()=>{})["@, name);
    lemma_within_concat(allowed, "(()=>{})["@ + name, "]("@);
    lemma_within_concat(allowed, "(()=>{})["@ + name + "]("@, body);
    lemma_within_concat(allowed, "(()=>{})["@ + name + "]("@ + body, ")()"@);
}

/// Indexing by position keeps a phrase in its alphabet.
pub proof fn lemma_index_by_num_within(allowed: Set<char>, phrase: Seq<char>, position: nat)
    requires
        restricted_alphabet().subset_of(allowed),
        within(allowed, phrase),
    ensures
        within(allowed, index_by_num_spec(phrase, position)),
{
    reveal_strlit("(");
    reveal_strlit(")[");
    reveal_strlit("]");
    assert(within(restricted_alphabet(), "("@));
    assert(within(restricted_alphabet(), ")["@));
    assert(within(restricted_alphabet(), "]"@));
    let numeral = number_spec(position);
    lemma_number_within(allowed, position);
    lemma_within_concat(allowed, "("@, phrase);
    lemma_within_concat(allowed, "("@ + phrase, ")["@);
    lemma_within_concat(allowed, "("@ + phrase + ")["@, numeral);
    lemma_within_concat(allowed, "("@ + phrase + ")["@ + numeral, "]"@);
}

/// Indexing by a member name keeps a phrase in the alphabet that it shares
/// with the table.
pub proof fn lemma_index_by_str_within(
    allowed: Set<char>,
    phrase: Seq<char>,
    table: Map<char, Seq<char>>,
    word: Seq<char>,
)
    requires
        restricted_alphabet().subset_of(allowed),
        within(allowed, phrase),
        entries_within(allowed, table),
        encodable(table, word),
    ensures
        within(allowed, index_by_str_spec(phrase, table, word)),
{
    reveal_strlit("(");
    reveal_strlit(")[");
    reveal_strlit("]");
    assert(within(restricted_alphabet(), "("@));
    assert(within(restricted_alphabet(), ")["@));
    assert(within(restricted_alphabet(), "]"@));
    let name = from_string_spec(table, word);
    lemma_from_string_within(allowed, table, word);
    lemma_within_concat(allowed, "("@, phrase);
    lemma_within_concat(allowed, "("@ + phrase, ")["@);
    lemma_within_concat(allowed, "("@ + phrase + ")["@, name);
    lemma_within_concat(allowed, "("@ + phrase + ")["@ + name, "]"@);
}

/// Setting an entry written in `allowed` keeps a table written in `allowed`.
pub proof fn lemma_insert_within(
    allowed: Set<char>,
    table: Map<char, Seq<char>>,
    c: char,
    expr: Seq<char>,
)
    requires
        entries_within(allowed, table),
        within(allowed, expr),
    ensures
        entries_within(allowed, table.insert(c, expr)),
{
}

/// The first stage is written in the restricted alphabet.
pub proof fn lemma_coercion_stage_within()
    ensures
        entries_within(restricted_alphabet(), coercion_stage()),
{
    let allowed = restricted_alphabet();
    reveal_strlit("(+{}+[])[+!![]]");
    reveal_strlit("{}+[]");
    reveal_strlit("![]+[]");
    reveal_strlit("!![]+[]");
    reveal_strlit("+!![]/+![]+[]");
    assert(within(allowed, "(+{}+[])[+!![]]"@));
    assert(within(allowed, object_phrase()));
    assert(within(allowed, false_phrase()));
    assert(within(allowed, true_phrase()));
    assert(within(allowed, infinity_phrase()));
    assert forall|n: nat| within(allowed, #[trigger] index_by_num_spec(object_phrase(), n)) by {
        lemma_index_by_num_within(allowed, object_phrase(), n);
    }
    assert forall|n: nat| within(allowed, #[trigger] index_by_num_spec(false_phrase(), n)) by {
        lemma_index_by_num_within(allowed, false_phrase(), n);
    }
    assert forall|n: nat| within(allowed, #[trigger] index_by_num_spec(true_phrase(), n)) by {
        lemma_index_by_num_within(allowed, true_phrase(), n);
    }
    assert forall|n: nat| within(allowed, #[trigger] index_by_num_spec(infinity_phrase(), n)) by {
        lemma_index_by_num_within(allowed, infinity_phrase(), n);
    }
}

/// The constructor's source text, reached through a table written in
/// `allowed`, is written in `allowed`.
pub proof fn lemma_constructor_phrase_within(
    allowed: Set<char>,
    value: Seq<char>,
    table: Map<char, Seq<char>>,
)
    requires
        restricted_alphabet().subset_of(allowed),
        within(allowed, value),
        entries_within(allowed, table),
        covers(table, constructor_word()),
    ensures
        within(allowed, constructor_phrase(value, table)),
{
    reveal_strlit("[]+");
    assert(within(restricted_alphabet(), "[]+"@));
    lemma_index_by_str_within(allowed, value, table, constructor_word());
    lemma_within_concat(allowed, "[]+"@, index_by_str_spec(value, table, constructor_word()));
}

/// The second stage is written in the restricted alphabet.
pub proof fn lemma_string_stage_within()
    ensures
        entries_within(restricted_alphabet(), string_stage()),
{
    let allowed = restricted_alphabet();
    let before = coercion_stage();
    let phrase = constructor_phrase("[]+[]"@, before);
    reveal_strlit("[]+[]");
    assert(within(allowed, "[]+[]"@));
    lemma_coercion_stage_within();
    lemma_coercion_stage_covers();
    lemma_constructor_phrase_within(allowed, "[]+[]"@, before);
    lemma_index_by_num_within(allowed, phrase, 9);
    lemma_index_by_num_within(allowed, phrase, 14);
    lemma_insert_within(allowed, before, 'S', index_by_num_spec(phrase, 9));
    lemma_insert_within(
        allowed,
        before.insert('S', index_by_num_spec(phrase, 9)),
        'g',
        index_by_num_spec(phrase, 14),
    );
}

/// The third stage is written in the restricted alphabet.
pub proof fn lemma_regexp_stage_within()
    ensures
        entries_within(restricted_alphabet(), regexp_stage()),
{
    let allowed = restricted_alphabet();
    let before = string_stage();
    let phrase = constructor_phrase("/-/"@, before);
    reveal_strlit("/-/");
    reveal_strlit("/\\\\/+[]");
    assert(within(allowed, "/-/"@));
    assert(within(allowed, backslash_phrase()));
    lemma_string_stage_within();
    lemma_string_stage_covers();
    lemma_constructor_phrase_within(allowed, "/-/"@, before);
    lemma_index_by_num_within(allowed, phrase, 14);
    lemma_index_by_num_within(allowed, backslash_phrase(), 1);
    lemma_insert_within(allowed, before, 'p', index_by_num_spec(phrase, 14));
    lemma_insert_within(
        allowed,
        before.insert('p', index_by_num_spec(phrase, 14)),
        '\\',
        index_by_num_spec(backslash_phrase(), 1),
    );
}

/// A radix digit, with `toString` spelled through a table written in
/// `allowed`, is written in `allowed`.
pub proof fn lemma_radix_digit_within(
    allowed: Set<char>,
    table: Map<char, Seq<char>>,
    value: nat,
    radix: nat,
)
    requires
        restricted_alphabet().subset_of(allowed),
        entries_within(allowed, table),
        covers(table, to_string_word()),
    ensures
        within(allowed, radix_digit_spec(table, value, radix)),
{
    reveal_strlit("(");
    reveal_strlit(")[");
    reveal_strlit("](");
    reveal_strlit(")");
    assert(within(restricted_alphabet(), "("@));
    assert(within(restricted_alphabet(), ")["@));
    assert(within(restricted_alphabet(), "]("@));
    assert(within(restricted_alphabet(), ")"@));
    let first = number_spec(value);
    let method = from_string_spec(table, to_string_word());
    let second = number_spec(radix);
    lemma_number_within(allowed, value);
    lemma_number_within(allowed, radix);
    lemma_from_string_within(allowed, table, to_string_word());
    lemma_within_concat(allowed, "("@, first);
    lemma_within_concat(allowed, "("@ + first, ")["@);
    lemma_within_concat(allowed, "("@ + first + ")["@, method);
    lemma_within_concat(allowed, "("@ + first + ")["@ + method, "]("@);
    lemma_within_concat(allowed, "("@ + first + ")["@ + method + "]("@, second);
    lemma_within_concat(allowed, "("@ + first + ")["@ + method + "]("@ + second, ")"@);
}

/// The fourth stage is written in the restricted alphabet.
pub proof fn lemma_radix_stage_within()
    ensures
        entries_within(restricted_alphabet(), radix_stage()),
{
    let allowed = restricted_alphabet();
    let before = regexp_stage();
    lemma_regexp_stage_within();
    lemma_regexp_stage_covers();
    let d = radix_digit_spec(before, 13, 14);
    let with_d = before.insert('d', d);
    lemma_radix_digit_within(allowed, before, 13, 14);
    lemma_insert_within(allowed, before, 'd', d);
    lemma_covers_insert(before, to_string_word(), 'd', d);
    let h = radix_digit_spec(with_d, 17, 18);
    let with_h = with_d.insert('h', h);
    lemma_radix_digit_within(allowed, with_d, 17, 18);
    lemma_insert_within(allowed, with_d, 'h', h);
    lemma_covers_insert(with_d, to_string_word(), 'h', h);
    let m = radix_digit_spec(with_h, 22, 23);
    lemma_radix_digit_within(allowed, with_h, 22, 23);
    lemma_insert_within(allowed, with_h, 'm', m);
}

/// The last entry is written in the output alphabet.
pub proof fn lemma_escaped_backslash_within()
    ensures
        within(output_alphabet(), escaped_backslash_spec(radix_stage())),
{
    let allowed = output_alphabet();
    let table = radix_stage();
    lemma_radix_stage_within();
    lemma_radix_stage_covers();
    assert(entries_within(allowed, table)) by {
        assert forall|c: char| table.contains_key(c) implies within(
            allowed,
            #[trigger] table[c],
        ) by {
            assert(within(restricted_alphabet(), table[c]));
        }
    }
    reveal_strlit("(()=>{})[");
    reveal_strlit("]");
    reveal_strlit("(");
    reveal_strlit(")()(");
    reveal_strlit("))[");
    assert(within(allowed, "(()=>{})["@));
    assert(within(allowed, "]"@));
    assert(within(allowed, "("@));
    assert(within(allowed, ")()("@));
    assert(within(allowed, "))["@));
    let name = from_string_spec(table, constructor_word());
    let maker = function_constructor_spec(table);
    let body = from_string_spec(table, return_escape_word());
    let two = number_spec(2);
    lemma_from_string_within(allowed, table, constructor_word());
    lemma_from_string_within(allowed, table, return_escape_word());
    lemma_number_within(allowed, 2);
    lemma_within_concat(allowed, "(()=>{})["@, name);
    lemma_within_concat(allowed, "(()=>{})["@ + name, "]"@);
    lemma_within_concat(allowed, "("@, maker);
    lemma_within_concat(allowed, "("@ + maker, "("@);
    lemma_within_concat(allowed, "("@ + maker + "("@, body);
    lemma_within_concat(allowed, "("@ + maker + "("@ + body, ")()("@);
    lemma_within_concat(allowed, "("@ + maker + "("@ + body + ")()("@, table['\\']);
    lemma_within_concat(allowed, "("@ + maker + "("@ + body + ")()("@ + table['\\'], "))["@);
    lemma_within_concat(
        allowed,
        "("@ + maker + "("@ + body + ")()("@ + table['\\'] + "))["@,
        two,
    );
    lemma_within_concat(
        allowed,
        "("@ + maker + "("@ + body + ")()("@ + table['\\'] + "))["@ + two,
        "]"@,
    );
}

/// Every entry of the finished table is written in the output alphabet, and
/// every entry but that of `C` in the restricted alphabet.
pub proof fn lemma_char_map_within()
    ensures
        entries_within(output_alphabet(), char_map_spec()),
        forall|c: char|
            char_map_spec().contains_key(c) && c != 'C' ==> within(
                restricted_alphabet(),
                #[trigger] char_map_spec()[c],
            ),
{
    lemma_radix_stage_within();
    lemma_escaped_backslash_within();
    let table = radix_stage();
    assert forall|c: char| char_map_spec().contains_key(c) implies within(
        output_alphabet(),
        #[trigger] char_map_spec()[c],
    ) by {
        if c != 'C' {
            assert(within(restricted_alphabet(), table[c]));
        }
    }
}

/// The entry of `C` holds `>`: it leaves the restricted alphabet.
pub proof fn lemma_arrow_in_char_map()
    ensures
        char_map_spec().contains_key('C'),
        char_map_spec()['C'][5] == '>',
        !within(restricted_alphabet(), char_map_spec()['C']),
{
    reveal_strlit("(");
    reveal_strlit("(()=>{})[");
    let entry = char_map_spec()['C'];
    assert(entry == escaped_backslash_spec(radix_stage()));
    assert(entry[5] == '>');
}

/// Alphabet closure. Whatever the text, its encoding against the finished
/// table is written in the output alphabet: the restricted alphabet and `>`.
pub proof fn lemma_encoding_in_output_alphabet(s: Seq<char>)
    ensures
        within(output_alphabet(), from_string_spec(char_map_spec(), s)),
{
    lemma_char_map_within();
    lemma_char_map_covers();
    lemma_from_string_within(output_alphabet(), char_map_spec(), s);
}

/// Alphabet closure, strictly. A text of characters that the finished table
/// knows, `C` left out, is encoded in the restricted alphabet alone.
pub proof fn lemma_encoding_in_restricted_alphabet(s: Seq<char>)
    requires
        forall|i: int| 0 <= i < s.len() ==> base_alphabet().contains(#[trigger] s[i]) && s[i] != 'C',
    ensures
        within(restricted_alphabet(), from_string_spec(char_map_spec(), s)),
{
    lemma_char_map_within();
    lemma_char_map_covers();
    assert forall|i: int| 0 <= i < s.len() implies char_map_spec().contains_key(#[trigger] s[i])
        && within(restricted_alphabet(), char_map_spec()[s[i]]) by {
        assert(base_alphabet().contains(s[i]));
        assert(char_map_spec().dom().contains(s[i]));
    }
    lemma_word_within(restricted_alphabet(), char_map_spec(), s);
}

/// A part that leaves `allowed` takes the joined expression with it.
pub proof fn lemma_join_not_within(
    allowed: Set<char>,
    parts: Seq<Seq<char>>,
    sep: Seq<char>,
    at: int,
)
    requires
        0 <= at < parts.len(),
        !within(allowed, parts[at]),
    ensures
        !within(allowed, join(parts, sep)),
    decreases parts.len(),
{
    if parts.len() > 1 {
        let front = join(parts.drop_last(), sep);
        lemma_within_concat(allowed, front, sep);
        lemma_within_concat(allowed, front + sep, parts.last());
        if at < parts.len() - 1 {
            lemma_join_not_within(allowed, parts.drop_last(), sep, at);
        }
    }
}

/// The strict law leaves out no more than it must: a text with `C`, or with
/// a character that the finished table does not know, is encoded with `>`.
pub proof fn lemma_encoding_leaves_restricted_alphabet(s: Seq<char>, at: int)
    requires
        0 <= at < s.len(),
        !base_alphabet().contains(s[at]) || s[at] == 'C',
    ensures
        !within(restricted_alphabet(), from_string_spec(char_map_spec(), s)),
{
    let allowed = restricted_alphabet();
    let table = char_map_spec();
    lemma_arrow_in_char_map();
    lemma_char_map_covers();
    if s[at] != 'C' {
        assert(!table.dom().contains(s[at]));
        reveal_strlit("fromCharCode");
        let word = from_char_code_word();
        let entries = word.map_values(|c: char| table[c]);
        assert(entries[4] == table['C']);
        lemma_join_not_within(allowed, entries, plus(), 4);
        let first = word_expr(table, constructor_word());
        let second = word_expr(table, word);
        let numeral = number_spec(s[at] as nat);
        lemma_within_concat(allowed, "([]+[])["@ + first + "]["@, second);
        lemma_within_concat(allowed, "([]+[])["@ + first + "]["@ + second, "]("@);
        lemma_within_concat(allowed, "([]+[])["@ + first + "]["@ + second + "]("@, numeral);
        lemma_within_concat(
            allowed,
            "([]+[])["@ + first + "]["@ + second + "]("@ + numeral,
            ")"@,
        );
        assert(!within(allowed, fallback_expr(table, s[at])));
    }
    assert(!within(allowed, char_exprs(table, s)[at]));
    lemma_join_not_within(allowed, char_exprs(table, s), plus(), at);
}

/// An assembled program is written in the output alphabet, whatever the
/// source text.
pub proof fn lemma_program_in_output_alphabet(code: Seq<char>)
    ensures
        within(output_alphabet(), compile_spec(char_map_spec(), code)),
{
    lemma_char_map_within();
    lemma_char_map_covers();
    lemma_compile_within(output_alphabet(), char_map_spec(), code);
}

} // verus!
