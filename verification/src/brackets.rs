//! Bracket depth: every expression that the encoder writes closes the
//! brackets it opens and keeps its addition signs inside them, so the
//! addition signs outside every bracket are the joints of an encoding.

use crate::derivation::{
    backslash_phrase, char_map_spec, coercion_stage, constructor_phrase, escaped_backslash_spec,
    false_phrase, function_constructor_spec, infinity_phrase, lemma_char_map_covers,
    lemma_coercion_stage_covers, lemma_covers_insert, lemma_radix_stage_covers,
    lemma_regexp_stage_covers, lemma_string_stage_covers, object_phrase, radix_digit_spec,
    radix_stage, regexp_stage, return_escape_word, string_stage, to_string_word, true_phrase,
};
use crate::encode::{
    can_synthesize, char_expr, constructor_word, covers, fallback_expr, from_char_code_word,
    from_string_spec, join, lemma_covered_word, plus, word_expr,
};
use crate::formatter::{index_by_num_spec, index_by_str_spec};
use crate::numeral::{number_spec, one_expr, repeat, zero_expr};
use vstd::prelude::*;

verus! {

/// What a character adds to the bracket depth.
pub open spec fn step(c: char) -> int {
    if c == '(' || c == '[' || c == '{' {
        1
    } else if c == ')' || c == ']' || c == '}' {
        -1
    } else {
        0
    }
}

/// The bracket depth at the end of `expr`: brackets opened less brackets
/// closed.
pub open spec fn depth(expr: Seq<char>) -> int
    decreases expr.len(),
{
    if expr.len() == 0 {
        0
    } else {
        depth(expr.drop_last()) + step(expr.last())
    }
}

/// `expr` is not empty, closes every bracket it opens, and has each of its
/// addition signs inside a bracket.
pub open spec fn guarded(expr: Seq<char>) -> bool {
    &&& expr.len() > 0
    &&& depth(expr) == 0
    &&& forall|i: int| 0 <= i < expr.len() && expr[i] == '+' ==> depth(#[trigger] expr.take(i)) > 0
}

/// Every part is guarded.
pub open spec fn all_guarded(parts: Seq<Seq<char>>) -> bool {
    forall|i: int| 0 <= i < parts.len() ==> guarded(#[trigger] parts[i])
}

/// Depths add up over a concatenation.
pub proof fn lemma_depth_concat(left: Seq<char>, right: Seq<char>)
    ensures
        depth(left + right) == depth(left) + depth(right),
    decreases right.len(),
{
    if right.len() == 0 {
        assert(left + right =~= left);
    } else {
        lemma_depth_concat(left, right.drop_last());
        assert((left + right).drop_last() =~= left + right.drop_last());
    }
}

/// The addition sign leaves the depth as it is.
pub proof fn lemma_plus_depth()
    ensures
        plus().len() == 1,
        plus()[0] == '+',
        depth(plus()) == 0,
{
    reveal_strlit("+");
    assert(plus().drop_last() =~= Seq::<char>::empty());
    assert(depth(plus().drop_last()) == 0);
}

/// Guarded parts join to an expression of depth zero.
pub proof fn lemma_join_depth(parts: Seq<Seq<char>>)
    requires
        all_guarded(parts),
    ensures
        depth(join(parts, plus())) == 0,
    decreases parts.len(),
{
    lemma_plus_depth();
    if parts.len() == 1 {
        assert(guarded(parts[0]));
    } else if parts.len() > 1 {
        let front = join(parts.drop_last(), plus());
        lemma_join_depth(parts.drop_last());
        lemma_depth_concat(front, plus());
        lemma_depth_concat(front + plus(), parts.last());
        assert(guarded(parts.last()));
    }
}

/// In a join of two or more guarded parts, an addition sign at depth zero
/// stands no later than the joint before the last part.
proof fn lemma_no_joint_in_last(parts: Seq<Seq<char>>, at: int)
    requires
        all_guarded(parts),
        parts.len() >= 1,
        0 <= at < join(parts, plus()).len(),
        join(parts, plus())[at] == '+',
        depth(join(parts, plus()).take(at)) == 0,
    ensures
        parts.len() >= 2,
        at <= join(parts.drop_last(), plus()).len(),
{
    lemma_plus_depth();
    let whole = join(parts, plus());
    let last = parts.last();
    assert(guarded(last));
    if parts.len() == 1 {
        assert(whole == last);
        assert(depth(last.take(at)) > 0);
    } else {
        let front = join(parts.drop_last(), plus());
        if at > front.len() {
            let inner = at - front.len() - 1;
            assert(whole == front + plus() + last);
            assert(whole[at] == last[inner]);
            assert(whole.take(at) =~= front + plus() + last.take(inner));
            lemma_join_depth(parts.drop_last());
            lemma_depth_concat(front, plus());
            lemma_depth_concat(front + plus(), last.take(inner));
            assert(depth(last.take(inner)) > 0);
        }
    }
}

/// Joins of guarded parts are equal only where the parts are: an encoding
/// tells its characters' expressions back.
pub proof fn lemma_join_injective(first: Seq<Seq<char>>, second: Seq<Seq<char>>)
    requires
        all_guarded(first),
        all_guarded(second),
        join(first, plus()) == join(second, plus()),
    ensures
        first == second,
    decreases first.len(),
{
    lemma_plus_depth();
    let whole = join(first, plus());
    if first.len() == 0 || second.len() == 0 {
        if first.len() > 0 {
            lemma_join_nonempty(first);
        }
        if second.len() > 0 {
            lemma_join_nonempty(second);
        }
        assert(first =~= second);
    } else if first.len() == 1 || second.len() == 1 {
        if first.len() >= 2 {
            lemma_joint(first);
            lemma_no_joint_in_last(second, join(first.drop_last(), plus()).len() as int);
        }
        if second.len() >= 2 {
            lemma_joint(second);
            lemma_no_joint_in_last(first, join(second.drop_last(), plus()).len() as int);
        }
        assert(first =~= second);
    } else {
        let front_a = join(first.drop_last(), plus());
        let front_b = join(second.drop_last(), plus());
        lemma_joint(first);
        lemma_joint(second);
        lemma_no_joint_in_last(first, front_b.len() as int);
        lemma_no_joint_in_last(second, front_a.len() as int);
        assert(front_a.len() == front_b.len());
        assert(front_a =~= whole.take(front_a.len() as int));
        assert(front_b =~= whole.take(front_a.len() as int));
        assert(first.last() =~= whole.skip(front_a.len() as int + 1));
        assert(second.last() =~= whole.skip(front_a.len() as int + 1));
        lemma_join_injective(first.drop_last(), second.drop_last());
        assert(first =~= first.drop_last().push(first.last()));
        assert(second =~= second.drop_last().push(second.last()));
    }
}

/// A join of one or more guarded parts is not empty.
proof fn lemma_join_nonempty(parts: Seq<Seq<char>>)
    requires
        all_guarded(parts),
        parts.len() >= 1,
    ensures
        join(parts, plus()).len() > 0,
{
    assert(guarded(parts.last()));
}

/// In a join of two or more guarded parts, the joint before the last part is
/// an addition sign at depth zero.
proof fn lemma_joint(parts: Seq<Seq<char>>)
    requires
        all_guarded(parts),
        parts.len() >= 2,
    ensures
        join(parts.drop_last(), plus()).len() < join(parts, plus()).len(),
        join(parts, plus())[join(parts.drop_last(), plus()).len() as int] == '+',
        depth(join(parts, plus()).take(join(parts.drop_last(), plus()).len() as int)) == 0,
{
    lemma_plus_depth();
    let front = join(parts.drop_last(), plus());
    lemma_join_depth(parts.drop_last());
    assert(join(parts, plus()) == front + plus() + parts.last());
    assert(join(parts, plus()).take(front.len() as int) =~= front);
}

/// Walks `expr` from bracket depth `base`: the depth at its end, or `None`
/// where an addition sign stands at depth zero or below.
pub open spec fn scan(expr: Seq<char>, base: int) -> Option<int>
    decreases expr.len(),
{
    if expr.len() == 0 {
        Some(base)
    } else if expr[0] == '+' && base <= 0 {
        None
    } else {
        scan(expr.drop_first(), base + step(expr[0]))
    }
}

/// `expr` can stand inside a bracket: walked from depth one it ends at
/// depth one.
pub open spec fn piece(expr: Seq<char>) -> bool {
    scan(expr, 1) == Some(1int)
}

/// `expr` can stand as a part of a join: it is not empty, and walked from
/// depth zero it ends at depth zero.
pub open spec fn sound(expr: Seq<char>) -> bool {
    expr.len() > 0 && scan(expr, 0) == Some(0int)
}

/// Every entry of `table` is sound.
pub open spec fn entries_sound(table: Map<char, Seq<char>>) -> bool {
    forall|c: char| table.contains_key(c) ==> sound(#[trigger] table[c])
}

/// Walking a concatenation is walking the left half and, from where that
/// ends, the right.
pub proof fn lemma_scan_concat(left: Seq<char>, right: Seq<char>, base: int)
    ensures
        scan(left + right, base) == match scan(left, base) {
            Some(reached) => scan(right, reached),
            None => None,
        },
    decreases left.len(),
{
    if left.len() == 0 {
        assert(left + right =~= right);
    } else {
        assert((left + right).drop_first() =~= left.drop_first() + right);
        lemma_scan_concat(left.drop_first(), right, base + step(left[0]));
    }
}

/// A walk that succeeds from one depth succeeds from any depth above it.
pub proof fn lemma_scan_shift(expr: Seq<char>, base: int, up: int)
    requires
        up >= 0,
        scan(expr, base) is Some,
    ensures
        scan(expr, base + up) == Some(scan(expr, base).unwrap() + up),
    decreases expr.len(),
{
    if expr.len() > 0 {
        lemma_scan_shift(expr.drop_first(), base + step(expr[0]), up);
    }
}

/// A walk that succeeds ends at the start depth plus the depth of the
/// expression, and has met each addition sign at a depth above zero.
pub proof fn lemma_scan_depth(expr: Seq<char>, base: int)
    requires
        scan(expr, base) is Some,
    ensures
        scan(expr, base) == Some(base + depth(expr)),
        forall|i: int|
            0 <= i < expr.len() && expr[i] == '+' ==> base + depth(#[trigger] expr.take(i)) > 0,
    decreases expr.len(),
{
    if expr.len() > 0 {
        let head = expr.take(1);
        let rest = expr.drop_first();
        assert(head.drop_last() =~= Seq::<char>::empty());
        assert(depth(head.drop_last()) == 0);
        assert(depth(head) == step(expr[0]));
        lemma_scan_depth(rest, base + step(expr[0]));
        assert(expr =~= head + rest);
        lemma_depth_concat(head, rest);
        assert forall|i: int| 0 <= i < expr.len() && expr[i] == '+' implies base + depth(
            #[trigger] expr.take(i),
        ) > 0 by {
            if i == 0 {
                assert(expr.take(0) =~= Seq::<char>::empty());
            } else {
                assert(expr.take(i) =~= head + rest.take(i - 1));
                lemma_depth_concat(head, rest.take(i - 1));
                assert(rest[i - 1] == '+');
            }
        }
    }
}

/// A sound expression is guarded and can stand inside a bracket.
pub proof fn lemma_sound_guarded(expr: Seq<char>)
    requires
        sound(expr),
    ensures
        guarded(expr),
        piece(expr),
{
    lemma_scan_depth(expr, 0);
    lemma_scan_shift(expr, 0, 1);
}

/// Pieces joined by addition signs make a piece.
pub proof fn lemma_join_piece(parts: Seq<Seq<char>>)
    requires
        forall|i: int| 0 <= i < parts.len() ==> piece(#[trigger] parts[i]),
    ensures
        piece(join(parts, plus())),
    decreases parts.len(),
{
    reveal_strlit("+");
    reveal_with_fuel(scan, 3);
    assert(scan(plus(), 1) == Some(1int));
    if parts.len() == 1 {
        assert(piece(parts[0]));
    } else if parts.len() > 1 {
        let front = join(parts.drop_last(), plus());
        lemma_join_piece(parts.drop_last());
        assert(piece(parts.last()));
        lemma_scan_concat(front, plus(), 1);
        lemma_scan_concat(front + plus(), parts.last(), 1);
    }
}

/// Every numeral is a piece.
pub proof fn lemma_number_piece(n: nat)
    ensures
        piece(number_spec(n)),
{
    reveal_strlit("+[]");
    reveal_with_fuel(scan, 5);
    assert(piece(zero_expr()));
    lemma_ones_piece(n);
}

/// A run of one-literals is a piece.
pub proof fn lemma_ones_piece(count: nat)
    ensures
        piece(repeat(one_expr(), count)),
    decreases count,
{
    reveal_strlit("+!![]");
    reveal_with_fuel(scan, 7);
    assert(piece(one_expr()));
    if count > 0 {
        lemma_ones_piece((count - 1) as nat);
        lemma_scan_concat(repeat(one_expr(), (count - 1) as nat), one_expr(), 1);
    }
}

/// A word spelled from sound entries is a piece.
pub proof fn lemma_word_piece(table: Map<char, Seq<char>>, word: Seq<char>)
    requires
        entries_sound(table),
        covers(table, word),
    ensures
        piece(word_expr(table, word)),
        piece(from_string_spec(table, word)),
{
    let parts = word.map_values(|c: char| table[c]);
    assert forall|i: int| 0 <= i < parts.len() implies piece(#[trigger] parts[i]) by {
        assert(table.contains_key(word[i]));
        lemma_sound_guarded(table[word[i]]);
    }
    lemma_join_piece(parts);
    lemma_covered_word(table, word);
}

/// A piece in parentheses, indexed by a piece, is sound.
pub proof fn lemma_indexed_sound(phrase: Seq<char>, index: Seq<char>)
    requires
        piece(phrase),
        piece(index),
    ensures
        sound("("@ + phrase + ")["@ + index + "]"@),
{
    reveal_strlit("(");
    reveal_strlit(")[");
    reveal_strlit("]");
    reveal_with_fuel(scan, 4);
    assert(scan("("@, 0) == Some(1int));
    assert(scan(")["@, 1) == Some(1int));
    assert(scan("]"@, 1) == Some(0int));
    lemma_scan_concat("("@, phrase, 0);
    lemma_scan_concat("("@ + phrase, ")["@, 0);
    lemma_scan_concat("("@ + phrase + ")["@, index, 0);
    lemma_scan_concat("("@ + phrase + ")["@ + index, "]"@, 0);
}

/// The source text of a constructor, reached through sound entries, is a
/// piece.
pub proof fn lemma_constructor_phrase_piece(value: Seq<char>, table: Map<char, Seq<char>>)
    requires
        piece(value),
        entries_sound(table),
        covers(table, constructor_word()),
    ensures
        piece(constructor_phrase(value, table)),
{
    reveal_strlit("[]+");
    reveal_with_fuel(scan, 5);
    assert(scan("[]+"@, 1) == Some(1int));
    let indexed = index_by_str_spec(value, table, constructor_word());
    lemma_word_piece(table, constructor_word());
    lemma_indexed_sound(value, from_string_spec(table, constructor_word()));
    lemma_sound_guarded(indexed);
    lemma_scan_concat("[]+"@, indexed, 1);
}

/// A radix digit, with `toString` spelled from sound entries, is sound.
pub proof fn lemma_radix_digit_sound(table: Map<char, Seq<char>>, value: nat, radix: nat)
    requires
        entries_sound(table),
        covers(table, to_string_word()),
    ensures
        sound(radix_digit_spec(table, value, radix)),
{
    reveal_strlit("(");
    reveal_strlit(")[");
    reveal_strlit("](");
    reveal_strlit(")");
    reveal_with_fuel(scan, 4);
    assert(scan("("@, 0) == Some(1int));
    assert(scan(")["@, 1) == Some(1int));
    assert(scan("]("@, 1) == Some(1int));
    assert(scan(")"@, 1) == Some(0int));
    let first = number_spec(value);
    let method = from_string_spec(table, to_string_word());
    let second = number_spec(radix);
    lemma_number_piece(value);
    lemma_number_piece(radix);
    lemma_word_piece(table, to_string_word());
    lemma_scan_concat("("@, first, 0);
    lemma_scan_concat("("@ + first, ")["@, 0);
    lemma_scan_concat("("@ + first + ")["@, method, 0);
    lemma_scan_concat("("@ + first + ")["@ + method, "]("@, 0);
    lemma_scan_concat("("@ + first + ")["@ + method + "]("@, second, 0);
    lemma_scan_concat("("@ + first + ")["@ + method + "]("@ + second, ")"@, 0);
}

/// The synthesis of a character, its words spelled from sound entries, is
/// sound.
pub proof fn lemma_fallback_sound(table: Map<char, Seq<char>>, c: char)
    requires
        entries_sound(table),
        can_synthesize(table),
    ensures
        sound(fallback_expr(table, c)),
{
    reveal_strlit("([]+[])[");
    reveal_strlit("][");
    reveal_strlit("](");
    reveal_strlit(")");
    reveal_with_fuel(scan, 10);
    assert(scan("([]+[])["@, 0) == Some(1int));
    assert(scan("]["@, 1) == Some(1int));
    assert(scan("]("@, 1) == Some(1int));
    assert(scan(")"@, 1) == Some(0int));
    let first = word_expr(table, constructor_word());
    let second = word_expr(table, from_char_code_word());
    let numeral = number_spec(c as nat);
    lemma_word_piece(table, constructor_word());
    lemma_word_piece(table, from_char_code_word());
    lemma_number_piece(c as nat);
    lemma_scan_concat("([]+[])["@, first, 0);
    lemma_scan_concat("([]+[])["@ + first, "]["@, 0);
    lemma_scan_concat("([]+[])["@ + first + "]["@, second, 0);
    lemma_scan_concat("([]+[])["@ + first + "]["@ + second, "]("@, 0);
    lemma_scan_concat("([]+[])["@ + first + "]["@ + second + "]("@, numeral, 0);
    lemma_scan_concat("([]+[])["@ + first + "]["@ + second + "]("@ + numeral, ")"@, 0);
}

/// Setting a sound entry keeps the entries sound.
pub proof fn lemma_insert_sound(table: Map<char, Seq<char>>, c: char, expr: Seq<char>)
    requires
        entries_sound(table),
        sound(expr),
    ensures
        entries_sound(table.insert(c, expr)),
{
}

/// The entries of the first stage are sound.
pub proof fn lemma_coercion_stage_sound()
    ensures
        entries_sound(coercion_stage()),
{
    reveal_strlit("(+{}+[])[+!![]]");
    reveal_strlit("{}+[]");
    reveal_strlit("![]+[]");
    reveal_strlit("!![]+[]");
    reveal_strlit("+!![]/+![]+[]");
    reveal_with_fuel(scan, 17);
    assert(sound("(+{}+[])[+!![]]"@));
    assert(piece(object_phrase()));
    assert(piece(false_phrase()));
    assert(piece(true_phrase()));
    assert(piece(infinity_phrase()));
    assert forall|n: nat| sound(#[trigger] index_by_num_spec(object_phrase(), n)) by {
        lemma_number_piece(n);
        lemma_indexed_sound(object_phrase(), number_spec(n));
    }
    assert forall|n: nat| sound(#[trigger] index_by_num_spec(false_phrase(), n)) by {
        lemma_number_piece(n);
        lemma_indexed_sound(false_phrase(), number_spec(n));
    }
    assert forall|n: nat| sound(#[trigger] index_by_num_spec(true_phrase(), n)) by {
        lemma_number_piece(n);
        lemma_indexed_sound(true_phrase(), number_spec(n));
    }
    assert forall|n: nat| sound(#[trigger] index_by_num_spec(infinity_phrase(), n)) by {
        lemma_number_piece(n);
        lemma_indexed_sound(infinity_phrase(), number_spec(n));
    }
}

/// The entries of the second stage are sound.
pub proof fn lemma_string_stage_sound()
    ensures
        entries_sound(string_stage()),
{
    let before = coercion_stage();
    let phrase = constructor_phrase("[]+[]"@, before);
    reveal_strlit("[]+[]");
    reveal_with_fuel(scan, 7);
    assert(piece("[]+[]"@));
    lemma_coercion_stage_sound();
    lemma_coercion_stage_covers();
    lemma_constructor_phrase_piece("[]+[]"@, before);
    lemma_number_piece(9);
    lemma_number_piece(14);
    lemma_indexed_sound(phrase, number_spec(9));
    lemma_indexed_sound(phrase, number_spec(14));
    lemma_insert_sound(before, 'S', index_by_num_spec(phrase, 9));
    lemma_insert_sound(
        before.insert('S', index_by_num_spec(phrase, 9)),
        'g',
        index_by_num_spec(phrase, 14),
    );
}

/// The entries of the third stage are sound.
pub proof fn lemma_regexp_stage_sound()
    ensures
        entries_sound(regexp_stage()),
{
    let before = string_stage();
    let phrase = constructor_phrase("/-/"@, before);
    reveal_strlit("/-/");
    reveal_strlit("/\\\\/+[]");
    reveal_with_fuel(scan, 10);
    assert(piece("/-/"@));
    assert(piece(backslash_phrase()));
    lemma_string_stage_sound();
    lemma_string_stage_covers();
    lemma_constructor_phrase_piece("/-/"@, before);
    lemma_number_piece(14);
    lemma_number_piece(1);
    lemma_indexed_sound(phrase, number_spec(14));
    lemma_indexed_sound(backslash_phrase(), number_spec(1));
    lemma_insert_sound(before, 'p', index_by_num_spec(phrase, 14));
    lemma_insert_sound(
        before.insert('p', index_by_num_spec(phrase, 14)),
        '\\',
        index_by_num_spec(backslash_phrase(), 1),
    );
}

/// The entries of the fourth stage are sound.
pub proof fn lemma_radix_stage_sound()
    ensures
        entries_sound(radix_stage()),
{
    let before = regexp_stage();
    lemma_regexp_stage_sound();
    lemma_regexp_stage_covers();
    let d = radix_digit_spec(before, 13, 14);
    let with_d = before.insert('d', d);
    lemma_radix_digit_sound(before, 13, 14);
    lemma_insert_sound(before, 'd', d);
    lemma_covers_insert(before, to_string_word(), 'd', d);
    let h = radix_digit_spec(with_d, 17, 18);
    let with_h = with_d.insert('h', h);
    lemma_radix_digit_sound(with_d, 17, 18);
    lemma_insert_sound(with_d, 'h', h);
    lemma_covers_insert(with_d, to_string_word(), 'h', h);
    let m = radix_digit_spec(with_h, 22, 23);
    lemma_radix_digit_sound(with_h, 22, 23);
    lemma_insert_sound(with_h, 'm', m);
}

/// The last entry is sound.
pub proof fn lemma_escaped_backslash_sound()
    ensures
        sound(escaped_backslash_spec(radix_stage())),
{
    let table = radix_stage();
    lemma_radix_stage_sound();
    lemma_radix_stage_covers();
    reveal_strlit("(()=>{})[");
    reveal_strlit("]");
    reveal_strlit("(");
    reveal_strlit(")()(");
    reveal_strlit("))[");
    reveal_with_fuel(scan, 11);
    assert(scan("("@, 0) == Some(1int));
    assert(scan("(()=>{})["@, 1) == Some(2int));
    assert(scan("]"@, 2) == Some(1int));
    assert(scan("("@, 1) == Some(2int));
    assert(scan(")()("@, 2) == Some(2int));
    assert(scan("))["@, 2) == Some(1int));
    assert(scan("]"@, 1) == Some(0int));
    let name = from_string_spec(table, constructor_word());
    let maker = function_constructor_spec(table);
    let body = from_string_spec(table, return_escape_word());
    let slash = table['\\'];
    let two = number_spec(2);
    lemma_word_piece(table, constructor_word());
    lemma_word_piece(table, return_escape_word());
    lemma_sound_guarded(slash);
    lemma_number_piece(2);
    lemma_scan_shift(name, 1, 1);
    lemma_scan_shift(body, 1, 1);
    lemma_scan_shift(slash, 1, 1);
    lemma_scan_concat("(()=>{})["@, name, 1);
    lemma_scan_concat("(()=>{})["@ + name, "]"@, 1);
    assert(scan(maker, 1) == Some(1int));
    lemma_scan_concat("("@, maker, 0);
    lemma_scan_concat("("@ + maker, "("@, 0);
    lemma_scan_concat("("@ + maker + "("@, body, 0);
    lemma_scan_concat("("@ + maker + "("@ + body, ")()("@, 0);
    lemma_scan_concat("("@ + maker + "("@ + body + ")()("@, slash, 0);
    lemma_scan_concat("("@ + maker + "("@ + body + ")()("@ + slash, "))["@, 0);
    lemma_scan_concat("("@ + maker + "("@ + body + ")()("@ + slash + "))["@, two, 0);
    lemma_scan_concat("("@ + maker + "("@ + body + ")()("@ + slash + "))["@ + two, "]"@, 0);
}

/// Every entry of the finished table is sound.
pub proof fn lemma_char_map_sound()
    ensures
        entries_sound(char_map_spec()),
{
    lemma_radix_stage_sound();
    lemma_escaped_backslash_sound();
    lemma_insert_sound(radix_stage(), 'C', escaped_backslash_spec(radix_stage()));
}

/// The expression of every character, against the finished table, is sound.
pub proof fn lemma_char_expr_sound(c: char)
    ensures
        sound(char_expr(char_map_spec(), c)),
        guarded(char_expr(char_map_spec(), c)),
{
    lemma_char_map_sound();
    lemma_char_map_covers();
    if !char_map_spec().contains_key(c) {
        lemma_fallback_sound(char_map_spec(), c);
    }
    lemma_sound_guarded(char_expr(char_map_spec(), c));
}

} // verus!
