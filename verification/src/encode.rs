//! Text as an expression: each character through the table, or synthesised
//! from its code point, and the pieces added together.

use crate::numeral::{number, number_spec};
use crate::table::CharMap;
use vstd::prelude::*;
use vstd::string::*;

verus! {

/// The addition sign, which also concatenates strings.
pub open spec fn plus() -> Seq<char> {
    "+"@
}

/// The member name that leads from a value to its constructor.
pub open spec fn constructor_word() -> Seq<char> {
    "constructor"@
}

/// The name of the function that makes a string from a code point.
pub open spec fn from_char_code_word() -> Seq<char> {
    "fromCharCode"@
}

/// `parts` written one after another with `sep` between neighbours.
pub open spec fn join(parts: Seq<Seq<char>>, sep: Seq<char>) -> Seq<char>
    decreases parts.len(),
{
    if parts.len() == 0 {
        Seq::empty()
    } else if parts.len() == 1 {
        parts[0]
    } else {
        join(parts.drop_last(), sep) + sep + parts.last()
    }
}

/// Every character of `word` has an entry in `table`.
pub open spec fn covers(table: Map<char, Seq<char>>, word: Seq<char>) -> bool {
    forall|i: int| 0 <= i < word.len() ==> table.contains_key(#[trigger] word[i])
}

/// `word` spelled from table entries alone.
pub open spec fn word_expr(table: Map<char, Seq<char>>, word: Seq<char>) -> Seq<char> {
    join(word.map_values(|c: char| table[c]), plus())
}

/// The table spells both words that code-point synthesis is written with.
pub open spec fn can_synthesize(table: Map<char, Seq<char>>) -> bool {
    covers(table, constructor_word()) && covers(table, from_char_code_word())
}

/// `s` can be encoded against `table`: no character of it needs synthesis,
/// or synthesis is available.
pub open spec fn encodable(table: Map<char, Seq<char>>, s: Seq<char>) -> bool {
    covers(table, s) || can_synthesize(table)
}

/// The expression that synthesises `c` from its code point: the string
/// constructor's `fromCharCode`, called on the numeral of the code point.
pub open spec fn fallback_expr(table: Map<char, Seq<char>>, c: char) -> Seq<char> {
    "([]+[])["@ + word_expr(table, constructor_word()) + "]["@ + word_expr(
        table,
        from_char_code_word(),
    ) + "]("@ + number_spec(c as nat) + ")"@
}

/// The expression for one character: its table entry, else its synthesis.
pub open spec fn char_expr(table: Map<char, Seq<char>>, c: char) -> Seq<char> {
    if table.contains_key(c) {
        table[c]
    } else {
        fallback_expr(table, c)
    }
}

/// The expressions of the characters of `s`, in order.
pub open spec fn char_exprs(table: Map<char, Seq<char>>, s: Seq<char>) -> Seq<Seq<char>> {
    s.map_values(|c: char| char_expr(table, c))
}

/// The expression for `s`: the expressions of its characters, added together.
pub open spec fn from_string_spec(table: Map<char, Seq<char>>, s: Seq<char>) -> Seq<char> {
    join(char_exprs(table, s), plus())
}

/// The self-invoking expression that runs `code`: the function constructor,
/// reached through an empty arrow function, applied to the encoded text and
/// the result called at once.
pub open spec fn compile_spec(table: Map<char, Seq<char>>, code: Seq<char>) -> Seq<char> {
    "(()=>{})["@ + from_string_spec(table, constructor_word()) + "]("@ + from_string_spec(
        table,
        code,
    ) + ")()"@
}

/// Appending a part to a joined sequence appends the separator and the part,
/// or the part alone where it is the first.
pub proof fn lemma_join_push(parts: Seq<Seq<char>>, sep: Seq<char>, part: Seq<char>)
    ensures
        join(parts.push(part), sep) == if parts.len() == 0 {
            part
        } else {
            join(parts, sep) + sep + part
        },
{
    assert(parts.push(part).drop_last() =~= parts);
}

/// A word that the table covers is encoded from table entries alone.
pub proof fn lemma_covered_word(table: Map<char, Seq<char>>, word: Seq<char>)
    requires
        covers(table, word),
    ensures
        from_string_spec(table, word) == word_expr(table, word),
{
    assert(char_exprs(table, word) =~= word.map_values(|c: char| table[c]));
}

/// Whether every character of `word` has an entry in `map`.
pub fn covers_word(map: &CharMap, word: &str) -> (all: bool)
    ensures
        all == covers(map@, word@),
{
    let mut all = true;
    for c in it: word.chars()
        invariant
            it.seq() == word@,
            all == covers(map@, word@.take(it.index() as int)),
    {
        proof {
            let at = it.index() as int;
            assert(word@.take(at + 1) =~= word@.take(at).push(c));
            assert(word@.take(at + 1)[at] == c);
            if covers(map@, word@.take(at + 1)) {
                assert forall|i: int| 0 <= i < at implies map@.contains_key(
                    #[trigger] word@.take(at)[i],
                ) by {
                    assert(word@.take(at + 1)[i] == word@.take(at)[i]);
                }
            }
        }
        if !map.contains_key(c) {
            all = false;
        }
    }
    assert(word@.take(word@.len() as int) =~= word@);
    all
}

/// The code point of `c`.
fn code_point_of(c: char) -> (code: usize)
    ensures
        code == c as nat,
{
    c as u32 as usize
}

/// Whether `from_string` accepts `s` against `map`.
pub fn can_encode(map: &CharMap, s: &str) -> (ok: bool)
    ensures
        ok == encodable(map@, s@),
{
    covers_word(map, s) || (covers_word(map, "constructor") && covers_word(map, "fromCharCode"))
}

/// Encodes `s` as an expression that evaluates to it. A character with a
/// table entry contributes that entry; any other is synthesised from its code
/// point, at a cost linear in the code point. Synthesis spells two words from
/// the table, so a string that needs it is accepted only where the table
/// covers both.
pub fn from_string(map: &CharMap, s: &str) -> (out: String)
    requires
        encodable(map@, s@),
    ensures
        out@ == from_string_spec(map@, s@),
    decreases (if covers(map@, s@) { 0nat } else { 1nat }),
{
    let mut out = String::new();
    let mut first = true;
    for c in it: s.chars()
        invariant
            it.seq() == s@,
            first == (it.index() == 0),
            encodable(map@, s@),
            out@ == from_string_spec(map@, s@.take(it.index() as int)),
    {
        proof {
            let at = it.index() as int;
            let done = char_exprs(map@, s@.take(at));
            assert(char_exprs(map@, s@.take(at + 1)) =~= done.push(char_expr(map@, c)));
            lemma_join_push(done, plus(), char_expr(map@, c));
        }
        if !first {
            out.append("+");
        }
        first = false;
        match map.get(c) {
            Some(expr) => {
                out.append(expr.as_str());
            },
            None => {
                proof {
                    lemma_covered_word(map@, constructor_word());
                    lemma_covered_word(map@, from_char_code_word());
                }
                let constructor = from_string(map, "constructor");
                let from_char_code = from_string(map, "fromCharCode");
                let code_point = number(code_point_of(c));
                let mut piece = String::from_str("([]+[])[");
                piece.append(constructor.as_str());
                piece.append("][");
                piece.append(from_char_code.as_str());
                piece.append("](");
                piece.append(code_point.as_str());
                piece.append(")");
                out.append(piece.as_str());
            },
        }
    }
    assert(s@.take(s@.len() as int) =~= s@);
    out
}

/// Wraps `code` into one expression that, evaluated, runs it: the function
/// constructor is reached from an empty arrow function, called on the encoded
/// text, and the function it returns is called with no argument.
pub fn compile(map: &CharMap, code: &str) -> (out: String)
    requires
        covers(map@, constructor_word()),
        encodable(map@, code@),
    ensures
        out@ == compile_spec(map@, code@),
{
    let constructor = from_string(map, "constructor");
    let body = from_string(map, code);
    let mut out = String::from_str("(()=>{})[");
    out.append(constructor.as_str());
    out.append("](");
    out.append(body.as_str());
    out.append(")()");
    out
}

} // verus!
