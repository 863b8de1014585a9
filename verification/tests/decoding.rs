use punct_encoder::{build_char_map, compile, from_string};

const BASE: &str = "aobjec flstruniSgp\\dhmC";

/// Whether `expr` closes every bracket it opens and keeps each of its
/// addition signs inside a bracket.
fn is_guarded(expr: &str) -> bool {
    let mut depth = 0i64;
    for c in expr.chars() {
        if c == '+' && depth <= 0 {
            return false;
        }
        match c {
            '(' | '[' | '{' => depth += 1,
            ')' | ']' | '}' => depth -= 1,
            _ => {}
        }
    }
    !expr.is_empty() && depth == 0
}

#[test]
fn every_entry_is_guarded() {
    let table = build_char_map();
    for c in BASE.chars() {
        let entry = table.get(c).expect("a base character");
        assert!(is_guarded(entry), "entry of {:?}", c);
    }
}

#[test]
fn a_synthesis_is_guarded() {
    let table = build_char_map();
    assert!(is_guarded(&from_string(&table, "A")));
    assert!(is_guarded(&from_string(&table, "\u{e9}")));
}

#[test]
fn no_two_characters_share_an_entry() {
    let table = build_char_map();
    for c in BASE.chars() {
        for d in BASE.chars() {
            assert_eq!(table.get(c) == table.get(d), c == d);
        }
    }
}

#[test]
fn no_entry_opens_like_a_synthesis() {
    let table = build_char_map();
    for c in BASE.chars() {
        assert!(!table.get(c).expect("a base character").starts_with("([]+[])["));
    }
    assert!(from_string(&table, "A").starts_with("([]+[])["));
}

#[test]
fn distinct_texts_have_distinct_encodings() {
    let table = build_char_map();
    let texts = ["", "a", "b", "ab", "ba", "a b", "A", "B", "aA", "Aa", "\u{e9}", "C", "c"];
    for first in texts {
        for second in texts {
            assert_eq!(
                from_string(&table, first) == from_string(&table, second),
                first == second
            );
        }
    }
}

#[test]
fn distinct_sources_have_distinct_programs() {
    let table = build_char_map();
    let sources = ["", "1", "2", "a=1", "a=2"];
    for first in sources {
        for second in sources {
            assert_eq!(compile(&table, first) == compile(&table, second), first == second);
        }
    }
}

#[test]
fn radix_digits_close_their_first_numeral_where_expected() {
    let table = build_char_map();
    let at = |c: char, i: usize| table.get(c).expect("a base character").chars().nth(i);
    assert_eq!(at('d', 66), Some(')'));
    assert_eq!(at('h', 66), Some('+'));
    assert_eq!(at('h', 86), Some(')'));
    assert_eq!(at('m', 86), Some('+'));
    assert_eq!(at('m', 111), Some(')'));
}

#[test]
fn entry_lengths() {
    let table = build_char_map();
    let len = |c: char| table.get(c).expect("a base character").len();
    assert_eq!(len('a'), 15);
    assert_eq!(len('o'), 14);
    assert_eq!(len(' '), 44);
    assert_eq!(len('f'), 13);
    assert_eq!(len('n'), 37);
    assert_eq!(len('S'), 310);
    assert_eq!(len('g'), 335);
    assert_eq!(len('p'), 333);
    assert_eq!(len('d'), 920);
    assert_eq!(len('h'), 960);
    assert_eq!(len('m'), 1010);
    assert_eq!(len('C'), 949);
    assert_eq!(from_string(&table, "A").len(), 5503);
}
