use punct_encoder::{
    build_char_map, can_encode, compile, covers_word, from_string, number, CharMap, Formatter,
    JavascriptIndex,
};

const RESTRICTED: &str = "()[]{}/+!-=\\";

fn entry(table: &CharMap, c: char) -> String {
    table.get(c).expect("the table knows this character").clone()
}

/// Splits an expression at the addition signs that stand outside every
/// bracket.
fn top_level_parts(expr: &str) -> Vec<String> {
    let mut parts = Vec::new();
    let mut depth = 0usize;
    let mut current = String::new();
    for c in expr.chars() {
        match c {
            '(' | '[' | '{' => depth += 1,
            ')' | ']' | '}' => depth -= 1,
            _ => {}
        }
        if c == '+' && depth == 0 {
            parts.push(current);
            current = String::new();
        } else {
            current.push(c);
        }
    }
    if !expr.is_empty() {
        parts.push(current);
    }
    parts
}

/// Reads an encoding back: a part is a table entry, or a synthesis whose
/// last argument is the numeral of the code point.
fn decode(table: &CharMap, expr: &str) -> String {
    let known = "aobjec flstruniSgp\\dhmC";
    let head = format!(
        "([]+[])[{}][{}](",
        from_string(table, "constructor"),
        from_string(table, "fromCharCode")
    );
    let mut text = String::new();
    for part in top_level_parts(expr) {
        if let Some(c) = known.chars().find(|c| entry(table, *c) == part) {
            text.push(c);
        } else {
            let numeral = part
                .strip_prefix(head.as_str())
                .and_then(|rest| rest.strip_suffix(")"))
                .expect("a synthesis");
            let code = numeral.matches("+!![]").count();
            assert_eq!(number(code), numeral);
            text.push(char::from_u32(code as u32).expect("a code point"));
        }
    }
    text
}

#[test]
fn empty_text_is_the_empty_expression() {
    let table = build_char_map();
    assert_eq!(from_string(&table, ""), "");
}

#[test]
fn one_known_character_is_its_entry() {
    let table = build_char_map();
    assert_eq!(from_string(&table, "a"), "(+{}+[])[+!![]]");
}

#[test]
fn two_known_characters_are_added() {
    let table = build_char_map();
    let expected = format!("{}+{}", entry(&table, 'a'), entry(&table, 'b'));
    assert_eq!(from_string(&table, "ab"), expected);
    assert_eq!(from_string(&table, "ab"), "(+{}+[])[+!![]]+({}+[])[+!![]+!![]]");
}

#[test]
fn unknown_character_is_synthesised_from_its_code_point() {
    let table = build_char_map();
    let expected = format!(
        "([]+[])[{}][{}]({})",
        from_string(&table, "constructor"),
        from_string(&table, "fromCharCode"),
        number(65)
    );
    assert_eq!(from_string(&table, "A"), expected);
}

#[test]
fn synthesis_of_code_point_zero_uses_the_zero_literal() {
    let table = build_char_map();
    let encoded = from_string(&table, "\0");
    assert!(encoded.ends_with("](+[])"));
}

#[test]
fn mixed_text_joins_entries_and_syntheses() {
    let table = build_char_map();
    let expected = format!(
        "{}+{}+{}",
        entry(&table, 'a'),
        from_string(&table, "1"),
        entry(&table, 'b')
    );
    assert_eq!(from_string(&table, "a1b"), expected);
}

#[test]
fn constructor_is_spelled_from_entries() {
    let table = build_char_map();
    let letters: Vec<String> = "constructor".chars().map(|c| entry(&table, c)).collect();
    assert_eq!(from_string(&table, "constructor"), letters.join("+"));
}

#[test]
fn output_stays_in_the_output_alphabet() {
    let table = build_char_map();
    let printable: String = (0x20u8..0x7f).map(|b| b as char).collect();
    for text in [printable.as_str(), "Hello, World", "h\u{e9}llo \u{4e16}", "C"] {
        let encoded = from_string(&table, text);
        assert!(encoded.chars().all(|c| RESTRICTED.contains(c) || c == '>'));
    }
}

#[test]
fn known_letters_but_c_stay_in_the_restricted_alphabet() {
    let table = build_char_map();
    let encoded = from_string(&table, "aobjec flstruniSgp\\dhm");
    assert!(encoded.chars().all(|c| RESTRICTED.contains(c)));
}

#[test]
fn capital_c_and_synthesis_need_the_arrow() {
    let table = build_char_map();
    assert!(from_string(&table, "C").contains('>'));
    assert_eq!(entry(&table, 'C').chars().nth(5), Some('>'));
    assert!(from_string(&table, "x").contains('>'));
}

#[test]
fn encodings_read_back_as_the_text() {
    let table = build_char_map();
    let printable: String = (0x20u8..0x7f).map(|b| b as char).collect();
    for text in [printable.as_str(), "MixedCase tExT", "h\u{e9}llo", "", "a", "\\"] {
        assert_eq!(decode(&table, &from_string(&table, text)), text);
    }
}

#[test]
fn assembled_program_has_the_invocation_shape() {
    let table = build_char_map();
    let expected = format!(
        "(()=>{{}})[{}]({})()",
        from_string(&table, "constructor"),
        from_string(&table, "1")
    );
    assert_eq!(compile(&table, "1"), expected);
}

#[test]
fn assembled_program_carries_the_source() {
    let table = build_char_map();
    let source = "result = 42";
    let program = compile(&table, source);
    let head = format!("(()=>{{}})[{}](", from_string(&table, "constructor"));
    let body = program
        .strip_prefix(head.as_str())
        .and_then(|rest| rest.strip_suffix(")()"))
        .expect("an invocation");
    assert_eq!(decode(&table, body), source);
}

#[test]
fn assembled_program_stays_in_the_output_alphabet() {
    let table = build_char_map();
    let program = compile(&table, "alert(\"hi\")");
    assert!(program.chars().all(|c| RESTRICTED.contains(c) || c == '>'));
}

#[test]
fn radix_entries_call_to_string() {
    let table = build_char_map();
    let method = from_string(&table, "toString");
    assert_eq!(entry(&table, 'd'), format!("({})[{}]({})", number(13), method, number(14)));
    assert_eq!(entry(&table, 'h'), format!("({})[{}]({})", number(17), method, number(18)));
    assert_eq!(entry(&table, 'm'), format!("({})[{}]({})", number(22), method, number(23)));
}

#[test]
fn constructor_entries_index_the_source_text() {
    let table = build_char_map();
    let name = from_string(&table, "constructor");
    let string_source = format!("[]+([]+[])[{}]", name);
    let regexp_source = format!("[]+(/-/)[{}]", name);
    assert_eq!(entry(&table, 'S'), format!("({})[{}]", string_source, number(9)));
    assert_eq!(entry(&table, 'g'), format!("({})[{}]", string_source, number(14)));
    assert_eq!(entry(&table, 'p'), format!("({})[{}]", regexp_source, number(14)));
}

#[test]
fn capital_c_is_read_off_the_escaped_backslash() {
    let table = build_char_map();
    let expected = format!(
        "((()=>{{}})[{}]({})()({}))[{}]",
        from_string(&table, "constructor"),
        from_string(&table, "return escape"),
        entry(&table, '\\'),
        number(2)
    );
    assert_eq!(entry(&table, 'C'), expected);
}

#[test]
fn index_by_position() {
    let phrase = Formatter(String::from("![]+[]"), CharMap::new());
    assert_eq!(phrase.index_by_num(0), "(![]+[])[+[]]");
    assert_eq!(phrase.index_by_num(2), "(![]+[])[+!![]+!![]]");
    assert_eq!(phrase.index(JavascriptIndex::NUMBER(2)), "(![]+[])[+!![]+!![]]");
}

#[test]
fn index_by_name() {
    let table = build_char_map();
    let name = from_string(&table, "constructor");
    let phrase = Formatter(String::from("/-/"), table);
    assert_eq!(phrase.index_by_str("constructor"), format!("(/-/)[{}]", name));
    assert_eq!(
        phrase.index(JavascriptIndex::STRING("constructor")),
        format!("(/-/)[{}]", name)
    );
}

#[test]
fn covering_is_decided_character_by_character() {
    let mut table = CharMap::new();
    assert!(covers_word(&table, ""));
    assert!(!covers_word(&table, "a"));
    table.insert('a', String::from("[]"));
    assert!(covers_word(&table, "aaa"));
    assert!(!covers_word(&table, "aba"));
}

#[test]
fn partial_table_encodes_only_what_it_covers() {
    let mut table = CharMap::new();
    table.insert('a', String::from("[]"));
    assert!(can_encode(&table, "aa"));
    assert!(can_encode(&table, ""));
    assert!(!can_encode(&table, "ab"));
    assert_eq!(from_string(&table, "aa"), "[]+[]");
}

#[test]
fn finished_table_encodes_everything() {
    let table = build_char_map();
    assert!(covers_word(&table, "constructor"));
    assert!(covers_word(&table, "fromCharCode"));
    assert!(can_encode(&table, "anything at all \u{1F600}"));
}
