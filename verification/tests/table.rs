use punct_encoder::{build_char_map, CharMap};

const BASE: &str = "aobjec flstruniSgp\\dhmC";

#[test]
fn new_table_is_empty() {
    let table = CharMap::new();
    assert!(!table.contains_key('a'));
    assert!(table.get('a').is_none());
}

#[test]
fn insert_then_get() {
    let mut table = CharMap::new();
    table.insert('x', String::from("[]"));
    assert!(table.contains_key('x'));
    assert_eq!(table.get('x').map(|e| e.as_str()), Some("[]"));
    assert!(!table.contains_key('y'));
}

#[test]
fn insert_replaces_an_earlier_entry() {
    let mut table = CharMap::new();
    table.insert('x', String::from("[]"));
    table.insert('x', String::from("{}"));
    assert_eq!(table.get('x').map(|e| e.as_str()), Some("{}"));
}

#[test]
fn clone_keeps_entries_and_is_independent() {
    let mut table = CharMap::new();
    table.insert('x', String::from("[]"));
    let copy = table.clone();
    table.insert('y', String::from("{}"));
    assert_eq!(copy.get('x').map(|e| e.as_str()), Some("[]"));
    assert!(!copy.contains_key('y'));
    assert!(table.contains_key('y'));
}

#[test]
fn built_table_knows_the_base_alphabet() {
    let table = build_char_map();
    for c in BASE.chars() {
        assert!(table.contains_key(c), "missing {:?}", c);
    }
}

#[test]
fn built_table_knows_nothing_else() {
    let table = build_char_map();
    for code in 0u32..0x3000 {
        if let Some(c) = char::from_u32(code) {
            assert_eq!(table.contains_key(c), BASE.contains(c), "at {:?}", c);
        }
    }
}

#[test]
fn coercion_entries() {
    let table = build_char_map();
    let entry = |c: char| table.get(c).map(|e| e.as_str());
    assert_eq!(entry('a'), Some("(+{}+[])[+!![]]"));
    assert_eq!(entry('o'), Some("({}+[])[+!![]]"));
    assert_eq!(entry('b'), Some("({}+[])[+!![]+!![]]"));
    assert_eq!(entry('j'), Some("({}+[])[+!![]+!![]+!![]]"));
    assert_eq!(entry('e'), Some("({}+[])[+!![]+!![]+!![]+!![]]"));
    assert_eq!(entry('c'), Some("({}+[])[+!![]+!![]+!![]+!![]+!![]]"));
    assert_eq!(entry(' '), Some("({}+[])[+!![]+!![]+!![]+!![]+!![]+!![]+!![]]"));
    assert_eq!(entry('f'), Some("(![]+[])[+[]]"));
    assert_eq!(entry('l'), Some("(![]+[])[+!![]+!![]]"));
    assert_eq!(entry('s'), Some("(![]+[])[+!![]+!![]+!![]]"));
    assert_eq!(entry('t'), Some("(!![]+[])[+[]]"));
    assert_eq!(entry('r'), Some("(!![]+[])[+!![]]"));
    assert_eq!(entry('u'), Some("(!![]+[])[+!![]+!![]]"));
    assert_eq!(entry('n'), Some("(+!![]/+![]+[])[+!![]+!![]+!![]+!![]]"));
    assert_eq!(entry('i'), Some("(+!![]/+![]+[])[+!![]+!![]+!![]]"));
    assert_eq!(entry('\\'), Some("(/\\\\/+[])[+!![]]"));
}

#[test]
fn building_twice_gives_the_same_entries() {
    let first = build_char_map();
    let second = build_char_map();
    for c in BASE.chars() {
        assert_eq!(first.get(c), second.get(c));
    }
}
