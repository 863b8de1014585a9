//! The derivation table: for each character it knows, an expression that
//! evaluates to the one-character string holding it.

use std::collections::HashMap;
use vstd::prelude::*;

verus! {

broadcast use vstd::std_specs::hash::group_hash_axioms;

/// A mapping from characters to expressions. Entries are stored under the
/// character's code point.
pub struct CharMap {
    entries: HashMap<u32, String>,
}

impl View for CharMap {
    type V = Map<char, Seq<char>>;

    closed spec fn view(&self) -> Map<char, Seq<char>> {
        Map::new(
            |c: char| self.entries@.contains_key(c as u32),
            |c: char| self.entries@[c as u32]@,
        )
    }
}

impl CharMap {
    /// A table with no entry.
    pub fn new() -> (table: CharMap)
        ensures
            table@ == Map::<char, Seq<char>>::empty(),
    {
        let table = CharMap { entries: HashMap::new() };
        assert(table@ =~= Map::<char, Seq<char>>::empty());
        table
    }

    /// Sets the expression of `c`, replacing an earlier one.
    pub fn insert(&mut self, c: char, expr: String)
        ensures
            final(self)@ == old(self)@.insert(c, expr@),
    {
        self.entries.insert(c as u32, expr);
        proof {
            let after = self@;
            let wanted = old(self)@.insert(c, expr@);
            assert(self.entries@ == old(self).entries@.insert(c as u32, expr));
            assert forall|d: char| after.contains_key(d) == wanted.contains_key(d) by {
                vstd::utf8::char_u32_cast(d, d as u32);
                vstd::utf8::char_u32_cast(c, c as u32);
            }
            assert forall|d: char| after.contains_key(d) implies after[d] == wanted[d] by {
                vstd::utf8::char_u32_cast(d, d as u32);
                vstd::utf8::char_u32_cast(c, c as u32);
            }
            assert(after =~= wanted);
        }
    }

    /// The expression of `c`, if the table has one.
    pub fn get(&self, c: char) -> (found: Option<&String>)
        ensures
            match found {
                Some(expr) => self@.contains_key(c) && expr@ == self@[c],
                None => !self@.contains_key(c),
            },
    {
        let key: u32 = c as u32;
        self.entries.get(&key)
    }

    /// Whether the table has an expression for `c`.
    pub fn contains_key(&self, c: char) -> (found: bool)
        ensures
            found == self@.contains_key(c),
    {
        let key: u32 = c as u32;
        self.entries.contains_key(&key)
    }
}

impl Clone for CharMap {
    /// A copy with the same entries.
    fn clone(&self) -> (copy: CharMap)
        ensures
            copy@ == self@,
    {
        let copy = CharMap { entries: self.entries.clone() };
        assert(copy@ =~= self@);
        copy
    }
}

} // verus!
