//! Indexing a runtime value, by position or by member name.

use crate::encode::{encodable, from_string, from_string_spec};
use crate::numeral::{number, number_spec};
use crate::table::CharMap;
use vstd::prelude::*;
use vstd::string::*;

verus! {

/// What a value is indexed by.
#[allow(non_camel_case_types)]
pub enum JavascriptIndex {
    /// A position, written as a numeral.
    NUMBER(usize),
    /// A member name, spelled through the table.
    STRING(&'static str),
}

/// An expression to index, together with the table that spells member
/// names for it.
pub struct Formatter(pub String, pub CharMap);

/// `phrase` in parentheses, indexed by the numeral of `position`.
pub open spec fn index_by_num_spec(phrase: Seq<char>, position: nat) -> Seq<char> {
    "("@ + phrase + ")["@ + number_spec(position) + "]"@
}

/// `phrase` in parentheses, indexed by `word` as `table` encodes it.
pub open spec fn index_by_str_spec(
    phrase: Seq<char>,
    table: Map<char, Seq<char>>,
    word: Seq<char>,
) -> Seq<char> {
    "("@ + phrase + ")["@ + from_string_spec(table, word) + "]"@
}

/// `phrase` indexed by `index`, member names spelled through `table`.
pub open spec fn index_spec(
    phrase: Seq<char>,
    table: Map<char, Seq<char>>,
    index: JavascriptIndex,
) -> Seq<char> {
    match index {
        JavascriptIndex::NUMBER(position) => index_by_num_spec(phrase, position as nat),
        JavascriptIndex::STRING(word) => index_by_str_spec(phrase, table, word@),
    }
}

impl Formatter {
    /// The expression for the element of the phrase at position `index`.
    pub fn index_by_num(&self, index: usize) -> (out: String)
        ensures
            out@ == index_by_num_spec(self.0@, index as nat),
    {
        let position = number(index);
        let mut out = String::from_str("(");
        out.append(self.0.as_str());
        out.append(")[");
        out.append(position.as_str());
        out.append("]");
        out
    }

    /// The expression for the member of the phrase named `index`.
    pub fn index_by_str(&self, index: &'static str) -> (out: String)
        requires
            encodable(self.1@, index@),
        ensures
            out@ == index_by_str_spec(self.0@, self.1@, index@),
    {
        let name = from_string(&self.1, index);
        let mut out = String::from_str("(");
        out.append(self.0.as_str());
        out.append(")[");
        out.append(name.as_str());
        out.append("]");
        out
    }

    /// The expression for the phrase indexed by `index`.
    pub fn index(&self, index: JavascriptIndex) -> (out: String)
        requires
            index matches JavascriptIndex::STRING(word) ==> encodable(self.1@, word@),
        ensures
            out@ == index_spec(self.0@, self.1@, index),
    {
        match index {
            JavascriptIndex::NUMBER(num) => self.index_by_num(num),
            JavascriptIndex::STRING(s) => self.index_by_str(s),
        }
    }
}

} // verus!
