//! Rewrites program text as an equivalent JavaScript expression spelled with
//! punctuation only, by leaning on the language's implicit type coercions.

pub mod alphabet;
pub mod brackets;
pub mod decoding;
pub mod derivation;
pub mod encode;
pub mod formatter;
pub mod numeral;
pub mod table;

pub use derivation::build_char_map;
pub use encode::{can_encode, compile, covers_word, from_string};
pub use formatter::{Formatter, JavascriptIndex};
pub use numeral::number;
pub use table::CharMap;
