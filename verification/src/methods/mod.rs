//! The methods that Roan programs call on their built-in values: chars, strings and vectors.

pub mod chars;
pub mod strings;
pub mod table;
pub mod vecs;
