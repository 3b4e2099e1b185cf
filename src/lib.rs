//! Building blocks for language front ends: character classes, numeric
//! literals with overflow-checked accumulation, and operator-precedence
//! expression grammars.
pub mod character;
pub mod error;
pub mod identifier;
pub mod infix;
pub mod numeric;
