//! A single-pass, syntax-directed translator for a miniature imperative
//! notation: single-letter statement keywords, one-character condition codes
//! and arithmetic expressions are read left to right and turned into a
//! stack-machine textual form, with no syntax tree kept between recognition
//! and emission beyond the expression layer.
//!
//! The translator is specified against a mathematical model: every consuming
//! or emitting routine is proved equal to a pure specification function over
//! the input byte sequence, so that translation is deterministic by contract.

pub mod compiler;
pub mod diag;
pub mod expr;
pub mod instr;
pub mod laws;
pub mod model;
pub mod render;
pub mod table;
