//! A tolerant CSS parser and serializer, verified with Verus.
//!
//! `parser::parse` scans source text in a single forward pass into a
//! `structs::Stylesheet` — rules of selectors and declarations, with color
//! tokens classified into exact channel values and length tokens split
//! into number and unit — and `parser::stringify` renders the model back
//! to canonical text. Every function's behaviour is pinned down by a
//! specification-level model of the same scan, and `laws` states and
//! proves the properties that relate the pieces.

pub mod text;
pub mod num;
pub mod names;
pub mod color;
pub mod selector;
pub mod structs;
pub mod parser;
pub mod laws;
