//! A character-sheet rule engine with a small rule-definition language.
//!
//! The heart of the crate is the property resolver: a memoized, cycle-guarded,
//! depth-first evaluator that turns the modifiers of a sheet's active feature
//! sets into a complete map from property names to values or structured
//! errors.  Around it stand the value data model (numbers and dice
//! expressions), a static analysis that computes the minimal set of user
//! inputs a sheet requires, and a tokenizer, parser and pretty-printer for the
//! textual rule-definition language.

pub mod ast;
pub mod cast;
pub mod character_sheet;
pub mod character_sheet_collection;
pub mod cst;
pub mod definitions;
pub mod dice_arith;
pub mod engine;
pub mod functions;
pub mod laws;
pub mod limiters;
pub mod parser;
pub mod resolution;
pub mod selectors;
pub mod serializer;
pub mod string_map;
pub mod text;
pub mod tokenizer;
