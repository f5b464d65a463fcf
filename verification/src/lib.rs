//! A compiler for a small embedded query-template language.
//!
//! A templated query is a tree of tokens: literal atoms, punctuation atoms,
//! bracketed groups and named parameter markers.  The library compiles such a
//! template into a normalized query string with positional placeholders
//! (`$1`, `$2`, ...) and an ordered, deduplicated parameter list, classifies a
//! declared result type into one of six execution shapes, and builds the
//! execution plan (binding order, row conversion, error conversion) that an
//! external code generator lowers into calls against a database client.

pub mod classify;
pub mod compile;
pub mod laws;
pub mod model;
pub mod plan;
pub mod text;
pub mod token;
pub mod type_expr;
