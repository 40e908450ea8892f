//! A verified parser for the MATPOWER power-system case text format.
//!
//! A case document is a loosely ordered set of named assignments: a header
//! line naming the case, scalar assignments for the format version and the
//! base power, and bracketed tabular sections for buses, generators,
//! generator cost curves, branches, DC lines and bus names. The parser turns
//! such a document into a typed [`case::Case`], or, on malformed input, a
//! diagnostic anchored to the offending line and column.

pub mod case;
pub mod diag;
pub mod laws;
pub mod lex;
pub mod number;
pub mod records;
pub mod sections;
