//! A recursive-descent syntax validator for the small imperative language C1.
//!
//! The parser consumes a stream of classified tokens and answers one question:
//! does the stream match the C1 grammar, and if not, where did it first fail.
//! Every parsing procedure is proved to agree with the grammar model in
//! [`grammar`], a functional description of the language over token sequences;
//! [`derivation`] gives the grammar's derivation trees, and [`laws`] states
//! what holds of the parser: exactly the valid programs are accepted, each to
//! its last token; ambiguities are resolved as the grammar dictates; and
//! failures are reproducible, reported where they occur, and never before the
//! input has left the language.
pub mod token;
pub mod grammar;
pub mod parser;
pub mod derivation;
pub mod acceptance;
pub mod positions;
pub mod soundness;
pub mod locality;
pub mod laws;
