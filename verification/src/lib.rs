//! Front end for the Lisaa language: a lexical scanner and a
//! recursive-descent parser with operator-precedence expression parsing
//! and bounded multi-error recovery.
//!
//! The pipeline is: source text -> [`scanner::Scanner`] -> token sequence
//! -> [`parser::Parser::program`] -> either a map from function name to
//! [`statement::FunctionDecl`], or an ordered list of parse errors.
//!
//! Every scanning and parsing step is specified by a spec-level twin
//! (`sp_...`) and each executable function is proved to agree with it.

pub mod expression;
pub mod numeral;
pub mod parser;
pub mod scanner;
pub mod statement;
pub mod strutil;
pub mod token;
