//! Lexer and recursive-descent parser for a small C-like language.
//!
//! Both passes are total: they always return a best-effort result together
//! with the complete list of diagnostics, and every function here is proved
//! free of panics, out-of-bounds accesses and arithmetic overflow.
//!
//! - [`span`], [`token`], [`ast`]: ranges, tokens and the syntax tree;
//!   [`model`]: the mathematical values of trees.
//! - [`scan`], [`lexer`]: the lexer and what it computes; [`coverage`]: the
//!   tokens cover the source.
//! - [`grammar`]: what the parser computes; [`parser`]: the parser;
//!   [`front`]: both passes together.
//! - [`progress`], [`wellformed`], [`exactness`]: what holds of everything
//!   that the parser reads. [`syntax`], [`validity`]: the syntax without
//!   recovery, and that the parser reports no error exactly on it.
//! - [`report`]: errors as diagnostics and as JSON records.

pub mod ast;
pub mod coverage;
pub mod exactness;
pub mod front;
pub mod grammar;
pub mod lexer;
pub mod model;
pub mod parser;
pub mod progress;
pub mod report;
pub mod scan;
pub mod span;
pub mod syntax;
pub mod token;
pub mod validity;
pub mod wellformed;
