//! Command line tokenizer.
//!
//! A [`parser::Parser`] is given the process arguments and a table of declared
//! flags. It turns the arguments into a list of [`token::Token`]s in two
//! passes: the tokenizer classifies every argument on its own, the normalizer
//! then hands a value-taking flag the literal argument that follows it.
//! Nothing is ever rejected: what was not declared comes out as a token too,
//! and the caller decides what a usage error is.

pub mod flag;
pub mod laws;
pub mod normalizer;
pub mod parser;
pub mod token;
pub mod tokenizer;

pub use crate::cli::flag::Flag;
pub use crate::cli::flag::FlagTable;
pub use crate::cli::flag::FlagView;
pub use crate::cli::parser::Parser;
pub use crate::cli::token::Token;
pub use crate::cli::token::TokenView;
