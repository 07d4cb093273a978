//! A kernel of parser combinators and the first pieces of a SQL tokenizer.
//!
//! A [`parser::Parser`] maps an input string to a parsed value and the input
//! that is left, or to nothing. Parsers are built from [`satisfy::satisfy`]
//! and combined with `map`, `pure` and `ap`; [`basic`] holds the primitive
//! parsers, [`identifier`] the identifier scanner and [`sql_token`] the token
//! model with the keyword table.

pub mod basic;
pub mod basic_parser;
pub mod identifier;
pub mod lexer;
pub mod parser;
pub mod satisfy;
pub mod sql_token;
pub mod std_specs;
pub mod text;
