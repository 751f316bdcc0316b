//! A small DSL for writing OpenAPI documents by hand.
//!
//! Source text is tokenized ([`lexer`]), parsed into a syntax tree and
//! elaborated into an abstract syntax tree ([`parser`], [`ast`]), and finally
//! turned into OpenAPI documents ([`generator`], [`openapi`]).
pub mod ast;
pub mod maps;
pub mod util;
pub mod lexer;
pub mod text;
pub mod syntax;
pub mod media;
pub mod parser;
pub mod openapi;
pub mod generator;
pub mod output;
pub mod cli;
pub mod laws;
pub mod places;
pub mod names;
