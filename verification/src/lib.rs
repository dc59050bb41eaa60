//! The sekirei compiler front end and IR generator, with verified contracts.

pub mod text;
pub mod token;
pub mod lexer;
pub mod ast;
pub mod numtext;
pub mod parse_spec;
pub mod parser;
pub mod sema_spec;
pub mod sema;
pub mod sema_laws;
pub mod irgen_spec;
pub mod irgen;
pub mod irgen_laws;
pub mod codegen;
pub mod manifest;
pub mod cli;
