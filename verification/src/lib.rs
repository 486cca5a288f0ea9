//! A verified front end for RustScript: lexer, parser, type checker and
//! bytecode compiler.
pub mod text;
pub mod token;
pub mod lexer;
pub mod structs;
pub mod grammar;
pub mod wellformed;
pub mod parser;
pub mod bytecode;
pub mod codegen;
pub mod compiler;
pub mod framing;
pub mod typing;
pub mod type_checker;
