//! Front-end core of a small statically-typed language: a lexer, a minimal
//! function-declaration parser, a catalog of primitive value kinds, and an
//! eight-slot bit packer for boolean-like storage inside one byte.

pub mod bitset;
pub mod function;
pub mod lexer;
pub mod parser;
pub mod syntax;
pub mod text;
pub mod types;
