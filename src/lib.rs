//! A small bytecode pipeline for arithmetic and boolean expressions:
//! a scanner turns source text into tokens, a single-pass precedence-climbing
//! compiler turns tokens into a chunk of bytecode, and a stack machine runs the
//! chunk to a single value.

pub mod errors;
pub mod value;
pub mod chunk;
pub mod vm;
pub mod text;
pub mod token;
pub mod scanner;
pub mod compiler;
pub mod pipeline;
