//! Front end of the Rock programming language: a tokenizer, a recursive-descent
//! parser producing an abstract syntax tree, and the data model the LLVM back end
//! works with.

pub mod text;
pub mod chars;
pub mod compiler;
pub mod expression;
pub mod grammar;
pub mod llvm;
pub mod parser;
pub mod token;
pub mod tokenizer;
pub mod visitor;
