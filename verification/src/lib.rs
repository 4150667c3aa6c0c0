//! Command-line parsing and evaluation rules of a small shell, with every
//! rule stated as a contract and proved.

pub mod ast;
pub mod editing;
pub mod error;
pub mod eval;
pub mod parser;
pub mod scanner;
pub mod system;
pub mod text;
pub mod trie;
