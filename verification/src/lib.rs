//! A source-to-source transpiler core: token model, ordered-alternative
//! tokenizer, scope-aware parser, syntax tree and code generator.
//!
//! Text goes in at `parser::parse_source`, which builds the tree, and
//! comes out of `transpiler::transpile`, which generates the target text.

pub mod keyword;
pub mod lexeme;
pub mod token;
pub mod ast;
pub mod error;
pub mod block_keyword;
pub mod text;
pub mod pattern;
pub mod tokenizer;
pub mod macro_body;
pub mod parser;
pub mod shape;
pub mod order;
pub mod transpiler;
