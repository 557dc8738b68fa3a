//! A minimal expression-language toolchain: a lexer that turns text into
//! spanned tokens, an arena-backed abstract syntax tree addressed by typed
//! index handles, a precedence-climbing parser, and a tree-walking evaluator
//! that folds an expression tree into a 64-bit integer.

pub mod arena;
pub mod ast;
pub mod evaluator;
pub mod global_scope;
pub mod lexer;
pub mod parser;
pub mod printer;
pub mod text;
pub mod visitor;
