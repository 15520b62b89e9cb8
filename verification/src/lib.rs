//! Kyte: the front end of a small anchor-based language, with its contracts.

pub mod ast;
pub mod text;
pub mod imports;
pub mod shared;
pub mod numfmt;
pub mod lexer;
pub mod mono;
pub mod liveness;
pub mod diagnostics;
pub mod analyzer;
pub mod lsp;
pub mod keywords;
pub mod cache;
pub mod parser;
pub mod symbols;
pub mod definition;
pub mod hover;
pub mod references;
pub mod completion;
pub mod code_actions;
pub mod signature;
pub mod publish;
