pub mod ast;
pub mod cli;
pub mod codegen;
pub mod driver;
pub mod hir;
pub mod lexer;
pub mod modules;
pub mod report;
pub mod semantics;
