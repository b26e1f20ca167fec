//! Execution core of a small dynamic-language runtime: a tree representation
//! of programs, a lexer and recursive-descent parser producing that tree, a
//! bytecode compiler, an arena-based runtime object model, and a stack-based
//! virtual machine, together with an import cache.

pub mod ast;
pub mod bytecode;
pub mod compile;
pub mod frame;
pub mod import;
pub mod lexer;
pub mod objint;
pub mod parser;
pub mod pyobject;
pub mod vm;
