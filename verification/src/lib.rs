//! A compiler and stack-based virtual machine for a small typed functional
//! language.

pub mod ast;
pub mod binding;
pub mod compiler;
pub mod eval;
pub mod name_analysis;
pub mod offset;
pub mod parser;
pub mod runtime;
pub mod scanner;
pub mod symbol_table;
pub mod table;
pub mod type_checking;
pub mod types;
pub mod util;
