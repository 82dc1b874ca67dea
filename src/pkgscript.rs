//! The install script: a whitespace-delimited language of `PACKAGE` and
//! `PUBLISH` instructions.

pub mod ast;
pub mod parser;

pub use ast::{Instruction, InstructionView, Script, ScriptError, ScriptErrorView};
pub use parser::Parser;
