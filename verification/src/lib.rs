//! Back end of a small ActionScript-style compiler: it lowers a typed AST
//! into stack-machine bytecode for an ABC-format virtual machine.
//!
//! The pipeline: a local-variable resolver assigns register indices for one
//! function; the function code generator lowers expressions and statements
//! into a linear operation sequence while tracking simulated stack depth;
//! the intern context deduplicates the constant-pool entries shared by the
//! whole compilation unit; and the assembler resolves symbolic jump labels
//! to byte offsets in two passes and serializes the final instruction
//! stream.

pub mod ast;
pub mod codegen;
pub mod optimizer;
pub mod parser;
pub mod util;
