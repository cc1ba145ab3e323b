//! Front-end data shared with the code generator. The concrete text parsers
//! are external collaborators; this module holds the types they produce and
//! the small assembly-operation grammar.

pub mod as3;
pub mod assembly;
pub mod common;
