//! ActionScript assembly: operations as written in assembly text, one step
//! above raw operations.

use vstd::prelude::*;
use crate::codegen::Op;
use crate::parser::common::Type;

pub mod grammar;

verus! {

/// An identifier source, which can be anything (e.g. a function id).
#[derive(Debug, PartialEq)]
pub enum IdSource {
    Function(String),
    Other(String),
}

/// An ActionScript assembly operation: assembly has conveniences (named
/// labels, late-interned strings) above raw operations.
#[derive(Debug, PartialEq)]
pub enum AssemblyOp {
    Raw(Op),
    Label(String),
    IfTrue(String),
    IfFalse(String),
    IfEq(String),
    PushString(String),
    PushNamespace(String),
    FindProperty(String),
    FindPropStrict(String),
    CallProperty(String, u32),
    CallPropVoid(String, u32),
    Call(u32),
    NewFunction(IdSource),
}

/// A function written in assembly.
#[derive(Debug)]
pub struct Function {
    pub name: String,
    pub args: Vec<Type>,
    pub ops: Vec<AssemblyOp>,
}

} // verus!
