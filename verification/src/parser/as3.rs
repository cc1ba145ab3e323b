//! ActionScript 3 grammar: the parts of a class body an external parser
//! produces.

use vstd::prelude::*;
use crate::ast;

verus! {

/// One item of a class body: a member variable or a function.
#[derive(Debug)]
pub enum ClassPart {
    Member(ast::ClassMember),
    Function(ast::Function),
}

} // verus!
