//! Type names shared between the language front end and code generation.

use vstd::prelude::*;
use crate::util::str_eq;

verus! {

/// A declared type in source text.
#[derive(Debug, PartialEq, Eq)]
pub enum Type {
    Any,
    Void,
    Int,
    Uint,
    Bool,
    Other(String),
}

/// Mathematical model of a [`Type`]: the `Other` name as a character
/// sequence.
pub ghost enum TypeSpec {
    Any,
    Void,
    Int,
    Uint,
    Bool,
    Other(Seq<char>),
}

impl View for Type {
    type V = TypeSpec;

    open spec fn view(&self) -> TypeSpec {
        match self {
            Type::Any => TypeSpec::Any,
            Type::Void => TypeSpec::Void,
            Type::Int => TypeSpec::Int,
            Type::Uint => TypeSpec::Uint,
            Type::Bool => TypeSpec::Bool,
            Type::Other(name) => TypeSpec::Other(name@),
        }
    }
}

/// The type denoted by a source type name.
pub open spec fn type_of_name(s: Seq<char>) -> TypeSpec {
    if s == "*"@ {
        TypeSpec::Any
    } else if s == "void"@ {
        TypeSpec::Void
    } else if s == "int"@ {
        TypeSpec::Int
    } else if s == "uint"@ {
        TypeSpec::Uint
    } else if s == "Boolean"@ {
        TypeSpec::Bool
    } else {
        TypeSpec::Other(s)
    }
}

impl Clone for Type {
    /// A clone denotes the same type.
    fn clone(&self) -> (r: Type)
        ensures
            r@ == self@,
    {
        match self {
            Type::Any => Type::Any,
            Type::Void => Type::Void,
            Type::Int => Type::Int,
            Type::Uint => Type::Uint,
            Type::Bool => Type::Bool,
            Type::Other(name) => Type::Other(name.clone()),
        }
    }
}

impl Type {
    /// Parses a source type name; unknown names denote the `Other` type.
    pub fn from_str(s: &str) -> (t: Type)
        ensures
            t@ == type_of_name(s@),
    {
        if str_eq(s, "*") {
            Type::Any
        } else if str_eq(s, "void") {
            Type::Void
        } else if str_eq(s, "int") {
            Type::Int
        } else if str_eq(s, "uint") {
            Type::Uint
        } else if str_eq(s, "Boolean") {
            Type::Bool
        } else {
            Type::Other(s.to_owned())
        }
    }
}

} // verus!
