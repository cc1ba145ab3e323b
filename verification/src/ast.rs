//! The abstract syntax tree consumed by code generation, and its
//! mathematical models.

use vstd::prelude::*;
use crate::parser::common::Type;
use crate::util::{int_decimal, int_to_decimal, str_eq};

verus! {

/// Errors raised while working on the AST itself.
#[derive(Debug, PartialEq, Eq)]
pub enum Error {
    /// A visibility keyword that is none of `public`, `protected`, `private`.
    UnknownVisibility(String),
    /// Only integer and string literals have a string rendering.
    CannotConvertToString,
}

/// A package: the outermost AST node.
#[derive(Debug)]
pub struct Package {
    pub name: Option<String>,
    pub classes: Vec<Class>,
}

/// Member visibility.
#[derive(Clone, Debug, PartialEq)]
pub enum Visibility {
    Public,
    Protected,
    Private,
}

/// A class declaration.
#[derive(Debug)]
pub struct Class {
    pub name: String,
    pub visibility: Visibility,
    pub functions: Vec<Function>,
    pub members: Vec<ClassMember>,
}

/// A class member variable.
#[derive(Debug)]
pub struct ClassMember {
    pub name: String,
    pub visibility: Option<Visibility>,
    pub ty: Type,
    pub init_expr: Option<Box<Expression>>,
}

/// A function declaration: arguments, return type and body.
#[derive(Debug)]
pub struct Function {
    pub name: String,
    pub visibility: Visibility,
    pub arguments: Vec<Argument>,
    pub return_type: Type,
    pub block: Vec<Box<Statement>>,
}

/// A typed function argument.
#[derive(Debug)]
pub struct Argument {
    pub name: String,
    pub value_type: Type,
}

/// A statement; the only modeled form is a typed variable declaration with
/// an initializer.
#[derive(Debug, PartialEq)]
pub enum Statement {
    Variable { name: String, var_type: Type, value: Box<Expression> },
}

/// An expression.
#[derive(Debug, PartialEq)]
pub enum Expression {
    /// An integer literal.
    Integer(i32),
    /// A string literal.
    String(String),
    /// A boolean literal.
    Bool(bool),
    /// A reference to a local variable or argument.
    Variable(String),
    /// A binary operation over two sub-expressions.
    BinaryOperation { lhs: Box<Expression>, operator: Operator, rhs: Box<Expression> },
}

/// A binary operator.
#[derive(Debug, PartialEq)]
pub enum Operator {
    Add,
    Sub,
    Mul,
    Div,
}

/// Mathematical model of an [`Expression`]: strings as character sequences,
/// integers as mathematical integers.
pub ghost enum ExprSpec {
    Integer(int),
    String(Seq<char>),
    Bool(bool),
    Variable(Seq<char>),
    Binary { lhs: Box<ExprSpec>, op: Operator, rhs: Box<ExprSpec> },
}

/// The model of an expression.
pub open spec fn expr_model(e: Expression) -> ExprSpec
    decreases e,
{
    match e {
        Expression::Integer(v) => ExprSpec::Integer(v as int),
        Expression::String(s) => ExprSpec::String(s@),
        Expression::Bool(b) => ExprSpec::Bool(b),
        Expression::Variable(n) => ExprSpec::Variable(n@),
        Expression::BinaryOperation { lhs, operator, rhs } => ExprSpec::Binary {
            lhs: Box::new(expr_model(*lhs)),
            op: operator,
            rhs: Box::new(expr_model(*rhs)),
        },
    }
}

/// Mathematical model of a [`Statement`].
pub ghost enum StmtSpec {
    Variable { name: Seq<char>, var_type: crate::parser::common::TypeSpec, value: ExprSpec },
}

/// The model of a statement.
pub open spec fn stmt_model(s: Statement) -> StmtSpec {
    match s {
        Statement::Variable { name, var_type, value } => StmtSpec::Variable {
            name: name@,
            var_type: var_type@,
            value: expr_model(*value),
        },
    }
}

/// The visibility denoted by a source keyword, or `None` for any other word.
pub open spec fn visibility_of_name(s: Seq<char>) -> Option<Visibility> {
    if s == "public"@ {
        Some(Visibility::Public)
    } else if s == "protected"@ {
        Some(Visibility::Protected)
    } else if s == "private"@ {
        Some(Visibility::Private)
    } else {
        None
    }
}

impl Visibility {
    /// Parses a visibility keyword; any other word is rejected.
    pub fn from_str(s: &str) -> (r: Result<Visibility, Error>)
        ensures
            match visibility_of_name(s@) {
                Some(v) => r matches Ok(rv) && rv == v,
                None => r matches Err(Error::UnknownVisibility(t)) && t@ == s@,
            },
    {
        if str_eq(s, "public") {
            Ok(Visibility::Public)
        } else if str_eq(s, "protected") {
            Ok(Visibility::Protected)
        } else if str_eq(s, "private") {
            Ok(Visibility::Private)
        } else {
            Err(Error::UnknownVisibility(s.to_owned()))
        }
    }
}

/// The string rendering of an expression: decimal digits for an integer
/// literal, the literal itself for a string, nothing for any other form.
pub open spec fn expr_string_value(e: Expression) -> Option<Seq<char>> {
    match e {
        Expression::Integer(v) => Some(int_decimal(v as int)),
        Expression::String(s) => Some(s@),
        _ => None,
    }
}

impl Expression {
    /// Renders an integer or string literal as a string value.
    pub fn string_value(&self) -> (r: Result<String, Error>)
        ensures
            match expr_string_value(*self) {
                Some(s) => r matches Ok(v) && v@ == s,
                None => r matches Err(Error::CannotConvertToString),
            },
    {
        match self {
            Expression::Integer(v) => Ok(int_to_decimal(*v)),
            Expression::String(v) => Ok(v.clone()),
            _ => Err(Error::CannotConvertToString),
        }
    }
}

} // verus!
