//! An AST optimizer: it pre-evaluates expressions whose value is known at
//! compile time, to reduce runtime evaluation cost.

use vstd::prelude::*;
use crate::ast::{
    expr_model, expr_string_value, stmt_model, Class, Expression, ExprSpec, Function, Package,
    Statement, StmtSpec,
};
use crate::util::int_decimal;

verus! {

/// Truncating division, as the machine's signed division behaves: the
/// quotient is rounded toward zero.
pub open spec fn trunc_div(a: int, b: int) -> int {
    if a == 0 {
        0
    } else if a > 0 && b > 0 {
        a / b
    } else if a < 0 && b < 0 {
        (a * -1) / (b * -1)
    } else if a < 0 {
        ((a * -1) / b) * -1
    } else {
        (a / (b * -1)) * -1
    }
}

/// The folded value of an integer operation, when it can be folded: division
/// by zero and results outside the 32-bit range stay unfolded.
pub open spec fn fold_int(op: crate::ast::Operator, a: int, b: int) -> Option<int> {
    if op is Div && b == 0 {
        None
    } else {
        let v = match op {
            crate::ast::Operator::Add => a + b,
            crate::ast::Operator::Sub => a - b,
            crate::ast::Operator::Mul => a * b,
            crate::ast::Operator::Div => trunc_div(a, b),
        };
        if i32::MIN <= v <= i32::MAX {
            Some(v)
        } else {
            None
        }
    }
}

/// The string rendering of a folded operand, when it has one: the decimal
/// digits of an integer, a string itself.
pub open spec fn operand_string(e: ExprSpec) -> Option<Seq<char>> {
    match e {
        ExprSpec::Integer(v) => Some(int_decimal(v)),
        ExprSpec::String(s) => Some(s),
        _ => None,
    }
}

/// One folding step over already-folded operands: two integer literals
/// pre-evaluate, a string literal on the left concatenates a convertible
/// right operand, anything else is rebuilt unchanged.
pub open spec fn fold_binary(l: ExprSpec, op: crate::ast::Operator, r: ExprSpec) -> ExprSpec {
    if l matches ExprSpec::Integer(a) && r matches ExprSpec::Integer(b) {
        match fold_int(op, l->Integer_0, r->Integer_0) {
            Some(v) => ExprSpec::Integer(v),
            None => ExprSpec::Binary { lhs: Box::new(l), op, rhs: Box::new(r) },
        }
    } else if l matches ExprSpec::String(s) {
        match operand_string(r) {
            Some(t) => ExprSpec::String(l->String_0 + t),
            None => ExprSpec::Binary { lhs: Box::new(l), op, rhs: Box::new(r) },
        }
    } else {
        ExprSpec::Binary { lhs: Box::new(l), op, rhs: Box::new(r) }
    }
}

/// The fully folded form of an expression: operands are folded bottom-up,
/// then each binary operation folds when its operands allow it.
pub open spec fn spec_fold(e: ExprSpec) -> ExprSpec
    decreases e,
{
    match e {
        ExprSpec::Binary { lhs, op, rhs } => fold_binary(spec_fold(*lhs), op, spec_fold(*rhs)),
        _ => e,
    }
}

/// The folded form of a statement: its initializer is folded.
pub open spec fn spec_fold_stmt(s: StmtSpec) -> StmtSpec {
    match s {
        StmtSpec::Variable { name, var_type, value } => StmtSpec::Variable {
            name,
            var_type,
            value: spec_fold(value),
        },
    }
}

/// One function is the folded form of another: everything equal but the
/// body, whose statements are folded pointwise.
pub open spec fn function_folded(a: Function, b: Function) -> bool {
    &&& b.name@ == a.name@
    &&& b.visibility == a.visibility
    &&& b.arguments == a.arguments
    &&& b.return_type == a.return_type
    &&& b.block@.len() == a.block@.len()
    &&& forall|i: int|
        0 <= i < a.block@.len() ==> stmt_model(*#[trigger] b.block@[i]) == spec_fold_stmt(
            stmt_model(*a.block@[i]),
        )
}

/// One class is the folded form of another: everything equal but the
/// functions, folded pointwise.
pub open spec fn class_folded(a: Class, b: Class) -> bool {
    &&& b.name@ == a.name@
    &&& b.visibility == a.visibility
    &&& b.members == a.members
    &&& b.functions@.len() == a.functions@.len()
    &&& forall|i: int|
        0 <= i < a.functions@.len() ==> function_folded(
            a.functions@[i],
            #[trigger] b.functions@[i],
        )
}

/// An abstract-syntax-tree optimizer that pre-evaluates constant
/// expressions.
pub struct Optimizer {}

impl Optimizer {
    /// Folds an expression bottom-up: integer operations on two literals are
    /// pre-evaluated when the result fits 32 bits and no division by zero
    /// occurs, a string literal absorbs a convertible right operand by
    /// concatenation, and everything else is rebuilt unchanged.
    pub fn fold_expression(&mut self, v: Box<Expression>) -> (r: Box<Expression>)
        ensures
            expr_model(*r) == spec_fold(expr_model(*v)),
        decreases *v,
    {
        match *v {
            Expression::BinaryOperation { lhs, operator, rhs } => {
                let l = self.fold_expression(lhs);
                let r = self.fold_expression(rhs);
                match (*l, *r) {
                    (Expression::Integer(value1), Expression::Integer(value2)) => {
                        let folded = match operator {
                            crate::ast::Operator::Add => value1.checked_add(value2),
                            crate::ast::Operator::Sub => value1.checked_sub(value2),
                            crate::ast::Operator::Mul => value1.checked_mul(value2),
                            crate::ast::Operator::Div => value1.checked_div(value2),
                        };
                        match folded {
                            Some(value) => Box::new(Expression::Integer(value)),
                            None => Box::new(
                                Expression::BinaryOperation {
                                    lhs: Box::new(Expression::Integer(value1)),
                                    operator,
                                    rhs: Box::new(Expression::Integer(value2)),
                                },
                            ),
                        }
                    },
                    (Expression::String(lhs_val), rhs_val) => {
                        match rhs_val.string_value() {
                            Ok(t) => Box::new(
                                Expression::String(lhs_val.concat(t.as_str())),
                            ),
                            Err(_) => Box::new(
                                Expression::BinaryOperation {
                                    lhs: Box::new(Expression::String(lhs_val)),
                                    operator,
                                    rhs: Box::new(rhs_val),
                                },
                            ),
                        }
                    },
                    (lhs_val, rhs_val) => Box::new(
                        Expression::BinaryOperation {
                            lhs: Box::new(lhs_val),
                            operator,
                            rhs: Box::new(rhs_val),
                        },
                    ),
                }
            },
            other => Box::new(other),
        }
    }

    /// Folds a statement: its initializer expression is folded.
    pub fn fold_statement(&mut self, v: Box<Statement>) -> (r: Box<Statement>)
        ensures
            stmt_model(*r) == spec_fold_stmt(stmt_model(*v)),
    {
        match *v {
            Statement::Variable { name, var_type, value } => Box::new(
                Statement::Variable { name, var_type, value: self.fold_expression(value) },
            ),
        }
    }

    /// Folds a function: each statement of its body is folded, everything
    /// else is kept.
    pub fn fold_function(&mut self, v: Function) -> (r: Function)
        ensures
            function_folded(v, r),
    {
        let Function { name, visibility, arguments, return_type, mut block } = v;
        let ghost orig = block@;
        let mut folded: Vec<Box<Statement>> = Vec::new();
        let n = block.len();
        let mut i: usize = 0;
        while i < n
            invariant
                i <= n,
                n == orig.len(),
                block@ == orig.skip(i as int),
                folded@.len() == i,
                forall|j: int|
                    0 <= j < i ==> stmt_model(*#[trigger] folded@[j]) == spec_fold_stmt(
                        stmt_model(*orig[j]),
                    ),
            decreases n - i,
        {
            proof {
                assert(block@[0] == orig.skip(i as int)[0]);
                assert(block@.remove(0) =~= orig.skip(i as int + 1));
            }
            let s = block.remove(0);
            let f = self.fold_statement(s);
            folded.push(f);
            i += 1;
        }
        Function { name, visibility, arguments, return_type, block: folded }
    }

    /// Folds a class: each of its functions is folded, everything else is
    /// kept.
    pub fn fold_class(&mut self, v: Class) -> (r: Class)
        ensures
            class_folded(v, r),
    {
        let Class { name, visibility, mut functions, members } = v;
        let ghost orig = functions@;
        let mut folded: Vec<Function> = Vec::new();
        let n = functions.len();
        let mut i: usize = 0;
        while i < n
            invariant
                i <= n,
                n == orig.len(),
                functions@ == orig.skip(i as int),
                folded@.len() == i,
                forall|j: int|
                    0 <= j < i ==> function_folded(orig[j], #[trigger] folded@[j]),
            decreases n - i,
        {
            proof {
                assert(functions@[0] == orig.skip(i as int)[0]);
                assert(functions@.remove(0) =~= orig.skip(i as int + 1));
            }
            let f = functions.remove(0);
            let g = self.fold_function(f);
            folded.push(g);
            i += 1;
        }
        Class { name, visibility, functions: folded, members }
    }

    /// Folds a package: each of its classes is folded, everything else is
    /// kept.
    pub fn fold_package(&mut self, v: Package) -> (r: Package)
        ensures
            r.name == v.name,
            r.classes@.len() == v.classes@.len(),
            forall|i: int|
                0 <= i < v.classes@.len() ==> class_folded(
                    v.classes@[i],
                    #[trigger] r.classes@[i],
                ),
    {
        let Package { name, mut classes } = v;
        let ghost orig = classes@;
        let mut folded: Vec<Class> = Vec::new();
        let n = classes.len();
        let mut i: usize = 0;
        while i < n
            invariant
                i <= n,
                n == orig.len(),
                classes@ == orig.skip(i as int),
                folded@.len() == i,
                forall|j: int| 0 <= j < i ==> class_folded(orig[j], #[trigger] folded@[j]),
            decreases n - i,
        {
            proof {
                assert(classes@[0] == orig.skip(i as int)[0]);
                assert(classes@.remove(0) =~= orig.skip(i as int + 1));
            }
            let c = classes.remove(0);
            let d = self.fold_class(c);
            folded.push(d);
            i += 1;
        }
        Package { name, classes: folded }
    }
}

impl Default for Optimizer {
    /// The default optimizer.
    fn default() -> (r: Optimizer) {
        Optimizer {  }
    }
}

} // verus!
