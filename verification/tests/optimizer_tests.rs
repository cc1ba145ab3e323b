//! Tests of the constant-folding optimizer and the AST helpers.

use abcgen::ast::{Error, Expression, Function, Operator, Statement, Visibility};
use abcgen::optimizer::Optimizer;
use abcgen::parser::common::Type;

fn lit(v: i32) -> Box<Expression> {
    Box::new(Expression::Integer(v))
}

fn binary(lhs: Box<Expression>, operator: Operator, rhs: Box<Expression>) -> Box<Expression> {
    Box::new(Expression::BinaryOperation { lhs, operator, rhs })
}

#[test]
fn folds_nested_integer_arithmetic() {
    let mut optimizer = Optimizer::default();
    let expr = binary(lit(1), Operator::Add, binary(lit(2), Operator::Mul, lit(3)));
    assert_eq!(*optimizer.fold_expression(expr), Expression::Integer(7));
}

#[test]
fn division_truncates_toward_zero() {
    let mut optimizer = Optimizer::default();
    assert_eq!(
        *optimizer.fold_expression(binary(lit(7), Operator::Div, lit(2))),
        Expression::Integer(3)
    );
    assert_eq!(
        *optimizer.fold_expression(binary(lit(-7), Operator::Div, lit(2))),
        Expression::Integer(-3)
    );
}

#[test]
fn division_by_zero_stays_unfolded() {
    let mut optimizer = Optimizer::default();
    let folded = optimizer.fold_expression(binary(lit(1), Operator::Div, lit(0)));
    assert_eq!(
        *folded,
        Expression::BinaryOperation {
            lhs: lit(1),
            operator: Operator::Div,
            rhs: lit(0),
        }
    );
}

#[test]
fn overflow_stays_unfolded() {
    let mut optimizer = Optimizer::default();
    let folded = optimizer.fold_expression(binary(lit(i32::MAX), Operator::Add, lit(1)));
    assert_eq!(
        *folded,
        Expression::BinaryOperation {
            lhs: lit(i32::MAX),
            operator: Operator::Add,
            rhs: lit(1),
        }
    );
    let folded = optimizer.fold_expression(binary(lit(i32::MIN), Operator::Div, lit(-1)));
    assert_eq!(
        *folded,
        Expression::BinaryOperation {
            lhs: lit(i32::MIN),
            operator: Operator::Div,
            rhs: lit(-1),
        }
    );
}

#[test]
fn concatenates_string_literals() {
    let mut optimizer = Optimizer::default();
    let expr = binary(
        Box::new(Expression::String("ab".to_string())),
        Operator::Add,
        Box::new(Expression::String("cd".to_string())),
    );
    assert_eq!(
        *optimizer.fold_expression(expr),
        Expression::String("abcd".to_string())
    );
}

#[test]
fn concatenates_string_and_integer() {
    let mut optimizer = Optimizer::default();
    let expr = binary(
        Box::new(Expression::String("a".to_string())),
        Operator::Add,
        lit(-12),
    );
    assert_eq!(
        *optimizer.fold_expression(expr),
        Expression::String("a-12".to_string())
    );
}

#[test]
fn string_and_bool_stay_unfolded() {
    let mut optimizer = Optimizer::default();
    let expr = binary(
        Box::new(Expression::String("a".to_string())),
        Operator::Add,
        Box::new(Expression::Bool(true)),
    );
    assert_eq!(
        *optimizer.fold_expression(expr),
        Expression::BinaryOperation {
            lhs: Box::new(Expression::String("a".to_string())),
            operator: Operator::Add,
            rhs: Box::new(Expression::Bool(true)),
        }
    );
}

#[test]
fn variables_are_untouched() {
    let mut optimizer = Optimizer::default();
    let expr = Box::new(Expression::Variable("x".to_string()));
    assert_eq!(
        *optimizer.fold_expression(expr),
        Expression::Variable("x".to_string())
    );
}

#[test]
fn fold_statement_folds_the_initializer() {
    let mut optimizer = Optimizer::default();
    let stmt = Box::new(Statement::Variable {
        name: "x".to_string(),
        var_type: Type::Any,
        value: binary(lit(2), Operator::Sub, lit(5)),
    });
    assert_eq!(
        *optimizer.fold_statement(stmt),
        Statement::Variable {
            name: "x".to_string(),
            var_type: Type::Any,
            value: lit(-3),
        }
    );
}

#[test]
fn fold_function_keeps_the_signature() {
    let mut optimizer = Optimizer::default();
    let f = Function {
        name: "f".to_string(),
        visibility: Visibility::Private,
        arguments: vec![],
        return_type: Type::Void,
        block: vec![Box::new(Statement::Variable {
            name: "x".to_string(),
            var_type: Type::Any,
            value: binary(lit(1), Operator::Add, lit(1)),
        })],
    };
    let folded = optimizer.fold_function(f);
    assert_eq!(folded.name, "f".to_string());
    assert_eq!(folded.return_type, Type::Void);
    assert_eq!(
        *folded.block[0],
        Statement::Variable {
            name: "x".to_string(),
            var_type: Type::Any,
            value: lit(2),
        }
    );
}

#[test]
fn string_value_renders_literals() {
    assert_eq!(
        Expression::Integer(-42).string_value(),
        Ok("-42".to_string())
    );
    assert_eq!(
        Expression::Integer(0).string_value(),
        Ok("0".to_string())
    );
    assert_eq!(
        Expression::String("s".to_string()).string_value(),
        Ok("s".to_string())
    );
    assert_eq!(
        Expression::Bool(true).string_value(),
        Err(Error::CannotConvertToString)
    );
}

#[test]
fn visibility_parses_known_keywords() {
    assert!(matches!(
        Visibility::from_str("public"),
        Ok(Visibility::Public)
    ));
    assert!(matches!(
        Visibility::from_str("protected"),
        Ok(Visibility::Protected)
    ));
    assert!(matches!(
        Visibility::from_str("private"),
        Ok(Visibility::Private)
    ));
    assert_eq!(
        Visibility::from_str("internal"),
        Err(Error::UnknownVisibility("internal".to_string()))
    );
}

#[test]
fn type_names_parse() {
    assert_eq!(Type::from_str("*"), Type::Any);
    assert_eq!(Type::from_str("void"), Type::Void);
    assert_eq!(Type::from_str("int"), Type::Int);
    assert_eq!(Type::from_str("uint"), Type::Uint);
    assert_eq!(Type::from_str("Boolean"), Type::Bool);
    assert_eq!(
        Type::from_str("Sprite"),
        Type::Other("Sprite".to_string())
    );
}
