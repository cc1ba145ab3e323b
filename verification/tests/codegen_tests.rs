//! Tests of local resolution and function code generation.

use abcgen::ast::{Argument, Class, Expression, Function, Operator, Package, Statement, Visibility};
use abcgen::codegen::context::ConstantPoolContext;
use abcgen::codegen::function::{FunctionGenerator, LocalResolverVisitor};
use abcgen::codegen::{CodeGenerator, CodegenError, Op};
use abcgen::parser::common::Type;

fn lit(v: i32) -> Box<Expression> {
    Box::new(Expression::Integer(v))
}

fn binary(lhs: Box<Expression>, operator: Operator, rhs: Box<Expression>) -> Box<Expression> {
    Box::new(Expression::BinaryOperation { lhs, operator, rhs })
}

fn void_function(arguments: Vec<Argument>, block: Vec<Box<Statement>>) -> Function {
    Function {
        name: "test".to_string(),
        visibility: Visibility::Public,
        arguments,
        return_type: Type::Void,
        block,
    }
}

#[test]
fn resolver_assigns_dense_one_based_indices() {
    // Arguments [a, b] and body declaring [c, a]: a=1, b=2, c=3, and the
    // redeclaration of a allocates nothing.
    let f = void_function(
        vec![
            Argument { name: "a".to_string(), value_type: Type::Int },
            Argument { name: "b".to_string(), value_type: Type::Int },
        ],
        vec![
            Box::new(Statement::Variable {
                name: "c".to_string(),
                var_type: Type::Any,
                value: lit(1),
            }),
            Box::new(Statement::Variable {
                name: "a".to_string(),
                var_type: Type::Any,
                value: lit(2),
            }),
        ],
    );
    let mut resolver = LocalResolverVisitor::default();
    resolver.visit_function(&f).unwrap();
    // Index of a name is its position plus one.
    assert_eq!(
        resolver.variables,
        vec!["a".to_string(), "b".to_string(), "c".to_string()]
    );
    assert_eq!(resolver.current_index, 3);
}

#[test]
fn fetch_index_counts_from_one() {
    let mut resolver = LocalResolverVisitor::new();
    assert_eq!(resolver.fetch_index(), 1);
    assert_eq!(resolver.fetch_index(), 2);
}

#[test]
fn add_var_first_registration_wins() {
    let mut resolver = LocalResolverVisitor::new();
    resolver.add_var(&"x".to_string());
    resolver.add_var(&"x".to_string());
    assert_eq!(resolver.variables, vec!["x".to_string()]);
    assert_eq!(resolver.current_index, 1);
}

#[test]
fn expression_stack_depth() {
    // (1 + 2) * 3 peaks at depth 2 and nets exactly one value.
    let expr = binary(binary(lit(1), Operator::Add, lit(2)), Operator::Mul, lit(3));
    let mut pool = ConstantPoolContext::default();
    let mut generator = FunctionGenerator::new(LocalResolverVisitor::default());
    generator.visit_expression(&mut pool, &expr).unwrap();
    assert_eq!(generator.max_stack, 2);
    assert_eq!(generator.current_stack, 1);
    assert_eq!(
        generator.code,
        vec![
            Op::PushByte { value: 1 },
            Op::PushByte { value: 2 },
            Op::Add,
            Op::PushByte { value: 3 },
            Op::Multiply,
        ]
    );
}

#[test]
fn immediate_width_selection() {
    // 100 fits the single-byte form; 30000 needs the short form; 40000
    // exceeds the short operand and falls back to the constant pool; -5
    // still fits the byte form as an unsigned encoding.
    let mut pool = ConstantPoolContext::default();
    let mut generator = FunctionGenerator::new(LocalResolverVisitor::default());
    generator.visit_expression(&mut pool, &lit(100)).unwrap();
    generator.visit_expression(&mut pool, &lit(30000)).unwrap();
    generator.visit_expression(&mut pool, &lit(40000)).unwrap();
    generator.visit_expression(&mut pool, &lit(-5)).unwrap();
    assert_eq!(
        generator.code,
        vec![
            Op::PushByte { value: 100 },
            Op::PushShort { value: 30000 },
            Op::PushInt { value: 0 },
            Op::PushByte { value: 251 },
        ]
    );
    assert_eq!(pool.const_pool.ints, vec![40000]);
}

#[test]
fn string_literals_are_interned() {
    let mut pool = ConstantPoolContext::default();
    let mut generator = FunctionGenerator::new(LocalResolverVisitor::default());
    let expr = binary(
        Box::new(Expression::String("s".to_string())),
        Operator::Add,
        Box::new(Expression::String("s".to_string())),
    );
    generator.visit_expression(&mut pool, &expr).unwrap();
    assert_eq!(pool.const_pool.strings, vec!["s".to_string()]);
    assert_eq!(
        generator.code,
        vec![
            Op::PushString { value: 0 },
            Op::PushString { value: 0 },
            Op::Add,
        ]
    );
}

#[test]
fn booleans_lower_to_dedicated_pushes() {
    let mut pool = ConstantPoolContext::default();
    let mut generator = FunctionGenerator::new(LocalResolverVisitor::default());
    generator
        .visit_expression(&mut pool, &Expression::Bool(true))
        .unwrap();
    generator
        .visit_expression(&mut pool, &Expression::Bool(false))
        .unwrap();
    assert_eq!(generator.code, vec![Op::PushTrue, Op::PushFalse]);
}

#[test]
fn end_to_end_void_function() {
    // var x:* = 1 + 2 * 3; in a void function.
    let f = void_function(
        vec![],
        vec![Box::new(Statement::Variable {
            name: "x".to_string(),
            var_type: Type::Any,
            value: binary(lit(1), Operator::Add, binary(lit(2), Operator::Mul, lit(3))),
        })],
    );
    let mut generator = CodeGenerator::default();
    let body = generator.visit_function(&f).unwrap();
    assert_eq!(
        body.code,
        vec![
            Op::GetLocal { index: 0 },
            Op::PushScope,
            Op::PushByte { value: 1 },
            Op::PushByte { value: 2 },
            Op::PushByte { value: 3 },
            Op::Multiply,
            Op::Add,
            Op::CoerceA,
            Op::SetLocal { index: 1 },
            Op::ReturnVoid,
        ]
    );
    // The literals 1, 2 and 3 all sit on the simulated stack before the
    // multiply reduces, so the simulated peak is 3.
    assert_eq!(body.max_stack, 3);
    assert_eq!(body.num_locals, 2);
    assert_eq!(body.init_scope_depth, 0);
    assert_eq!(body.max_scope_depth, 0);
}

#[test]
fn empty_void_function_gets_prologue_and_epilogue() {
    let f = void_function(vec![], vec![]);
    let mut generator = CodeGenerator::default();
    let body = generator.visit_function(&f).unwrap();
    assert_eq!(
        body.code,
        vec![Op::GetLocal { index: 0 }, Op::PushScope, Op::ReturnVoid]
    );
    assert_eq!(body.max_stack, 0);
    assert_eq!(body.num_locals, 1);
}

#[test]
fn unresolved_identifier_is_reported() {
    let f = void_function(
        vec![],
        vec![Box::new(Statement::Variable {
            name: "x".to_string(),
            var_type: Type::Any,
            value: Box::new(Expression::Variable("missing".to_string())),
        })],
    );
    let mut generator = CodeGenerator::default();
    let r = generator.visit_function(&f);
    assert_eq!(
        r,
        Err(CodegenError::UnresolvedIdentifier("missing".to_string()))
    );
}

#[test]
fn argument_references_resolve() {
    // An argument is readable from the body through its register.
    let f = void_function(
        vec![Argument { name: "a".to_string(), value_type: Type::Int }],
        vec![Box::new(Statement::Variable {
            name: "x".to_string(),
            var_type: Type::Any,
            value: Box::new(Expression::Variable("a".to_string())),
        })],
    );
    let mut generator = CodeGenerator::default();
    let body = generator.visit_function(&f).unwrap();
    assert_eq!(
        body.code,
        vec![
            Op::GetLocal { index: 0 },
            Op::PushScope,
            Op::GetLocal { index: 1 },
            Op::CoerceA,
            Op::SetLocal { index: 2 },
            Op::ReturnVoid,
        ]
    );
    assert_eq!(body.num_locals, 3);
}

#[test]
fn non_any_coercion_is_unsupported() {
    let f = void_function(
        vec![],
        vec![Box::new(Statement::Variable {
            name: "x".to_string(),
            var_type: Type::Int,
            value: lit(1),
        })],
    );
    let mut generator = CodeGenerator::default();
    assert_eq!(
        generator.visit_function(&f),
        Err(CodegenError::UnsupportedCoercion(Type::Int))
    );
}

#[test]
fn non_void_return_is_unsupported() {
    let f = Function {
        name: "test".to_string(),
        visibility: Visibility::Public,
        arguments: vec![],
        return_type: Type::Int,
        block: vec![],
    };
    let mut generator = CodeGenerator::default();
    assert_eq!(
        generator.visit_function(&f),
        Err(CodegenError::UnsupportedReturnType(Type::Int))
    );
}

#[test]
fn class_and_package_generation_fail_loudly() {
    let mut generator = CodeGenerator::default();
    let class = Class {
        name: "c".to_string(),
        visibility: Visibility::Public,
        functions: vec![],
        members: vec![],
    };
    assert_eq!(
        generator.visit_class(&class),
        Err(CodegenError::UnsupportedConstruct)
    );
    let package = Package { name: None, classes: vec![] };
    assert_eq!(
        generator.visit_package(&package),
        Err(CodegenError::UnsupportedConstruct)
    );
}
