//! Tests of the assembly-operation grammar.

use abcgen::codegen::Op;
use abcgen::parser::assembly::grammar::{OpParser, ParseError, Token};
use abcgen::parser::assembly::AssemblyOp;

#[test]
fn parses_a_label_declaration() {
    let parser = OpParser::new();
    let r = parser.parse(vec![Token::Identifier("top".to_string()), Token::Colon]);
    assert_eq!(r, Ok(AssemblyOp::Label("top".to_string())));
}

#[test]
fn parses_bare_returns() {
    let parser = OpParser::new();
    assert_eq!(
        parser.parse(vec![Token::OpReturnValue]),
        Ok(AssemblyOp::Raw(Op::ReturnValue))
    );
    assert_eq!(
        parser.parse(vec![Token::OpReturnVoid]),
        Ok(AssemblyOp::Raw(Op::ReturnVoid))
    );
}

#[test]
fn parses_conditional_jumps() {
    let parser = OpParser::new();
    assert_eq!(
        parser.parse(vec![Token::OpIfTrue, Token::Identifier("a".to_string())]),
        Ok(AssemblyOp::IfTrue("a".to_string()))
    );
    assert_eq!(
        parser.parse(vec![Token::OpIfFalse, Token::Identifier("b".to_string())]),
        Ok(AssemblyOp::IfFalse("b".to_string()))
    );
    assert_eq!(
        parser.parse(vec![Token::OpIfEq, Token::Identifier("c".to_string())]),
        Ok(AssemblyOp::IfEq("c".to_string()))
    );
}

#[test]
fn empty_input_is_rejected() {
    let parser = OpParser::new();
    assert_eq!(parser.parse(vec![]), Err(ParseError::UnrecognizedEof));
}

#[test]
fn truncated_forms_are_rejected() {
    let parser = OpParser::new();
    assert_eq!(
        parser.parse(vec![Token::Identifier("x".to_string())]),
        Err(ParseError::UnrecognizedEof)
    );
    assert_eq!(
        parser.parse(vec![Token::OpIfTrue]),
        Err(ParseError::UnrecognizedEof)
    );
}

#[test]
fn wrong_tokens_are_rejected_at_their_position() {
    let parser = OpParser::new();
    assert_eq!(
        parser.parse(vec![Token::Colon]),
        Err(ParseError::UnrecognizedToken(0))
    );
    assert_eq!(
        parser.parse(vec![Token::Identifier("x".to_string()), Token::Comma]),
        Err(ParseError::UnrecognizedToken(1))
    );
    assert_eq!(
        parser.parse(vec![Token::OpIfEq, Token::Colon]),
        Err(ParseError::UnrecognizedToken(1))
    );
}

#[test]
fn trailing_input_is_rejected() {
    let parser = OpParser::new();
    assert_eq!(
        parser.parse(vec![Token::OpReturnVoid, Token::Newline]),
        Err(ParseError::ExtraToken(1))
    );
    assert_eq!(
        parser.parse(vec![
            Token::Identifier("x".to_string()),
            Token::Colon,
            Token::OpReturnVoid,
        ]),
        Err(ParseError::ExtraToken(2))
    );
    assert_eq!(
        parser.parse(vec![
            Token::OpIfTrue,
            Token::Identifier("x".to_string()),
            Token::Colon,
        ]),
        Err(ParseError::ExtraToken(2))
    );
}
