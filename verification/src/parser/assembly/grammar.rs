//! The grammar of single assembly operations: a hand-written parser over the
//! token stream an external lexer produces.

use vstd::prelude::*;
use crate::codegen::Op;
use crate::parser::assembly::AssemblyOp;

verus! {

/// A token of assembly text.
#[derive(Clone, Debug, PartialEq)]
pub enum Token {
    KeywordFunction,
    OpReturnValue,
    OpReturnVoid,
    OpIfTrue,
    OpIfFalse,
    OpIfEq,
    OpGetLocal(u32),
    OpSetLocal(u32),
    OpPushString,
    OpPushFalse,
    OpPushNull,
    OpPushNamespace,
    OpPushScope,
    OpPop,
    OpCoerceA,
    OpCoerceS,
    OpFindProperty,
    OpCallPropVoid,
    OpNewFunction,
    IdFunction,
    Identifier(String),
    Integer(i32),
    String(String),
    LParen,
    RParen,
    LCurlyBracket,
    RCurlyBracket,
    Comma,
    Colon,
    Newline,
}

/// A parse failure, with the index of the offending position.
#[derive(Debug, Clone, Copy, PartialEq, Eq, Structural)]
pub enum ParseError {
    /// The input ended where the grammar required more.
    UnrecognizedEof,
    /// The token at this index fits no production.
    UnrecognizedToken(usize),
    /// The operation was complete but input remained, starting here.
    ExtraToken(usize),
}

/// The parse of one operation, at the specification level. The grammar is:
/// a label declaration `name ":"`, the bare operations `returnvalue` and
/// `returnvoid`, and the jumps `iftrue name`, `iffalse name`, `ifeq name` —
/// each consuming the whole input.
pub ghost enum OpParseSpec {
    Label(Seq<char>),
    ReturnValue,
    ReturnVoid,
    IfTrue(Seq<char>),
    IfFalse(Seq<char>),
    IfEq(Seq<char>),
    UnexpectedEnd,
    UnexpectedToken(int),
    ExtraToken(int),
}

/// What parsing a token sequence as one operation yields.
pub open spec fn parse_op_spec(ts: Seq<Token>) -> OpParseSpec {
    if ts.len() == 0 {
        OpParseSpec::UnexpectedEnd
    } else {
        match ts[0] {
            Token::Identifier(s) => if ts.len() == 1 {
                OpParseSpec::UnexpectedEnd
            } else if !(ts[1] is Colon) {
                OpParseSpec::UnexpectedToken(1)
            } else if ts.len() > 2 {
                OpParseSpec::ExtraToken(2)
            } else {
                OpParseSpec::Label(s@)
            },
            Token::OpReturnValue => if ts.len() > 1 {
                OpParseSpec::ExtraToken(1)
            } else {
                OpParseSpec::ReturnValue
            },
            Token::OpReturnVoid => if ts.len() > 1 {
                OpParseSpec::ExtraToken(1)
            } else {
                OpParseSpec::ReturnVoid
            },
            Token::OpIfTrue => match jump_operand(ts) {
                OperandSpec::Name(s) => OpParseSpec::IfTrue(s),
                OperandSpec::End => OpParseSpec::UnexpectedEnd,
                OperandSpec::Bad(i) => OpParseSpec::UnexpectedToken(i),
                OperandSpec::Extra(i) => OpParseSpec::ExtraToken(i),
            },
            Token::OpIfFalse => match jump_operand(ts) {
                OperandSpec::Name(s) => OpParseSpec::IfFalse(s),
                OperandSpec::End => OpParseSpec::UnexpectedEnd,
                OperandSpec::Bad(i) => OpParseSpec::UnexpectedToken(i),
                OperandSpec::Extra(i) => OpParseSpec::ExtraToken(i),
            },
            Token::OpIfEq => match jump_operand(ts) {
                OperandSpec::Name(s) => OpParseSpec::IfEq(s),
                OperandSpec::End => OpParseSpec::UnexpectedEnd,
                OperandSpec::Bad(i) => OpParseSpec::UnexpectedToken(i),
                OperandSpec::Extra(i) => OpParseSpec::ExtraToken(i),
            },
            _ => OpParseSpec::UnexpectedToken(0),
        }
    }
}

/// The label-name operand of a jump form.
pub ghost enum OperandSpec {
    Name(Seq<char>),
    End,
    Bad(int),
    Extra(int),
}

/// Parsing the identifier operand that follows a jump keyword.
pub open spec fn jump_operand(ts: Seq<Token>) -> OperandSpec {
    if ts.len() == 1 {
        OperandSpec::End
    } else {
        match ts[1] {
            Token::Identifier(s) => if ts.len() > 2 {
                OperandSpec::Extra(2)
            } else {
                OperandSpec::Name(s@)
            },
            _ => OperandSpec::Bad(1),
        }
    }
}

/// The parser for one assembly operation.
#[derive(Debug)]
pub struct OpParser {
    _priv: (),
}

impl OpParser {
    /// A fresh operation parser.
    pub fn new() -> (r: OpParser)
    {
        OpParser { _priv: () }
    }

    /// Parses one operation from a token sequence, which must be consumed
    /// entirely; the first offending position is reported otherwise.
    pub fn parse(&self, tokens: Vec<Token>) -> (r: Result<AssemblyOp, ParseError>)
        ensures
            match parse_op_spec(tokens@) {
                OpParseSpec::Label(s) => r matches Ok(AssemblyOp::Label(m)) && m@ == s,
                OpParseSpec::ReturnValue => r matches Ok(AssemblyOp::Raw(x)) && x
                    == (Op::ReturnValue),
                OpParseSpec::ReturnVoid => r matches Ok(AssemblyOp::Raw(x)) && x
                    == (Op::ReturnVoid),
                OpParseSpec::IfTrue(s) => r matches Ok(AssemblyOp::IfTrue(m)) && m@ == s,
                OpParseSpec::IfFalse(s) => r matches Ok(AssemblyOp::IfFalse(m)) && m@ == s,
                OpParseSpec::IfEq(s) => r matches Ok(AssemblyOp::IfEq(m)) && m@ == s,
                OpParseSpec::UnexpectedEnd => r == Err::<AssemblyOp, ParseError>(
                    ParseError::UnrecognizedEof,
                ),
                OpParseSpec::UnexpectedToken(i) => r matches Err(ParseError::UnrecognizedToken(j))
                    && j == i,
                OpParseSpec::ExtraToken(i) => r matches Err(ParseError::ExtraToken(j)) && j == i,
            },
    {
        let ghost ts = tokens@;
        let mut tokens = tokens;
        if tokens.len() == 0 {
            return Err(ParseError::UnrecognizedEof);
        }
        let first = tokens.remove(0);
        proof {
            assert(first == ts[0]);
        }
        match first {
            Token::Identifier(s) => {
                if tokens.len() == 0 {
                    return Err(ParseError::UnrecognizedEof);
                }
                let second = tokens.remove(0);
                proof {
                    assert(second == ts[1]);
                }
                match second {
                    Token::Colon => {
                        if tokens.len() > 0 {
                            Err(ParseError::ExtraToken(2))
                        } else {
                            Ok(AssemblyOp::Label(s))
                        }
                    },
                    _ => Err(ParseError::UnrecognizedToken(1)),
                }
            },
            Token::OpReturnValue => {
                if tokens.len() > 0 {
                    Err(ParseError::ExtraToken(1))
                } else {
                    Ok(AssemblyOp::Raw(Op::ReturnValue))
                }
            },
            Token::OpReturnVoid => {
                if tokens.len() > 0 {
                    Err(ParseError::ExtraToken(1))
                } else {
                    Ok(AssemblyOp::Raw(Op::ReturnVoid))
                }
            },
            Token::OpIfTrue => {
                match Self::parse_label_operand(&mut tokens, Ghost(ts)) {
                    Ok(s) => Ok(AssemblyOp::IfTrue(s)),
                    Err(e) => Err(e),
                }
            },
            Token::OpIfFalse => {
                match Self::parse_label_operand(&mut tokens, Ghost(ts)) {
                    Ok(s) => Ok(AssemblyOp::IfFalse(s)),
                    Err(e) => Err(e),
                }
            },
            Token::OpIfEq => {
                match Self::parse_label_operand(&mut tokens, Ghost(ts)) {
                    Ok(s) => Ok(AssemblyOp::IfEq(s)),
                    Err(e) => Err(e),
                }
            },
            _ => Err(ParseError::UnrecognizedToken(0)),
        }
    }

    /// Parses the identifier operand of a jump form, after its keyword was
    /// consumed.
    fn parse_label_operand(tokens: &mut Vec<Token>, Ghost(ts): Ghost<Seq<Token>>) -> (r: Result<
        String,
        ParseError,
    >)
        requires
            old(tokens)@ == ts.skip(1),
            ts.len() >= 1,
        ensures
            match jump_operand(ts) {
                OperandSpec::Name(s) => r matches Ok(m) && m@ == s,
                OperandSpec::End => r == Err::<String, ParseError>(ParseError::UnrecognizedEof),
                OperandSpec::Bad(i) => r matches Err(ParseError::UnrecognizedToken(j)) && j == i,
                OperandSpec::Extra(i) => r matches Err(ParseError::ExtraToken(j)) && j == i,
            },
    {
        if tokens.len() == 0 {
            return Err(ParseError::UnrecognizedEof);
        }
        let second = tokens.remove(0);
        proof {
            assert(second == ts[1]);
        }
        match second {
            Token::Identifier(s) => {
                if tokens.len() > 0 {
                    Err(ParseError::ExtraToken(2))
                } else {
                    Ok(s)
                }
            },
            _ => Err(ParseError::UnrecognizedToken(1)),
        }
    }
}

} // verus!
