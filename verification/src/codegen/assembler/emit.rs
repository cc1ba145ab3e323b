//! Byte encodings of the emitted operations, and the trusted bindings to the
//! `swf` crate's AVM2 writer that produce them.
//!
//! Every spec function here states the exact bytes the writer produces, as
//! its source shows them: one opcode byte, then the operands; u30 operands
//! as little-endian groups of seven bits with a continuation bit, branch
//! offsets as the low 24 bits of the value in little-endian order.

use vstd::prelude::*;
use crate::codegen::Op;

verus! {

/// The variable-length encoding of a u30/u32 operand: groups of seven bits,
/// least significant first, the high bit of each byte marking continuation.
pub open spec fn u30_bytes(n: nat) -> Seq<u8>
    decreases n,
{
    if n < 128 {
        seq![n as u8]
    } else {
        seq![(128 + (n % 128)) as u8] + u30_bytes(n / 128)
    }
}

/// The u32 a short immediate is encoded as: negative values wrap into the
/// unsigned 32-bit range, as in the writer's cast.
pub open spec fn short_operand(value: i16) -> nat {
    if value >= 0 {
        value as nat
    } else {
        (value + 0x1_0000_0000) as nat
    }
}

/// A branch offset as three little-endian bytes: the low 24 bits of the
/// signed value.
pub open spec fn i24_bytes(n: int) -> Seq<u8>
    recommends
        -0x80_0000 <= n < 0x80_0000,
{
    let m = if n >= 0 {
        n
    } else {
        n + 0x100_0000
    };
    seq![(m % 256) as u8, ((m / 256) % 256) as u8, ((m / 65536) % 256) as u8]
}

/// The encoding of the label pseudo-operation.
pub open spec fn label_bytes() -> Seq<u8> {
    seq![0x09u8]
}

/// The exact encoding of each raw machine operation.
pub open spec fn raw_op_bytes(op: Op) -> Seq<u8> {
    match op {
        Op::PushByte { value } => seq![0x24u8, value],
        Op::PushShort { value } => seq![0x25u8] + u30_bytes(short_operand(value)),
        Op::PushInt { value } => seq![0x2du8] + u30_bytes(value as nat),
        Op::PushString { value } => seq![0x2cu8] + u30_bytes(value as nat),
        Op::PushTrue => seq![0x26u8],
        Op::PushFalse => seq![0x27u8],
        Op::PushScope => seq![0x30u8],
        Op::GetLocal { index } => if index < 4 {
            seq![(0xd0 + index) as u8]
        } else {
            seq![0x62u8] + u30_bytes(index as nat)
        },
        Op::SetLocal { index } => if index < 4 {
            seq![(0xd4 + index) as u8]
        } else {
            seq![0x63u8] + u30_bytes(index as nat)
        },
        Op::Add => seq![0xa0u8],
        Op::Subtract => seq![0xa1u8],
        Op::Multiply => seq![0xa2u8],
        Op::Divide => seq![0xa3u8],
        Op::CoerceA => seq![0x82u8],
        Op::ReturnVoid => seq![0x47u8],
        Op::ReturnValue => seq![0x48u8],
    }
}

/// Relies on swf's `Writer::write_op` for `PushByte`: the opcode byte, then
/// the value byte.
#[verifier::external_body]
pub(crate) fn emit_push_byte(out: &mut Vec<u8>, value: u8)
    ensures
        final(out)@ == old(out)@ + raw_op_bytes(Op::PushByte { value }),
{
    let mut writer = swf::avm2::write::Writer::new(out);
    writer.write_op(&swf::avm2::types::Op::PushByte { value }).expect("a Vec write cannot fail");
}

/// Relies on swf's `Writer::write_op` for `PushShort`: the opcode byte, then
/// the value cast to u32 and written as a u30.
#[verifier::external_body]
pub(crate) fn emit_push_short(out: &mut Vec<u8>, value: i16)
    ensures
        final(out)@ == old(out)@ + raw_op_bytes(Op::PushShort { value }),
{
    let mut writer = swf::avm2::write::Writer::new(out);
    writer.write_op(&swf::avm2::types::Op::PushShort { value }).expect("a Vec write cannot fail");
}

/// Relies on swf's `Writer::write_op` for `PushInt`: the opcode byte, then
/// the pool index as a u30.
#[verifier::external_body]
pub(crate) fn emit_push_int(out: &mut Vec<u8>, index: u32)
    ensures
        final(out)@ == old(out)@ + raw_op_bytes(Op::PushInt { value: index }),
{
    let mut writer = swf::avm2::write::Writer::new(out);
    let op = swf::avm2::types::Op::PushInt { value: swf::avm2::types::Index::new(index) };
    writer.write_op(&op).expect("a Vec write cannot fail");
}

/// Relies on swf's `Writer::write_op` for `PushString`: the opcode byte,
/// then the pool index as a u30.
#[verifier::external_body]
pub(crate) fn emit_push_string(out: &mut Vec<u8>, index: u32)
    ensures
        final(out)@ == old(out)@ + raw_op_bytes(Op::PushString { value: index }),
{
    let mut writer = swf::avm2::write::Writer::new(out);
    let op = swf::avm2::types::Op::PushString { value: swf::avm2::types::Index::new(index) };
    writer.write_op(&op).expect("a Vec write cannot fail");
}

/// Relies on swf's `Writer::write_op` for `PushTrue`: one opcode byte.
#[verifier::external_body]
pub(crate) fn emit_push_true(out: &mut Vec<u8>)
    ensures
        final(out)@ == old(out)@ + raw_op_bytes(Op::PushTrue),
{
    let mut writer = swf::avm2::write::Writer::new(out);
    writer.write_op(&swf::avm2::types::Op::PushTrue).expect("a Vec write cannot fail");
}

/// Relies on swf's `Writer::write_op` for `PushFalse`: one opcode byte.
#[verifier::external_body]
pub(crate) fn emit_push_false(out: &mut Vec<u8>)
    ensures
        final(out)@ == old(out)@ + raw_op_bytes(Op::PushFalse),
{
    let mut writer = swf::avm2::write::Writer::new(out);
    writer.write_op(&swf::avm2::types::Op::PushFalse).expect("a Vec write cannot fail");
}

/// Relies on swf's `Writer::write_op` for `PushScope`: one opcode byte.
#[verifier::external_body]
pub(crate) fn emit_push_scope(out: &mut Vec<u8>)
    ensures
        final(out)@ == old(out)@ + raw_op_bytes(Op::PushScope),
{
    let mut writer = swf::avm2::write::Writer::new(out);
    writer.write_op(&swf::avm2::types::Op::PushScope).expect("a Vec write cannot fail");
}

/// Relies on swf's `Writer::write_op` for `GetLocal`: one dedicated opcode
/// byte for registers 0 to 3, else the opcode byte and the index as a u30.
#[verifier::external_body]
pub(crate) fn emit_get_local(out: &mut Vec<u8>, index: u32)
    ensures
        final(out)@ == old(out)@ + raw_op_bytes(Op::GetLocal { index }),
{
    let mut writer = swf::avm2::write::Writer::new(out);
    writer.write_op(&swf::avm2::types::Op::GetLocal { index }).expect("a Vec write cannot fail");
}

/// Relies on swf's `Writer::write_op` for `SetLocal`: one dedicated opcode
/// byte for registers 0 to 3, else the opcode byte and the index as a u30.
#[verifier::external_body]
pub(crate) fn emit_set_local(out: &mut Vec<u8>, index: u32)
    ensures
        final(out)@ == old(out)@ + raw_op_bytes(Op::SetLocal { index }),
{
    let mut writer = swf::avm2::write::Writer::new(out);
    writer.write_op(&swf::avm2::types::Op::SetLocal { index }).expect("a Vec write cannot fail");
}

/// Relies on swf's `Writer::write_op` for `Add`: one opcode byte.
#[verifier::external_body]
pub(crate) fn emit_add(out: &mut Vec<u8>)
    ensures
        final(out)@ == old(out)@ + raw_op_bytes(Op::Add),
{
    let mut writer = swf::avm2::write::Writer::new(out);
    writer.write_op(&swf::avm2::types::Op::Add).expect("a Vec write cannot fail");
}

/// Relies on swf's `Writer::write_op` for `Subtract`: one opcode byte.
#[verifier::external_body]
pub(crate) fn emit_subtract(out: &mut Vec<u8>)
    ensures
        final(out)@ == old(out)@ + raw_op_bytes(Op::Subtract),
{
    let mut writer = swf::avm2::write::Writer::new(out);
    writer.write_op(&swf::avm2::types::Op::Subtract).expect("a Vec write cannot fail");
}

/// Relies on swf's `Writer::write_op` for `Multiply`: one opcode byte.
#[verifier::external_body]
pub(crate) fn emit_multiply(out: &mut Vec<u8>)
    ensures
        final(out)@ == old(out)@ + raw_op_bytes(Op::Multiply),
{
    let mut writer = swf::avm2::write::Writer::new(out);
    writer.write_op(&swf::avm2::types::Op::Multiply).expect("a Vec write cannot fail");
}

/// Relies on swf's `Writer::write_op` for `Divide`: one opcode byte.
#[verifier::external_body]
pub(crate) fn emit_divide(out: &mut Vec<u8>)
    ensures
        final(out)@ == old(out)@ + raw_op_bytes(Op::Divide),
{
    let mut writer = swf::avm2::write::Writer::new(out);
    writer.write_op(&swf::avm2::types::Op::Divide).expect("a Vec write cannot fail");
}

/// Relies on swf's `Writer::write_op` for `CoerceA`: one opcode byte.
#[verifier::external_body]
pub(crate) fn emit_coerce_a(out: &mut Vec<u8>)
    ensures
        final(out)@ == old(out)@ + raw_op_bytes(Op::CoerceA),
{
    let mut writer = swf::avm2::write::Writer::new(out);
    writer.write_op(&swf::avm2::types::Op::CoerceA).expect("a Vec write cannot fail");
}

/// Relies on swf's `Writer::write_op` for `ReturnVoid`: one opcode byte.
#[verifier::external_body]
pub(crate) fn emit_return_void(out: &mut Vec<u8>)
    ensures
        final(out)@ == old(out)@ + raw_op_bytes(Op::ReturnVoid),
{
    let mut writer = swf::avm2::write::Writer::new(out);
    writer.write_op(&swf::avm2::types::Op::ReturnVoid).expect("a Vec write cannot fail");
}

/// Relies on swf's `Writer::write_op` for `ReturnValue`: one opcode byte.
#[verifier::external_body]
pub(crate) fn emit_return_value(out: &mut Vec<u8>)
    ensures
        final(out)@ == old(out)@ + raw_op_bytes(Op::ReturnValue),
{
    let mut writer = swf::avm2::write::Writer::new(out);
    writer.write_op(&swf::avm2::types::Op::ReturnValue).expect("a Vec write cannot fail");
}

/// Relies on swf's `Writer::write_op` for `Label`: one opcode byte.
#[verifier::external_body]
pub(crate) fn emit_label(out: &mut Vec<u8>)
    ensures
        final(out)@ == old(out)@ + label_bytes(),
{
    let mut writer = swf::avm2::write::Writer::new(out);
    writer.write_op(&swf::avm2::types::Op::Label).expect("a Vec write cannot fail");
}

/// Relies on swf's `Writer::write_op` for `Jump`: the opcode byte, then the
/// offset's low 24 bits little endian; the writer asserts that the offset
/// fits 24 signed bits.
#[verifier::external_body]
pub(crate) fn emit_jump(out: &mut Vec<u8>, offset: i32)
    requires
        -0x80_0000 <= offset < 0x80_0000,
    ensures
        final(out)@ == old(out)@ + seq![0x10u8] + i24_bytes(offset as int),
{
    let mut writer = swf::avm2::write::Writer::new(out);
    writer.write_op(&swf::avm2::types::Op::Jump { offset }).expect("a Vec write cannot fail");
}

/// Relies on swf's `Writer::write_op` for `IfTrue`: the opcode byte, then
/// the offset's low 24 bits little endian; the writer asserts that the
/// offset fits 24 signed bits.
#[verifier::external_body]
pub(crate) fn emit_if_true(out: &mut Vec<u8>, offset: i32)
    requires
        -0x80_0000 <= offset < 0x80_0000,
    ensures
        final(out)@ == old(out)@ + seq![0x11u8] + i24_bytes(offset as int),
{
    let mut writer = swf::avm2::write::Writer::new(out);
    writer.write_op(&swf::avm2::types::Op::IfTrue { offset }).expect("a Vec write cannot fail");
}

/// Relies on swf's `Writer::write_op` for `IfFalse`: the opcode byte, then
/// the offset's low 24 bits little endian; the writer asserts that the
/// offset fits 24 signed bits.
#[verifier::external_body]
pub(crate) fn emit_if_false(out: &mut Vec<u8>, offset: i32)
    requires
        -0x80_0000 <= offset < 0x80_0000,
    ensures
        final(out)@ == old(out)@ + seq![0x12u8] + i24_bytes(offset as int),
{
    let mut writer = swf::avm2::write::Writer::new(out);
    writer.write_op(&swf::avm2::types::Op::IfFalse { offset }).expect("a Vec write cannot fail");
}

/// Relies on swf's `Writer::write_op` for `IfEq`: the opcode byte, then the
/// offset's low 24 bits little endian; the writer asserts that the offset
/// fits 24 signed bits.
#[verifier::external_body]
pub(crate) fn emit_if_eq(out: &mut Vec<u8>, offset: i32)
    requires
        -0x80_0000 <= offset < 0x80_0000,
    ensures
        final(out)@ == old(out)@ + seq![0x13u8] + i24_bytes(offset as int),
{
    let mut writer = swf::avm2::write::Writer::new(out);
    writer.write_op(&swf::avm2::types::Op::IfEq { offset }).expect("a Vec write cannot fail");
}

/// Serializes one raw operation by dispatching to its writer binding.
pub(crate) fn write_raw_op(out: &mut Vec<u8>, op: &Op)
    ensures
        final(out)@ == old(out)@ + raw_op_bytes(*op),
{
    match op {
        Op::PushByte { value } => emit_push_byte(out, *value),
        Op::PushShort { value } => emit_push_short(out, *value),
        Op::PushInt { value } => emit_push_int(out, *value),
        Op::PushString { value } => emit_push_string(out, *value),
        Op::PushTrue => emit_push_true(out),
        Op::PushFalse => emit_push_false(out),
        Op::PushScope => emit_push_scope(out),
        Op::GetLocal { index } => emit_get_local(out, *index),
        Op::SetLocal { index } => emit_set_local(out, *index),
        Op::Add => emit_add(out),
        Op::Subtract => emit_subtract(out),
        Op::Multiply => emit_multiply(out),
        Op::Divide => emit_divide(out),
        Op::CoerceA => emit_coerce_a(out),
        Op::ReturnVoid => emit_return_void(out),
        Op::ReturnValue => emit_return_value(out),
    }
}

} // verus!
