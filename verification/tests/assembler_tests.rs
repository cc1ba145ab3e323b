//! Tests of the assembler: label resolution, jump offsets, and the exact
//! serialized bytes.

use abcgen::codegen::assembler::{Assembler, Op};
use abcgen::codegen::assembler::intern::InternContext;
use abcgen::codegen::{CodegenError, Op as RawOp};

#[test]
fn simple_label_test() {
    let mut assembler = Assembler::default();

    let label = assembler.make_label();

    // Link label to current location.
    label.link(&mut assembler);
    // Jump to label.
    assembler.jump(&label);

    println!("{:?}", assembler);
    println!("{:?}", assembler.compile());
}

#[test]
fn label_round_trip() {
    // A label declaration followed by a jump back to it: the jump's offset
    // points exactly at the byte position recorded for the label in pass 1,
    // which is position 0, so the offset is 0 - 1 = -1.
    let mut assembler = Assembler::new();
    let label = assembler.make_label();
    label.link(&mut assembler);
    assembler.jump(&label);
    let bytes = assembler.compile().unwrap();
    assert_eq!(bytes, vec![0x09, 0x10, 0xff, 0xff, 0xff]);
}

#[test]
fn assembly_is_stable() {
    // Running the two passes on identical input yields byte-identical
    // output.
    let mut first = Assembler::new();
    let l1 = first.make_label();
    first.push_immediate(7);
    l1.link(&mut first);
    first.jump_if_true(&l1);
    first.jump(&l1);

    let mut second = Assembler::new();
    let l2 = second.make_label();
    second.push_immediate(7);
    l2.link(&mut second);
    second.jump_if_true(&l2);
    second.jump(&l2);

    assert_eq!(first.compile().unwrap(), second.compile().unwrap());
}

#[test]
fn forward_jump_offset() {
    // A jump over its own four bytes to a label right after it.
    let mut assembler = Assembler::new();
    let label = assembler.make_label();
    assembler.jump(&label);
    label.link(&mut assembler);
    let bytes = assembler.compile().unwrap();
    assert_eq!(bytes, vec![0x10, 0x04, 0x00, 0x00, 0x09]);
}

#[test]
fn conditional_jump_opcodes() {
    let mut assembler = Assembler::new();
    let label = assembler.make_label();
    label.link(&mut assembler);
    assembler.jump_if_true(&label);
    assembler.jump_if_false(&label);
    assembler.jump_if_eq(&label);
    let bytes = assembler.compile().unwrap();
    assert_eq!(
        bytes,
        vec![
            0x09, // label
            0x11, 0xff, 0xff, 0xff, // iftrue, offset -1
            0x12, 0xfb, 0xff, 0xff, // iffalse, offset -5
            0x13, 0xf7, 0xff, 0xff, // ifeq, offset -9
        ]
    );
}

#[test]
fn duplicate_label_is_fatal() {
    let mut assembler = Assembler::new();
    let label = assembler.make_label();
    label.link(&mut assembler);
    label.link(&mut assembler);
    assert_eq!(assembler.compile(), Err(CodegenError::DuplicateLabel(0)));
}

#[test]
fn unresolved_label_is_fatal() {
    let mut assembler = Assembler::new();
    let label = assembler.make_label();
    assembler.jump(&label);
    assert_eq!(assembler.compile(), Err(CodegenError::UnresolvedLabel(0)));
}

#[test]
fn push_operations_serialize() {
    let mut context = InternContext::new();
    let mut assembler = Assembler::new();
    assembler.push_immediate(5);
    assembler.push_interned(&mut context, "hi");
    assembler.push_interned(&mut context, "hi");
    assembler.push_immediate_bool(true);
    assembler.push_immediate_bool(false);
    assembler.push_scope();
    assembler.return_void();
    // Both pushes of "hi" refer to the same pool entry.
    assert_eq!(context.const_pool.strings, vec!["hi".to_string()]);
    let bytes = assembler.compile().unwrap();
    assert_eq!(
        bytes,
        vec![
            0x24, 5, // pushbyte 5
            0x2c, 0, // pushstring #0
            0x2c, 0, // pushstring #0 again
            0x26, // pushtrue
            0x27, // pushfalse
            0x30, // pushscope
            0x47, // returnvoid
        ]
    );
}

#[test]
fn local_register_encodings() {
    // Registers 0 to 3 get dedicated opcodes; higher ones carry an operand.
    let mut assembler = Assembler::new();
    assembler.get_local(0);
    assembler.get_local(3);
    assembler.get_local(5);
    assembler.set_local(1);
    assembler.set_local(300);
    let bytes = assembler.compile().unwrap();
    assert_eq!(
        bytes,
        vec![
            0xd0, // getlocal0
            0xd3, // getlocal3
            0x62, 5, // getlocal 5
            0xd5, // setlocal1
            0x63, 0xac, 0x02, // setlocal 300 (u30: 0xac 0x02)
        ]
    );
}

#[test]
fn generated_method_body_serializes() {
    // The raw stream of a generated body: the prologue, 1 + 2 * 3, the
    // coercion and store, and the epilogue, byte for byte.
    let ops = vec![
        RawOp::GetLocal { index: 0 },
        RawOp::PushScope,
        RawOp::PushByte { value: 1 },
        RawOp::PushByte { value: 2 },
        RawOp::PushByte { value: 3 },
        RawOp::Multiply,
        RawOp::Add,
        RawOp::CoerceA,
        RawOp::SetLocal { index: 1 },
        RawOp::ReturnVoid,
    ];
    let mut assembler = Assembler::new();
    for op in ops {
        assembler.emit_raw(op);
    }
    let bytes = assembler.compile().unwrap();
    assert_eq!(
        bytes,
        vec![
            0xd0, // getlocal0
            0x30, // pushscope
            0x24, 1, // pushbyte 1
            0x24, 2, // pushbyte 2
            0x24, 3, // pushbyte 3
            0xa2, // multiply
            0xa0, // add
            0x82, // coerce_a
            0xd5, // setlocal1
            0x47, // returnvoid
        ]
    );
}

#[test]
fn wide_operand_encodings() {
    // Short immediates are u30-encoded, negative ones as their wrapped
    // 32-bit value; pool pushes carry a u30 index.
    let ops = vec![
        RawOp::PushShort { value: 30000 },
        RawOp::PushShort { value: -1 },
        RawOp::PushInt { value: 0 },
        RawOp::Subtract,
        RawOp::Divide,
        RawOp::ReturnValue,
    ];
    let mut assembler = Assembler::new();
    for op in ops {
        assembler.emit_raw(op);
    }
    let bytes = assembler.compile().unwrap();
    assert_eq!(
        bytes,
        vec![
            0x25, 0xb0, 0xea, 0x01, // pushshort 30000
            0x25, 0xff, 0xff, 0xff, 0xff, 0x0f, // pushshort -1
            0x2d, 0x00, // pushint #0
            0xa1, // subtract
            0xa3, // divide
            0x48, // returnvalue
        ]
    );
}

#[test]
fn raw_arithmetic_ops_serialize() {
    let mut assembler = Assembler::new();
    assembler.push_immediate(1);
    assembler.push_immediate(2);
    // The raw operation stream is visible on the assembler.
    assert_eq!(
        assembler.opcodes,
        vec![
            Op::Raw(RawOp::PushByte { value: 1 }),
            Op::Raw(RawOp::PushByte { value: 2 }),
        ]
    );
}
