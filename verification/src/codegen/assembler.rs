//! The assembler: it accepts a sequence of raw and label-relative symbolic
//! operations, resolves every label to a byte offset in a measuring pass,
//! and serializes the final instruction stream in an emission pass.

use vstd::prelude::*;
use crate::codegen::CodegenError;
use crate::codegen::Op as RawOp;
use crate::codegen::assembler::emit::{
    emit_if_eq, emit_if_false, emit_if_true, emit_jump, emit_label, i24_bytes, label_bytes,
    raw_op_bytes, write_raw_op,
};
use crate::codegen::assembler::intern::{intern_index, intern_seq, InternContext};
use crate::util::{first_index_of, lemma_first_index_of, lemma_first_index_of_take};

pub mod emit;
pub mod intern;

verus! {

/// A wrapped operation awaiting label resolution.
///
/// Raw operations are written as is; the label and jump forms are rewritten
/// by the two resolution passes.
#[derive(Debug, Clone, Copy, PartialEq, Eq, Structural)]
pub enum Op {
    /// Written unchanged.
    Raw(RawOp),
    /// Declares the label with this identifier at the current position.
    Label(u32),
    /// Jump when the popped value is true.
    IfTrue(u32),
    /// Jump when the popped value is false.
    IfFalse(u32),
    /// Jump when the two popped values are equal.
    IfEq(u32),
    /// Unconditional jump.
    Jump(u32),
}

/// The label identifier a jump form references.
pub open spec fn jump_target(op: Op) -> Option<u32> {
    match op {
        Op::Jump(x) => Some(x),
        Op::IfTrue(x) => Some(x),
        Op::IfFalse(x) => Some(x),
        Op::IfEq(x) => Some(x),
        _ => None,
    }
}

/// The opcode byte of each jump form.
pub open spec fn jump_byte(op: Op) -> u8 {
    match op {
        Op::Jump(_) => 0x10u8,
        Op::IfTrue(_) => 0x11u8,
        Op::IfFalse(_) => 0x12u8,
        Op::IfEq(_) => 0x13u8,
        _ => 0u8,
    }
}

/// The placeholder encoding the measuring pass writes: jump forms carry a
/// zero offset, everything else its final encoding.
pub open spec fn placeholder_bytes(op: Op) -> Seq<u8> {
    match op {
        Op::Raw(x) => raw_op_bytes(x),
        Op::Label(_) => label_bytes(),
        _ => seq![jump_byte(op)] + i24_bytes(0),
    }
}

/// The scratch stream the measuring pass produces for a whole sequence.
pub open spec fn placeholder_stream(ops: Seq<Op>) -> Seq<u8>
    decreases ops.len(),
{
    if ops.len() == 0 {
        Seq::empty()
    } else {
        placeholder_stream(ops.drop_last()) + placeholder_bytes(ops.last())
    }
}

/// Whether the sequence declares label `x`.
pub open spec fn declares(ops: Seq<Op>, x: u32) -> bool {
    ops.contains(Op::Label(x))
}

/// The byte offset the measuring pass records for label `x`: the scratch
/// length when its declaration is reached.
pub open spec fn label_offset(ops: Seq<Op>, x: u32) -> int {
    placeholder_stream(ops.take(first_index_of(ops, Op::Label(x)))).len() as int
}

/// The first label identifier declared twice, in pass order.
pub open spec fn first_duplicate(ops: Seq<Op>) -> Option<u32>
    decreases ops.len(),
{
    if ops.len() == 0 {
        None
    } else {
        match first_duplicate(ops.drop_last()) {
            Some(x) => Some(x),
            None => match ops.last() {
                Op::Label(x) => if ops.drop_last().contains(Op::Label(x)) {
                    Some(x)
                } else {
                    None
                },
                _ => None,
            },
        }
    }
}

/// The first jump at or after index `i`, in emission order, whose target is
/// declared nowhere in the sequence.
pub open spec fn first_unresolved_from(ops: Seq<Op>, i: int) -> Option<u32>
    decreases ops.len() - i,
{
    if i < 0 || i >= ops.len() {
        None
    } else {
        match jump_target(ops[i]) {
            Some(x) => if !declares(ops, x) {
                Some(x)
            } else {
                first_unresolved_from(ops, i + 1)
            },
            None => first_unresolved_from(ops, i + 1),
        }
    }
}

/// The final encoding of the operation at index `i`: a jump carries the
/// signed difference between its target's resolved offset and the jump's own
/// encoded position.
pub open spec fn final_bytes(ops: Seq<Op>, i: int) -> Seq<u8> {
    let pos = placeholder_stream(ops.take(i)).len();
    match jump_target(ops[i]) {
        Some(x) => seq![jump_byte(ops[i])] + i24_bytes(label_offset(ops, x) - pos),
        None => placeholder_bytes(ops[i]),
    }
}

/// The assembled stream of the first `i` operations.
pub open spec fn assembled_prefix(ops: Seq<Op>, i: int) -> Seq<u8>
    decreases i,
{
    if i <= 0 {
        Seq::empty()
    } else {
        assembled_prefix(ops, i - 1) + final_bytes(ops, i - 1)
    }
}

/// The fully assembled byte stream.
pub open spec fn assembled(ops: Seq<Op>) -> Seq<u8> {
    assembled_prefix(ops, ops.len() as int)
}

/// A sequence assembles cleanly: no label declared twice, every jump target
/// declared somewhere, and the stream short enough that every branch offset
/// fits 24 signed bits.
pub open spec fn assembles(ops: Seq<Op>) -> bool {
    &&& first_duplicate(ops) is None
    &&& first_unresolved_from(ops, 0) is None
    &&& placeholder_stream(ops).len() <= 0x7f_ffff
}

/// Placeholder and final encodings of one operation have the same length:
/// offsets are fixed-width, so operation widths are constant once the kind
/// is fixed.
pub proof fn lemma_encoding_len(ops: Seq<Op>, i: int)
    requires
        0 <= i < ops.len(),
    ensures
        final_bytes(ops, i).len() == placeholder_bytes(ops[i]).len(),
{
}

/// The assembled prefix is exactly as long as the measured prefix: the two
/// passes agree on every position.
pub proof fn lemma_assembled_prefix_len(ops: Seq<Op>, i: int)
    requires
        0 <= i <= ops.len(),
    ensures
        assembled_prefix(ops, i).len() == placeholder_stream(ops.take(i)).len(),
    decreases i,
{
    if i > 0 {
        lemma_assembled_prefix_len(ops, i - 1);
        lemma_encoding_len(ops, i - 1);
        assert(ops.take(i).drop_last() =~= ops.take(i - 1));
        assert(ops.take(i).last() == ops[i - 1]);
    } else {
        assert(ops.take(0) =~= Seq::<Op>::empty());
    }
}

/// A measured prefix is never longer than the full measured stream.
pub proof fn lemma_placeholder_take_le(ops: Seq<Op>, i: int)
    requires
        0 <= i <= ops.len(),
    ensures
        placeholder_stream(ops.take(i)).len() <= placeholder_stream(ops).len(),
    decreases ops.len(),
{
    if i == ops.len() {
        assert(ops.take(i) =~= ops);
    } else {
        assert(ops.drop_last().take(i) =~= ops.take(i));
        lemma_placeholder_take_le(ops.drop_last(), i);
    }
}

/// Label round-trip: the offset the measuring pass records for a declared
/// label is exactly the byte position at which that label's own encoding
/// begins in the final output stream.
pub proof fn lemma_label_offset_is_final_position(ops: Seq<Op>, x: u32)
    requires
        declares(ops, x),
    ensures
        label_offset(ops, x) == assembled_prefix(ops, first_index_of(ops, Op::Label(x))).len(),
{
    lemma_first_index_of(ops, Op::Label(x));
    lemma_assembled_prefix_len(ops, first_index_of(ops, Op::Label(x)));
}

/// A duplicate label found in a prefix is the first duplicate of the whole
/// sequence.
proof fn lemma_first_duplicate_take(ops: Seq<Op>, j: int)
    requires
        0 <= j <= ops.len(),
        first_duplicate(ops.take(j)) is Some,
    ensures
        first_duplicate(ops) == first_duplicate(ops.take(j)),
    decreases ops.len() - j,
{
    if j == ops.len() {
        assert(ops.take(j) =~= ops);
    } else {
        assert(ops.take(j + 1).drop_last() =~= ops.take(j));
        lemma_first_duplicate_take(ops, j + 1);
    }
}

/// Resolution is stable: the assembled output is a pure function of the
/// operation sequence, so running the two passes on an unmodified sequence a
/// second time yields byte-identical output.
pub proof fn lemma_assembly_deterministic(ops1: Seq<Op>, ops2: Seq<Op>)
    requires
        ops1 == ops2,
    ensures
        assembled(ops1) == assembled(ops2),
{
}

/// First match of `x` in an association list, front first.
pub open spec fn assoc_find(m: Seq<(u32, usize)>, x: u32) -> Option<usize>
    decreases m.len(),
{
    if m.len() == 0 {
        None
    } else if m[0].0 == x {
        Some(m[0].1)
    } else {
        assoc_find(m.drop_first(), x)
    }
}

/// Appending an entry changes only lookups that previously found nothing.
proof fn lemma_assoc_find_push(m: Seq<(u32, usize)>, e: (u32, usize), x: u32)
    ensures
        assoc_find(m.push(e), x) == if assoc_find(m, x) is Some {
            assoc_find(m, x)
        } else if e.0 == x {
            Some(e.1)
        } else {
            None::<usize>
        },
    decreases m.len(),
{
    if m.len() == 0 {
        assert(m.push(e)[0] == e);
        assert(m.push(e).drop_first() =~= m);
    } else {
        assert(m.push(e)[0] == m[0]);
        assert(m.push(e).drop_first() =~= m.drop_first().push(e));
        lemma_assoc_find_push(m.drop_first(), e, x);
    }
}

/// Linear search in an association list of label offsets.
fn assoc_lookup(m: &Vec<(u32, usize)>, x: u32) -> (r: Option<usize>)
    ensures
        r == assoc_find(m@, x),
{
    let n = m.len();
    let mut i: usize = 0;
    proof {
        assert(m@.skip(0) =~= m@);
    }
    while i < n
        invariant
            i <= n,
            n == m@.len(),
            assoc_find(m@, x) == assoc_find(m@.skip(i as int), x),
        decreases n - i,
    {
        proof {
            assert(m@.skip(i as int)[0] == m@[i as int]);
            assert(m@.skip(i as int).drop_first() =~= m@.skip(i as int + 1));
        }
        if m[i].0 == x {
            return Some(m[i].1);
        }
        i += 1;
    }
    proof {
        assert(m@.skip(n as int) =~= Seq::<(u32, usize)>::empty());
    }
    None
}

/// A symbolic label issued by [`Assembler::make_label`]; it must be declared
/// exactly once with [`Label::link`] before assembly can resolve jumps to it.
#[derive(Debug)]
pub struct Label(pub u32);

impl Label {
    /// Declares this label at the current end of the operation stream.
    pub fn link(&self, assembler: &mut Assembler)
        ensures
            final(assembler).opcodes@ == old(assembler).opcodes@.push(Op::Label(self.0)),
            final(assembler).next_label_index == old(assembler).next_label_index,
    {
        assembler.emit(Op::Label(self.0))
    }
}

/// The assembler state: the symbolic operation stream gathered so far, and
/// the next label identifier to issue.
#[derive(Debug)]
pub struct Assembler {
    pub opcodes: Vec<Op>,
    pub next_label_index: u32,
}

impl Assembler {
    /// Appends one symbolic operation.
    fn emit(&mut self, op: Op)
        ensures
            final(self).opcodes@ == old(self).opcodes@.push(op),
            final(self).next_label_index == old(self).next_label_index,
    {
        self.opcodes.push(op);
    }

    /// Runs the measuring pass: serializes every operation with zero-offset
    /// placeholders into a scratch stream, and records the stream length at
    /// each label declaration. Fails on the first label declared twice.
    /// Returns the recorded offsets and the total measured length.
    fn resolve_labels(&self) -> (r: Result<(Vec<(u32, usize)>, usize), CodegenError>)
        ensures
            match r {
                Ok(m) => {
                    &&& first_duplicate(self.opcodes@) is None
                    &&& forall|x: u32|
                        #![trigger assoc_find(m.0@, x)]
                        (assoc_find(m.0@, x) is Some <==> declares(self.opcodes@, x))
                            && (declares(self.opcodes@, x) ==> assoc_find(m.0@, x) == Some(
                            label_offset(self.opcodes@, x) as usize,
                        ))
                    &&& m.1 == placeholder_stream(self.opcodes@).len()
                },
                Err(e) => e matches CodegenError::DuplicateLabel(x) && first_duplicate(
                    self.opcodes@,
                ) == Some(x),
            },
    {
        let ghost ops = self.opcodes@;
        let mut offsets: Vec<(u32, usize)> = Vec::new();
        let mut scratch: Vec<u8> = Vec::new();
        let n = self.opcodes.len();
        let mut i: usize = 0;
        while i < n
            invariant
                i <= n,
                n == ops.len(),
                ops == self.opcodes@,
                scratch@ == placeholder_stream(ops.take(i as int)),
                first_duplicate(ops.take(i as int)) is None,
                forall|x: u32|
                    #![trigger assoc_find(offsets@, x)]
                    (assoc_find(offsets@, x) is Some <==> declares(ops.take(i as int), x)) && (
                    declares(ops.take(i as int), x) ==> assoc_find(offsets@, x) == Some(
                        label_offset(ops, x) as usize,
                    )),
            decreases n - i,
        {
            let op = self.opcodes[i];
            proof {
                assert(ops.take(i as int + 1).drop_last() =~= ops.take(i as int));
                assert(ops.take(i as int + 1).last() == ops[i as int]);
            }
            match op {
                Op::Raw(x) => write_raw_op(&mut scratch, &x),
                Op::Label(x) => {
                    match assoc_lookup(&offsets, x) {
                        Some(_) => {
                            proof {
                                assert(declares(ops.take(i as int), x));
                                assert(first_duplicate(ops.take(i as int + 1)) == Some(x));
                                lemma_first_duplicate_take(ops, i as int + 1);
                            }
                            return Err(CodegenError::DuplicateLabel(x));
                        },
                        None => {
                            let pos = scratch.len();
                            let ghost prev = offsets@;
                            proof {
                                lemma_first_index_of_take(ops, Op::Label(x), i as int);
                                lemma_first_index_of(ops, Op::Label(x));
                                assert(ops[i as int] == Op::Label(x));
                                assert(ops.contains(Op::Label(x)));
                                assert(first_index_of(ops, Op::Label(x)) == i);
                                assert(label_offset(ops, x) == pos);
                            }
                            offsets.push((x, pos));
                            proof {
                                assert(offsets@ =~= prev.push((x, pos)));
                                assert forall|y: u32| true implies (assoc_find(offsets@, y)
                                    is Some <==> declares(ops.take(i as int + 1), y)) && (declares(
                                    ops.take(i as int + 1),
                                    y,
                                ) ==> assoc_find(offsets@, y) == Some(
                                    label_offset(ops, y) as usize,
                                )) by {
                                    lemma_assoc_find_push(prev, (x, pos), y);
                                    let pre = ops.take(i as int);
                                    let pre1 = ops.take(i as int + 1);
                                    if declares(pre1, y) && y != x {
                                        let k = choose|k: int|
                                            0 <= k < pre1.len() && pre1[k] == Op::Label(y);
                                        assert(pre[k] == Op::Label(y));
                                    }
                                    if assoc_find(prev, y) is Some {
                                        let k = choose|k: int|
                                            0 <= k < pre.len() && pre[k] == Op::Label(y);
                                        assert(pre1[k] == Op::Label(y));
                                    }
                                    if y == x {
                                        assert(pre1[i as int] == Op::Label(x));
                                    }
                                }
                            }
                            emit_label(&mut scratch);
                        },
                    }
                },
                _ => Self::write_resolved_jump(&mut scratch, op, 0),
            }
            proof {
                if !(op matches Op::Label(_)) {
                    let pre = ops.take(i as int);
                    let pre1 = ops.take(i as int + 1);
                    assert forall|y: u32| declares(pre1, y) implies declares(pre, y) by {
                        let k = choose|k: int| 0 <= k < pre1.len() && pre1[k] == Op::Label(y);
                        assert(pre[k] == Op::Label(y));
                    }
                    assert forall|y: u32| declares(pre, y) implies declares(pre1, y) by {
                        let k = choose|k: int| 0 <= k < pre.len() && pre[k] == Op::Label(y);
                        assert(pre1[k] == Op::Label(y));
                    }
                }
            }
            i += 1;
        }
        proof {
            assert(ops.take(n as int) =~= ops);
        }
        let total = scratch.len();
        Ok((offsets, total))
    }

    /// Writes one resolved jump operation.
    fn write_resolved_jump(out: &mut Vec<u8>, op: Op, offset: i32)
        requires
            jump_target(op) is Some,
            -0x80_0000 <= offset < 0x80_0000,
        ensures
            final(out)@ == old(out)@ + seq![jump_byte(op)] + i24_bytes(offset as int),
    {
        match op {
            Op::Jump(_) => emit_jump(out, offset),
            Op::IfTrue(_) => emit_if_true(out, offset),
            Op::IfFalse(_) => emit_if_false(out, offset),
            Op::IfEq(_) => emit_if_eq(out, offset),
            _ => proof {
                assert(false);
            },
        }
    }

    /// Generates the final bytecode for the gathered operations (pass 2),
    /// consuming the assembler: every label must be declared exactly once,
    /// every jump's target somewhere, and the stream must be short enough
    /// for every branch offset to fit 24 signed bits; otherwise the first
    /// offending label is reported.
    pub fn compile(self) -> (r: Result<Vec<u8>, CodegenError>)
        ensures
            match r {
                Ok(bytes) => assembles(self.opcodes@) && bytes@ == assembled(self.opcodes@),
                Err(CodegenError::DuplicateLabel(x)) => first_duplicate(self.opcodes@) == Some(x),
                Err(CodegenError::CodeTooLarge) => first_duplicate(self.opcodes@) is None
                    && placeholder_stream(self.opcodes@).len() > 0x7f_ffff,
                Err(CodegenError::UnresolvedLabel(x)) => first_duplicate(self.opcodes@) is None
                    && placeholder_stream(self.opcodes@).len() <= 0x7f_ffff
                    && first_unresolved_from(self.opcodes@, 0) == Some(x),
                Err(_) => false,
            },
    {
        let ghost ops = self.opcodes@;
        let (offsets, total) = match self.resolve_labels() {
            Ok(v) => v,
            Err(e) => {
                return Err(e);
            },
        };
        if total > 0x7f_ffff {
            return Err(CodegenError::CodeTooLarge);
        }
        let mut out: Vec<u8> = Vec::new();
        let n = self.opcodes.len();
        let mut i: usize = 0;
        while i < n
            invariant
                i <= n,
                n == ops.len(),
                ops == self.opcodes@,
                out@ == assembled_prefix(ops, i as int),
                first_unresolved_from(ops, 0) == first_unresolved_from(ops, i as int),
                first_duplicate(ops) is None,
                total == placeholder_stream(ops).len(),
                total <= 0x7f_ffff,
                forall|x: u32|
                    #![trigger assoc_find(offsets@, x)]
                    (assoc_find(offsets@, x) is Some <==> declares(ops, x)) && (declares(ops, x)
                        ==> assoc_find(offsets@, x) == Some(label_offset(ops, x) as usize)),
            decreases n - i,
        {
            let op = self.opcodes[i];
            proof {
                lemma_assembled_prefix_len(ops, i as int);
                lemma_placeholder_take_le(ops, i as int);
            }
            match op {
                Op::Raw(x) => write_raw_op(&mut out, &x),
                Op::Label(_) => emit_label(&mut out),
                Op::Jump(x) | Op::IfTrue(x) | Op::IfFalse(x) | Op::IfEq(x) => {
                    match assoc_lookup(&offsets, x) {
                        None => {
                            proof {
                                assert(!declares(ops, x));
                                assert(jump_target(ops[i as int]) == Some(x));
                                assert(first_unresolved_from(ops, i as int) == Some(x));
                            }
                            return Err(CodegenError::UnresolvedLabel(x));
                        },
                        Some(off) => {
                            proof {
                                assert(declares(ops, x));
                                lemma_first_index_of(ops, Op::Label(x));
                                lemma_placeholder_take_le(
                                    ops,
                                    first_index_of(ops, Op::Label(x)),
                                );
                                assert(0 <= label_offset(ops, x) <= total);
                                assert(assoc_find(offsets@, x) == Some(
                                    label_offset(ops, x) as usize,
                                ));
                                assert(off == label_offset(ops, x));
                            }
                            let pos = out.len();
                            let offset: i32 = (off as i32) - (pos as i32);
                            Assembler::write_resolved_jump(&mut out, op, offset);
                            proof {
                                assert(jump_target(ops[i as int]) == Some(x));
                                assert(offset as int == label_offset(ops, x)
                                    - placeholder_stream(ops.take(i as int)).len());
                            }
                        },
                    }
                },
            }
            proof {
                assert(out@ =~= assembled_prefix(ops, i as int + 1));
            }
            i += 1;
        }
        proof {
            assert(first_unresolved_from(ops, n as int) is None);
        }
        Ok(out)
    }

    /// A fresh assembler with no operations and no labels issued.
    pub fn new() -> (r: Assembler)
        ensures
            r.opcodes@ == Seq::<Op>::empty(),
            r.next_label_index == 0,
    {
        Assembler { opcodes: Vec::new(), next_label_index: 0 }
    }

    /// Issues a new label; it has to be declared with [`Label::link`].
    #[must_use]
    pub fn make_label(&mut self) -> (label: Label)
        requires
            old(self).next_label_index < u32::MAX,
        ensures
            label.0 == old(self).next_label_index,
            final(self).next_label_index == old(self).next_label_index + 1,
            final(self).opcodes@ == old(self).opcodes@,
    {
        let label = Label(self.next_label_index);
        self.next_label_index = self.next_label_index + 1;
        label
    }

    /// Pops the top of the stack and jumps to the label when it is true.
    pub fn jump_if_true(&mut self, label: &Label)
        ensures
            final(self).opcodes@ == old(self).opcodes@.push(Op::IfTrue(label.0)),
            final(self).next_label_index == old(self).next_label_index,
    {
        self.emit(Op::IfTrue(label.0))
    }

    /// Pops the top of the stack and jumps to the label when it is false.
    pub fn jump_if_false(&mut self, label: &Label)
        ensures
            final(self).opcodes@ == old(self).opcodes@.push(Op::IfFalse(label.0)),
            final(self).next_label_index == old(self).next_label_index,
    {
        self.emit(Op::IfFalse(label.0))
    }

    /// Pops the two top stack values and jumps to the label when they are
    /// equal.
    pub fn jump_if_eq(&mut self, label: &Label)
        ensures
            final(self).opcodes@ == old(self).opcodes@.push(Op::IfEq(label.0)),
            final(self).next_label_index == old(self).next_label_index,
    {
        self.emit(Op::IfEq(label.0))
    }

    /// Emits an unconditional jump to the label.
    pub fn jump(&mut self, label: &Label)
        ensures
            final(self).opcodes@ == old(self).opcodes@.push(Op::Jump(label.0)),
            final(self).next_label_index == old(self).next_label_index,
    {
        self.emit(Op::Jump(label.0))
    }

    /// Interns the string and emits a push of its constant-pool index.
    pub fn push_interned(&mut self, context: &mut InternContext, value: &str)
        requires
            old(context)@.strings.len() < u32::MAX,
        ensures
            final(context)@.strings == intern_seq(old(context)@.strings, value@),
            final(context)@.ints == old(context)@.ints,
            final(context)@.namespaces == old(context)@.namespaces,
            final(context)@.multinames == old(context)@.multinames,
            final(self).opcodes@ == old(self).opcodes@.push(
                Op::Raw(
                    RawOp::PushString {
                        value: intern_index(old(context)@.strings, value@) as u32,
                    },
                ),
            ),
            final(self).next_label_index == old(self).next_label_index,
    {
        let index = context.intern_string(value);
        self.emit(Op::Raw(RawOp::PushString { value: index }))
    }

    /// Emits a push of a byte immediate.
    pub fn push_immediate(&mut self, value: u8)
        ensures
            final(self).opcodes@ == old(self).opcodes@.push(Op::Raw(RawOp::PushByte { value })),
            final(self).next_label_index == old(self).next_label_index,
    {
        self.emit(Op::Raw(RawOp::PushByte { value }))
    }

    /// Emits a push of a boolean immediate.
    pub fn push_immediate_bool(&mut self, value: bool)
        ensures
            final(self).opcodes@ == old(self).opcodes@.push(
                Op::Raw(
                    if value {
                        RawOp::PushTrue
                    } else {
                        RawOp::PushFalse
                    },
                ),
            ),
            final(self).next_label_index == old(self).next_label_index,
    {
        if value {
            self.emit(Op::Raw(RawOp::PushTrue))
        } else {
            self.emit(Op::Raw(RawOp::PushFalse))
        }
    }

    /// Appends one raw operation unchanged; this is how a generated
    /// operation sequence is handed over for serialization.
    pub fn emit_raw(&mut self, op: RawOp)
        ensures
            final(self).opcodes@ == old(self).opcodes@.push(Op::Raw(op)),
            final(self).next_label_index == old(self).next_label_index,
    {
        self.emit(Op::Raw(op))
    }

    /// Pushes the popped value onto the scope stack.
    pub fn push_scope(&mut self)
        ensures
            final(self).opcodes@ == old(self).opcodes@.push(Op::Raw(RawOp::PushScope)),
            final(self).next_label_index == old(self).next_label_index,
    {
        self.emit(Op::Raw(RawOp::PushScope))
    }

    /// Gets the value of the local register and pushes it onto the stack.
    pub fn get_local(&mut self, index: u32)
        ensures
            final(self).opcodes@ == old(self).opcodes@.push(Op::Raw(RawOp::GetLocal { index })),
            final(self).next_label_index == old(self).next_label_index,
    {
        self.emit(Op::Raw(RawOp::GetLocal { index }))
    }

    /// Pops a value from the stack and stores it in the local register.
    pub fn set_local(&mut self, index: u32)
        ensures
            final(self).opcodes@ == old(self).opcodes@.push(Op::Raw(RawOp::SetLocal { index })),
            final(self).next_label_index == old(self).next_label_index,
    {
        self.emit(Op::Raw(RawOp::SetLocal { index }))
    }

    /// Emits a return-void operation.
    pub fn return_void(&mut self)
        ensures
            final(self).opcodes@ == old(self).opcodes@.push(Op::Raw(RawOp::ReturnVoid)),
            final(self).next_label_index == old(self).next_label_index,
    {
        self.emit(Op::Raw(RawOp::ReturnVoid))
    }
}

impl Default for Assembler {
    /// The default assembler is fresh.
    fn default() -> (r: Assembler)
        ensures
            r.opcodes@ == Seq::<Op>::empty(),
            r.next_label_index == 0,
    {
        Assembler::new()
    }
}

} // verus!
