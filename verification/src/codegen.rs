//! Code generation: lowering the AST into stack-machine operations.

use vstd::prelude::*;
use crate::parser::common::Type;

pub mod assembler;
pub mod context;
pub mod function;

verus! {

/// A symbolic label: an opaque, monotonically issued identifier that the
/// assembler later resolves to a byte offset.
#[derive(Debug, Clone, Copy, PartialEq, Eq, Structural)]
pub struct LabelIndex(pub u32);

/// A raw machine operation of the target virtual machine, in the subset the
/// generator and assembler emit. Pool operands are constant-pool indices.
#[derive(Debug, Clone, Copy, PartialEq, Eq, Structural)]
pub enum Op {
    /// Push a small integer given as an unsigned byte encoding of −128..127.
    PushByte { value: u8 },
    /// Push a short immediate.
    PushShort { value: i16 },
    /// Push the integer-pool entry at `value`.
    PushInt { value: u32 },
    /// Push the string-pool entry at `value`.
    PushString { value: u32 },
    PushTrue,
    PushFalse,
    PushScope,
    GetLocal { index: u32 },
    SetLocal { index: u32 },
    Add,
    Subtract,
    Multiply,
    Divide,
    CoerceA,
    ReturnVoid,
    ReturnValue,
}

/// An operation wrapped for later label resolution: raw operations pass
/// through untouched, the rest are rewritten by the assembler.
#[derive(Debug)]
pub enum CompilerOp {
    /// Written as is, never transformed.
    Raw(Op),
    Label(LabelIndex),
    IfFalse(LabelIndex),
    IfTrue(LabelIndex),
}

/// A visitor that generates bytecode method bodies from an AST: it resolves
/// each function's locals, then lowers the function over the unit-wide
/// constant pool.
#[derive(Debug)]
pub struct CodeGenerator {
    pub context: crate::codegen::context::ConstantPoolContext,
}

impl CodeGenerator {
    /// Compiles one function: a fresh local table is resolved for it, then
    /// its body is lowered against this generator's constant pool.
    pub fn visit_function(&mut self, v: &crate::ast::Function) -> (r: Result<
        crate::codegen::function::MethodBody,
        CodegenError,
    >)
        requires
            v.arguments@.len() + v.block@.len() < u32::MAX,
            crate::codegen::function::block_size(v.block@) <= u32::MAX,
            old(self).context@.strings.len() + crate::codegen::function::block_size(v.block@)
                <= u32::MAX,
            old(self).context@.ints.len() + crate::codegen::function::block_size(v.block@)
                <= u32::MAX,
        ensures
            final(self).context@.namespaces == old(self).context@.namespaces,
            final(self).context@.multinames == old(self).context@.multinames,
            ({
                let locals = crate::codegen::function::resolved_names(*v);
                match crate::codegen::function::function_failure(*v, locals) {
                    None => {
                        &&& r matches Ok(body)
                        &&& body.code@ == crate::codegen::function::function_ops(
                            *v,
                            locals,
                            old(self).context@.strings,
                            old(self).context@.ints,
                        )
                        &&& final(self).context@.strings
                            == crate::codegen::function::function_strings(
                            *v,
                            old(self).context@.strings,
                        )
                        &&& final(self).context@.ints == crate::codegen::function::function_ints(
                            *v,
                            old(self).context@.ints,
                        )
                        &&& body.max_stack == crate::codegen::function::block_peak(v.block@)
                        &&& body.num_locals == locals.len() + 1
                        &&& body.init_scope_depth == 0
                        &&& body.max_scope_depth == 0
                    },
                    Some(f) => {
                        &&& r matches Err(e) && crate::codegen::function::matches_failure(e, f)
                        &&& crate::codegen::function::pool_extends(
                            old(self).context@,
                            final(self).context@,
                        )
                    },
                }
            }),
    {
        let mut var_visitor = crate::codegen::function::LocalResolverVisitor::default();
        proof {
            crate::codegen::function::lemma_register_all_len(
                Seq::empty(),
                crate::codegen::function::argument_names(*v),
            );
            crate::codegen::function::lemma_register_all_len(
                crate::codegen::function::register_all(
                    Seq::empty(),
                    crate::codegen::function::argument_names(*v),
                ),
                crate::codegen::function::block_names(*v),
            );
        }
        match var_visitor.visit_function(v) {
            Ok(()) => {},
            Err(_) => {
                proof {
                    assert(false);
                }
            },
        }
        let mut function_gen = crate::codegen::function::FunctionGenerator::new(var_visitor);
        proof {
            crate::codegen::function::lemma_block_peak_nonneg(v.block@);
        }
        function_gen.visit_function(&mut self.context, v)
    }

    /// Class-level code generation is not implemented; it fails loudly.
    pub fn visit_class(&mut self, _v: &crate::ast::Class) -> (r: Result<(), CodegenError>)
        ensures
            r matches Err(CodegenError::UnsupportedConstruct),
            final(self).context == old(self).context,
    {
        Err(CodegenError::UnsupportedConstruct)
    }

    /// Package-level code generation is not implemented; it fails loudly.
    pub fn visit_package(&mut self, _v: &crate::ast::Package) -> (r: Result<(), CodegenError>)
        ensures
            r matches Err(CodegenError::UnsupportedConstruct),
            final(self).context == old(self).context,
    {
        Err(CodegenError::UnsupportedConstruct)
    }
}

impl Default for CodeGenerator {
    /// The default generator starts from an empty constant pool.
    fn default() -> (r: CodeGenerator)
        ensures
            r.context@.ints == Seq::<i32>::empty(),
            r.context@.strings == Seq::<Seq<char>>::empty(),
            r.context@.namespaces == Seq::<
                crate::codegen::assembler::intern::Namespace,
            >::empty(),
            r.context@.multinames == Seq::<
                crate::codegen::assembler::intern::Multiname,
            >::empty(),
    {
        CodeGenerator { context: Default::default() }
    }
}

/// Errors of the code-generation and assembly pipeline.
#[derive(Debug, PartialEq, Eq)]
pub enum CodegenError {
    /// A variable reference with no entry in the local table.
    UnresolvedIdentifier(String),
    /// A declared type whose coercion is not lowered yet.
    UnsupportedCoercion(Type),
    /// A return type whose epilogue is not lowered yet.
    UnsupportedReturnType(Type),
    /// Class- or package-level code generation is not implemented.
    UnsupportedConstruct,
    /// A label identifier declared more than once before resolution.
    DuplicateLabel(u32),
    /// A jump referencing a label that was never declared.
    UnresolvedLabel(u32),
    /// The instruction stream outgrew the signed 24-bit branch range.
    CodeTooLarge,
}

} // verus!
