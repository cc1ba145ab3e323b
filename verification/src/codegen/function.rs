//! Per-function code generation: resolving local variables to register
//! indices, and lowering a function body into a stack-machine operation
//! sequence with its stack-depth metadata.

use vstd::prelude::*;
use crate::ast::{Expression, Function, Operator, Statement};
use crate::codegen::{CodegenError, Op};
use crate::codegen::assembler::intern::{intern_index, intern_seq, vec_intern_int};
use crate::codegen::context::ConstantPoolContext;
use crate::parser::common::{Type, TypeSpec};
use crate::util::{first_index_of, lemma_first_index_of, str_eq};
use vstd::math::max;

verus! {

/// Register index assigned to `name`: one-based position of its first
/// occurrence in the table. Index 0 is reserved for the implicit receiver
/// and never handed out.
pub open spec fn local_index(names: Seq<Seq<char>>, name: Seq<char>) -> Option<int> {
    if names.contains(name) {
        Some(intern_index(names, name) + 1)
    } else {
        None
    }
}

/// Registration of one name: first registration wins, a later one changes
/// nothing.
pub open spec fn register_name(names: Seq<Seq<char>>, name: Seq<char>) -> Seq<Seq<char>> {
    intern_seq(names, name)
}

/// Registration of a list of names, in order.
pub open spec fn register_all(names: Seq<Seq<char>>, xs: Seq<Seq<char>>) -> Seq<Seq<char>>
    decreases xs.len(),
{
    if xs.len() == 0 {
        names
    } else {
        register_all(register_name(names, xs[0]), xs.drop_first())
    }
}

/// Registering names one past a prefix extends the fold by one step.
proof fn lemma_register_all_push(names: Seq<Seq<char>>, xs: Seq<Seq<char>>, x: Seq<char>)
    ensures
        register_all(names, xs.push(x)) == register_name(register_all(names, xs), x),
    decreases xs.len(),
{
    if xs.len() == 0 {
        assert(xs.push(x)[0] == x);
        assert(xs.push(x).drop_first() =~= xs);
        assert(register_all(names, xs.push(x)) == register_all(
            register_name(names, x),
            xs.push(x).drop_first(),
        ));
        assert(register_all(register_name(names, x), xs) == register_name(names, x));
    } else {
        assert(xs.push(x)[0] == xs[0]);
        assert(xs.push(x).drop_first() =~= xs.drop_first().push(x));
        assert(register_all(names, xs.push(x)) == register_all(
            register_name(names, xs[0]),
            xs.drop_first().push(x),
        ));
        lemma_register_all_push(register_name(names, xs[0]), xs.drop_first(), x);
        assert(register_all(names, xs) == register_all(
            register_name(names, xs[0]),
            xs.drop_first(),
        ));
    }
}

/// Registration adds at most one entry per name.
pub proof fn lemma_register_all_len(names: Seq<Seq<char>>, xs: Seq<Seq<char>>)
    ensures
        names.len() <= register_all(names, xs).len() <= names.len() + xs.len(),
    decreases xs.len(),
{
    if xs.len() > 0 {
        lemma_register_all_len(register_name(names, xs[0]), xs.drop_first());
    }
}

/// The argument names of a function, in declaration order.
pub open spec fn argument_names(f: Function) -> Seq<Seq<char>> {
    f.arguments@.map_values(|a: crate::ast::Argument| a.name@)
}

/// The name a statement declares.
pub open spec fn statement_name(s: Statement) -> Seq<char> {
    match s {
        Statement::Variable { name, .. } => name@,
    }
}

/// The names the function body declares, in visitation order.
pub open spec fn block_names(f: Function) -> Seq<Seq<char>> {
    f.block@.map_values(|s: Box<Statement>| statement_name(*s))
}

/// The local table of a function: arguments first, in declaration order,
/// then the body's declared names in visitation order; first registration
/// wins.
pub open spec fn resolved_names(f: Function) -> Seq<Seq<char>> {
    register_all(register_all(Seq::empty(), argument_names(f)), block_names(f))
}

/// A visitor that collects and assigns register indices to all variables
/// and arguments referenced in one function.
#[derive(Debug)]
pub struct LocalResolverVisitor {
    pub current_index: u32,
    pub variables: Vec<String>,
}

impl LocalResolverVisitor {
    /// The registered names, in registration order; the register index of a
    /// name is its position plus one.
    pub open spec fn names(&self) -> Seq<Seq<char>> {
        self.variables.deep_view()
    }

    /// The index counter mirrors the number of registered names.
    pub open spec fn wf(&self) -> bool {
        self.current_index == self.names().len()
    }

    /// A fresh resolver with no names registered.
    pub fn new() -> (r: LocalResolverVisitor)
        ensures
            r.wf(),
            r.names() == Seq::<Seq<char>>::empty(),
    {
        let r = LocalResolverVisitor { current_index: 0, variables: Vec::new() };
        proof {
            assert(r.names() =~= Seq::<Seq<char>>::empty());
        }
        r
    }

    /// Generates the next unique register index.
    pub fn fetch_index(&mut self) -> (r: u32)
        requires
            old(self).current_index < u32::MAX,
        ensures
            final(self).current_index == old(self).current_index + 1,
            r == final(self).current_index,
            final(self).variables@ == old(self).variables@,
    {
        self.current_index = self.current_index + 1;
        self.current_index
    }

    /// Registers a variable name unless it is already registered.
    pub fn add_var(&mut self, name: &String)
        requires
            old(self).wf(),
            old(self).names().len() < u32::MAX,
        ensures
            final(self).wf(),
            final(self).names() == register_name(old(self).names(), name@),
    {
        if !contains_name(&self.variables, name) {
            let _ = self.fetch_index();
            let ghost before = self.variables.deep_view();
            self.variables.push(name.clone());
            proof {
                assert(self.variables.deep_view() =~= before.push(name@));
            }
        }
    }

    /// Visits a statement, registering the name it declares.
    pub fn visit_statement(&mut self, v: &Statement) -> (r: Result<(), CodegenError>)
        requires
            old(self).wf(),
            old(self).names().len() < u32::MAX,
        ensures
            final(self).wf(),
            final(self).names() == register_name(old(self).names(), statement_name(*v)),
            r is Ok,
    {
        match v {
            Statement::Variable { name, .. } => self.add_var(name),
        }
        Ok(())
    }

    /// Visits a function: registers the arguments in declaration order, then
    /// the names its body declares in visitation order. The resolver is
    /// function-scoped by construction; class and package nodes have no
    /// entry point here.
    pub fn visit_function(&mut self, v: &Function) -> (r: Result<(), CodegenError>)
        requires
            old(self).wf(),
            old(self).names().len() + v.arguments@.len() + v.block@.len() < u32::MAX,
        ensures
            final(self).wf(),
            final(self).names() == register_all(
                register_all(old(self).names(), argument_names(*v)),
                block_names(*v),
            ),
            r is Ok,
    {
        let ghost args = argument_names(*v);
        let ghost start = self.names();
        let n = v.arguments.len();
        let mut i: usize = 0;
        proof {
            assert(args.take(0) =~= Seq::<Seq<char>>::empty());
        }
        while i < n
            invariant
                i <= n,
                n == v.arguments@.len(),
                args == argument_names(*v),
                self.wf(),
                self.names() == register_all(start, args.take(i as int)),
                self.names().len() <= start.len() + i,
                start.len() + n + v.block@.len() < u32::MAX,
            decreases n - i,
        {
            self.add_var(&v.arguments[i].name);
            proof {
                assert(args.take(i as int + 1) =~= args.take(i as int).push(args[i as int]));
                lemma_register_all_push(start, args.take(i as int), args[i as int]);
            }
            i += 1;
        }
        proof {
            assert(args.take(n as int) =~= args);
        }
        let ghost mid = self.names();
        let ghost names = block_names(*v);
        let m = v.block.len();
        let mut j: usize = 0;
        proof {
            assert(names.take(0) =~= Seq::<Seq<char>>::empty());
        }
        while j < m
            invariant
                j <= m,
                m == v.block@.len(),
                names == block_names(*v),
                self.wf(),
                self.names() == register_all(mid, names.take(j as int)),
                self.names().len() <= mid.len() + j,
                mid.len() + m <= u32::MAX,
            decreases m - j,
        {
            match &*v.block[j] {
                Statement::Variable { name, .. } => self.add_var(name),
            }
            proof {
                assert(names.take(j as int + 1) =~= names.take(j as int).push(names[j as int]));
                lemma_register_all_push(mid, names.take(j as int), names[j as int]);
            }
            j += 1;
        }
        proof {
            assert(names.take(m as int) =~= names);
        }
        Ok(())
    }
}

impl Default for LocalResolverVisitor {
    /// The default resolver is fresh.
    fn default() -> (r: LocalResolverVisitor)
        ensures
            r.wf(),
            r.names() == Seq::<Seq<char>>::empty(),
    {
        LocalResolverVisitor::new()
    }
}

/// Whether the table already holds `name`.
fn contains_name(names: &Vec<String>, name: &String) -> (r: bool)
    ensures
        r == names.deep_view().contains(name@),
{
    let ghost s = names.deep_view();
    let n = names.len();
    let mut i: usize = 0;
    while i < n
        invariant
            i <= n,
            n == names@.len(),
            s == names.deep_view(),
            forall|j: int| 0 <= j < i ==> s[j] != name@,
        decreases n - i,
    {
        if str_eq(names[i].as_str(), name.as_str()) {
            proof {
                assert(s[i as int] == name@);
            }
            return true;
        }
        i += 1;
    }
    proof {
        if s.contains(name@) {
            let k = choose|k: int| 0 <= k < s.len() && s[k] == name@;
            assert(s[k] != name@);
        }
    }
    false
}

/// A failure of code generation, at the specification level.
pub ghost enum GenFailure {
    /// A variable reference with no entry in the local table.
    Unresolved(Seq<char>),
    /// A declared type whose coercion is not lowered.
    Coercion(TypeSpec),
    /// A return type whose epilogue is not lowered.
    ReturnType(TypeSpec),
}

/// Whether a reported error is the stated failure.
pub open spec fn matches_failure(e: CodegenError, f: GenFailure) -> bool {
    match (e, f) {
        (CodegenError::UnresolvedIdentifier(n), GenFailure::Unresolved(s)) => n@ == s,
        (CodegenError::UnsupportedCoercion(t), GenFailure::Coercion(ts)) => t@ == ts,
        (CodegenError::UnsupportedReturnType(t), GenFailure::ReturnType(ts)) => t@ == ts,
        _ => false,
    }
}

/// The node count of an expression; it bounds every resource the lowering
/// consumes.
pub open spec fn expr_size(e: Expression) -> nat
    decreases e,
{
    match e {
        Expression::BinaryOperation { lhs, rhs, .. } => 1 + expr_size(*lhs) + expr_size(*rhs),
        _ => 1,
    }
}

/// The peak simulated stack height while evaluating an expression lowered in
/// post-order: operands stack below the right-hand side's evaluation.
pub open spec fn expr_peak(e: Expression) -> int
    decreases e,
{
    match e {
        Expression::BinaryOperation { lhs, rhs, .. } => max(expr_peak(*lhs), 1 + expr_peak(*rhs)),
        _ => 1,
    }
}

/// The peak is at least one and never exceeds the expression size.
pub proof fn lemma_expr_peak_bounds(e: Expression)
    ensures
        1 <= expr_peak(e) <= expr_size(e),
    decreases e,
{
    match e {
        Expression::BinaryOperation { lhs, rhs, .. } => {
            lemma_expr_peak_bounds(*lhs);
            lemma_expr_peak_bounds(*rhs);
        },
        _ => {},
    }
}

/// The first failure lowering an expression meets, in post-order.
pub open spec fn expr_failure(e: Expression, locals: Seq<Seq<char>>) -> Option<GenFailure>
    decreases e,
{
    match e {
        Expression::Variable(name) => if local_index(locals, name@) is None {
            Some(GenFailure::Unresolved(name@))
        } else {
            None
        },
        Expression::BinaryOperation { lhs, rhs, .. } => if expr_failure(*lhs, locals) is Some {
            expr_failure(*lhs, locals)
        } else {
            expr_failure(*rhs, locals)
        },
        _ => None,
    }
}

/// The arithmetic operation an operator lowers to.
pub open spec fn op_for_operator(o: Operator) -> Op {
    match o {
        Operator::Add => Op::Add,
        Operator::Sub => Op::Subtract,
        Operator::Mul => Op::Multiply,
        Operator::Div => Op::Divide,
    }
}

/// Whether an integer literal needs the constant pool: it fits neither the
/// single-byte nor the short immediate form.
pub open spec fn needs_int_pool(v: i32) -> bool {
    v < -32768 || v > 32767
}

/// The narrowest push operation for an integer literal: the single-byte
/// immediate for −128..127 (as an unsigned byte encoding), else the short
/// immediate, else a push of the interned pool entry.
pub open spec fn push_int_op(v: i32, ints: Seq<i32>) -> Op {
    if -128 <= v <= 127 {
        Op::PushByte {
            value: (if v >= 0 {
                v as int
            } else {
                v + 256
            }) as u8,
        }
    } else if !needs_int_pool(v) {
        Op::PushShort { value: v as i16 }
    } else {
        Op::PushInt { value: intern_index(ints, v) as u32 }
    }
}

/// The string pool after lowering an expression, in post-order.
pub open spec fn gen_expr_strings(e: Expression, strings: Seq<Seq<char>>) -> Seq<Seq<char>>
    decreases e,
{
    match e {
        Expression::String(s) => intern_seq(strings, s@),
        Expression::BinaryOperation { lhs, rhs, .. } => gen_expr_strings(
            *rhs,
            gen_expr_strings(*lhs, strings),
        ),
        _ => strings,
    }
}

/// The integer pool after lowering an expression, in post-order.
pub open spec fn gen_expr_ints(e: Expression, ints: Seq<i32>) -> Seq<i32>
    decreases e,
{
    match e {
        Expression::Integer(v) => if needs_int_pool(v) {
            intern_seq(ints, v)
        } else {
            ints
        },
        Expression::BinaryOperation { lhs, rhs, .. } => gen_expr_ints(
            *rhs,
            gen_expr_ints(*lhs, ints),
        ),
        _ => ints,
    }
}

/// The operations lowering an expression emits, in post-order: left operand,
/// right operand, then the arithmetic operation.
pub open spec fn gen_expr_ops(
    e: Expression,
    locals: Seq<Seq<char>>,
    strings: Seq<Seq<char>>,
    ints: Seq<i32>,
) -> Seq<Op>
    decreases e,
{
    match e {
        Expression::Integer(v) => seq![push_int_op(v, ints)],
        Expression::String(s) => seq![Op::PushString { value: intern_index(strings, s@) as u32 }],
        Expression::Bool(b) => seq![
            if b {
                Op::PushTrue
            } else {
                Op::PushFalse
            },
        ],
        Expression::Variable(name) => match local_index(locals, name@) {
            Some(k) => seq![Op::GetLocal { index: k as u32 }],
            None => Seq::empty(),
        },
        Expression::BinaryOperation { lhs, operator, rhs } => gen_expr_ops(
            *lhs,
            locals,
            strings,
            ints,
        ) + gen_expr_ops(*rhs, locals, gen_expr_strings(*lhs, strings), gen_expr_ints(*lhs, ints))
            + seq![op_for_operator(operator)],
    }
}

/// Lowering only appends to the pools, and by at most one entry per node.
pub proof fn lemma_gen_expr_growth(e: Expression, strings: Seq<Seq<char>>, ints: Seq<i32>)
    ensures
        strings.len() <= gen_expr_strings(e, strings).len() <= strings.len() + expr_size(e),
        forall|j: int| 0 <= j < strings.len() ==> gen_expr_strings(e, strings)[j] == strings[j],
        ints.len() <= gen_expr_ints(e, ints).len() <= ints.len() + expr_size(e),
        forall|j: int| 0 <= j < ints.len() ==> gen_expr_ints(e, ints)[j] == ints[j],
    decreases e,
{
    match e {
        Expression::BinaryOperation { lhs, rhs, .. } => {
            lemma_gen_expr_growth(*lhs, strings, ints);
            lemma_gen_expr_growth(*rhs, gen_expr_strings(*lhs, strings), gen_expr_ints(*lhs, ints));
        },
        _ => {},
    }
}

/// Register index of `name`, or `None` when it is not in the table.
fn lookup_local(names: &Vec<String>, name: &String) -> (r: Option<u32>)
    requires
        names@.len() < u32::MAX,
    ensures
        match local_index(names.deep_view(), name@) {
            Some(k) => r == Some(k as u32),
            None => r is None,
        },
{
    let ghost s = names.deep_view();
    let n = names.len();
    let mut i: usize = 0;
    while i < n
        invariant
            i <= n,
            n == names@.len() < u32::MAX,
            s == names.deep_view(),
            forall|j: int| 0 <= j < i ==> s[j] != name@,
        decreases n - i,
    {
        if str_eq(names[i].as_str(), name.as_str()) {
            proof {
                lemma_first_index_of(s, name@);
                assert(s[i as int] == name@);
                assert(s.contains(name@));
                assert(first_index_of(s, name@) >= i);
            }
            return Some(i as u32 + 1);
        }
        i += 1;
    }
    proof {
        if s.contains(name@) {
            let k = choose|k: int| 0 <= k < s.len() && s[k] == name@;
            assert(s[k] != name@);
        }
    }
    None
}

/// One pool extends another: nothing is removed or changed, entries are only
/// appended.
pub open spec fn pool_extends(
    a: crate::codegen::assembler::intern::PoolModel,
    b: crate::codegen::assembler::intern::PoolModel,
) -> bool {
    &&& a.strings.len() <= b.strings.len()
    &&& forall|j: int| 0 <= j < a.strings.len() ==> b.strings[j] == a.strings[j]
    &&& a.ints.len() <= b.ints.len()
    &&& forall|j: int| 0 <= j < a.ints.len() ==> b.ints[j] == a.ints[j]
    &&& b.namespaces == a.namespaces
    &&& b.multinames == a.multinames
}

/// The initializer expression of a statement.
pub open spec fn stmt_value(s: Statement) -> Expression {
    match s {
        Statement::Variable { value, .. } => *value,
    }
}

/// The first failure lowering a statement meets: its initializer first, then
/// an unsupported declared type, then an unresolvable declared name.
pub open spec fn stmt_failure(s: Statement, locals: Seq<Seq<char>>) -> Option<GenFailure> {
    match s {
        Statement::Variable { name, var_type, value } => if expr_failure(*value, locals)
            is Some {
            expr_failure(*value, locals)
        } else if !(var_type@ is Any) {
            Some(GenFailure::Coercion(var_type@))
        } else if local_index(locals, name@) is None {
            Some(GenFailure::Unresolved(name@))
        } else {
            None
        },
    }
}

/// The operations lowering a statement emits: the initializer, the coercion
/// to the declared type, then a store into the declared local.
pub open spec fn stmt_ops(
    s: Statement,
    locals: Seq<Seq<char>>,
    strings: Seq<Seq<char>>,
    ints: Seq<i32>,
) -> Seq<Op> {
    match s {
        Statement::Variable { name, value, .. } => gen_expr_ops(*value, locals, strings, ints)
            + seq![Op::CoerceA] + (match local_index(locals, name@) {
            Some(k) => seq![Op::SetLocal { index: k as u32 }],
            None => Seq::empty(),
        }),
    }
}

/// The string pool after lowering a statement.
pub open spec fn stmt_strings(s: Statement, strings: Seq<Seq<char>>) -> Seq<Seq<char>> {
    gen_expr_strings(stmt_value(s), strings)
}

/// The integer pool after lowering a statement.
pub open spec fn stmt_ints(s: Statement, ints: Seq<i32>) -> Seq<i32> {
    gen_expr_ints(stmt_value(s), ints)
}

/// The node count of a statement.
pub open spec fn stmt_size(s: Statement) -> nat {
    expr_size(stmt_value(s))
}

/// The peak simulated stack height while executing a statement.
pub open spec fn stmt_peak(s: Statement) -> int {
    expr_peak(stmt_value(s))
}

/// The first failure lowering a block meets, in statement order.
pub open spec fn block_failure(stmts: Seq<Box<Statement>>, locals: Seq<Seq<char>>) -> Option<
    GenFailure,
>
    decreases stmts.len(),
{
    if stmts.len() == 0 {
        None
    } else if stmt_failure(*stmts[0], locals) is Some {
        stmt_failure(*stmts[0], locals)
    } else {
        block_failure(stmts.drop_first(), locals)
    }
}

/// The operations lowering a block emits, threading the pools through the
/// statements in order.
pub open spec fn block_ops(
    stmts: Seq<Box<Statement>>,
    locals: Seq<Seq<char>>,
    strings: Seq<Seq<char>>,
    ints: Seq<i32>,
) -> Seq<Op>
    decreases stmts.len(),
{
    if stmts.len() == 0 {
        Seq::empty()
    } else {
        stmt_ops(*stmts[0], locals, strings, ints) + block_ops(
            stmts.drop_first(),
            locals,
            stmt_strings(*stmts[0], strings),
            stmt_ints(*stmts[0], ints),
        )
    }
}

/// The string pool after lowering a block.
pub open spec fn block_strings(stmts: Seq<Box<Statement>>, strings: Seq<Seq<char>>) -> Seq<
    Seq<char>,
>
    decreases stmts.len(),
{
    if stmts.len() == 0 {
        strings
    } else {
        block_strings(stmts.drop_first(), stmt_strings(*stmts[0], strings))
    }
}

/// The integer pool after lowering a block.
pub open spec fn block_ints(stmts: Seq<Box<Statement>>, ints: Seq<i32>) -> Seq<i32>
    decreases stmts.len(),
{
    if stmts.len() == 0 {
        ints
    } else {
        block_ints(stmts.drop_first(), stmt_ints(*stmts[0], ints))
    }
}

/// The node count of a block.
pub open spec fn block_size(stmts: Seq<Box<Statement>>) -> nat
    decreases stmts.len(),
{
    if stmts.len() == 0 {
        0
    } else {
        stmt_size(*stmts[0]) + block_size(stmts.drop_first())
    }
}

/// The peak simulated stack height over a whole block.
pub open spec fn block_peak(stmts: Seq<Box<Statement>>) -> int
    decreases stmts.len(),
{
    if stmts.len() == 0 {
        0
    } else {
        max(stmt_peak(*stmts[0]), block_peak(stmts.drop_first()))
    }
}

/// The block peak is never negative.
pub proof fn lemma_block_peak_nonneg(stmts: Seq<Box<Statement>>)
    ensures
        block_peak(stmts) >= 0,
    decreases stmts.len(),
{
    if stmts.len() > 0 {
        lemma_block_peak_nonneg(stmts.drop_first());
        lemma_expr_peak_bounds(stmt_value(*stmts[0]));
    }
}

/// Extending a block by one statement extends each fold by one step.
proof fn lemma_block_push(
    stmts: Seq<Box<Statement>>,
    s: Box<Statement>,
    locals: Seq<Seq<char>>,
    strings: Seq<Seq<char>>,
    ints: Seq<i32>,
)
    ensures
        block_strings(stmts.push(s), strings) == stmt_strings(*s, block_strings(stmts, strings)),
        block_ints(stmts.push(s), ints) == stmt_ints(*s, block_ints(stmts, ints)),
        block_failure(stmts.push(s), locals) == if block_failure(stmts, locals) is Some {
            block_failure(stmts, locals)
        } else {
            stmt_failure(*s, locals)
        },
        block_ops(stmts.push(s), locals, strings, ints) == block_ops(stmts, locals, strings, ints)
            + stmt_ops(*s, locals, block_strings(stmts, strings), block_ints(stmts, ints)),
        block_peak(stmts.push(s)) == max(block_peak(stmts), stmt_peak(*s)),
        block_size(stmts.push(s)) == block_size(stmts) + stmt_size(*s),
    decreases stmts.len(),
{
    reveal_with_fuel(block_strings, 2);
    reveal_with_fuel(block_ints, 2);
    reveal_with_fuel(block_failure, 2);
    reveal_with_fuel(block_ops, 2);
    reveal_with_fuel(block_peak, 2);
    reveal_with_fuel(block_size, 2);
    if stmts.len() == 0 {
        assert(stmts.push(s)[0] == s);
        assert(stmts.push(s).drop_first() =~= stmts);
        assert(block_ops(stmts.push(s), locals, strings, ints) =~= stmt_ops(
            *s,
            locals,
            strings,
            ints,
        ));
        lemma_expr_peak_bounds(stmt_value(*s));
    } else {
        assert(stmts.push(s)[0] == stmts[0]);
        assert(stmts.push(s).drop_first() =~= stmts.drop_first().push(s));
        lemma_block_push(
            stmts.drop_first(),
            s,
            locals,
            stmt_strings(*stmts[0], strings),
            stmt_ints(*stmts[0], ints),
        );
        assert(block_ops(stmts.push(s), locals, strings, ints) =~= block_ops(
            stmts,
            locals,
            strings,
            ints,
        ) + stmt_ops(*s, locals, block_strings(stmts, strings), block_ints(stmts, ints)));
    }
}

/// A block's node count splits around any point.
proof fn lemma_block_size_split(stmts: Seq<Box<Statement>>, j: int)
    requires
        0 <= j <= stmts.len(),
    ensures
        block_size(stmts) == block_size(stmts.take(j)) + block_size(stmts.skip(j)),
    decreases j,
{
    if j == 0 {
        assert(stmts.take(0) =~= Seq::<Box<Statement>>::empty());
        assert(stmts.skip(0) =~= stmts);
    } else {
        assert(stmts.take(j)[0] == stmts[0]);
        assert(stmts.take(j).drop_first() =~= stmts.drop_first().take(j - 1));
        assert(stmts.skip(j) =~= stmts.drop_first().skip(j - 1));
        lemma_block_size_split(stmts.drop_first(), j - 1);
    }
}

/// The first failure generating a whole function meets: its statements in
/// order, then the epilogue's return-type check.
pub open spec fn function_failure(f: Function, locals: Seq<Seq<char>>) -> Option<GenFailure> {
    if block_failure(f.block@, locals) is Some {
        block_failure(f.block@, locals)
    } else if !(f.return_type@ is Void) {
        Some(GenFailure::ReturnType(f.return_type@))
    } else {
        None
    }
}

/// The operations generating a whole function emits: the receiver-and-scope
/// prologue, the lowered statements, and the return-void epilogue.
pub open spec fn function_ops(
    f: Function,
    locals: Seq<Seq<char>>,
    strings: Seq<Seq<char>>,
    ints: Seq<i32>,
) -> Seq<Op> {
    seq![Op::GetLocal { index: 0 }, Op::PushScope] + block_ops(f.block@, locals, strings, ints)
        + seq![Op::ReturnVoid]
}

/// The string pool after generating a whole function.
pub open spec fn function_strings(f: Function, strings: Seq<Seq<char>>) -> Seq<Seq<char>> {
    block_strings(f.block@, strings)
}

/// The integer pool after generating a whole function.
pub open spec fn function_ints(f: Function, ints: Seq<i32>) -> Seq<i32> {
    block_ints(f.block@, ints)
}

/// The method-body record for one generated function: the stack budget, the
/// local count including the implicit receiver, the scope depths, and the
/// operation sequence handed to the assembler.
#[derive(Debug, PartialEq)]
pub struct MethodBody {
    pub max_stack: u32,
    pub num_locals: u32,
    pub init_scope_depth: u32,
    pub max_scope_depth: u32,
    pub code: Vec<Op>,
}

/// Copies an operation sequence.
fn copy_ops(v: &Vec<Op>) -> (r: Vec<Op>)
    ensures
        r@ == v@,
{
    let mut r: Vec<Op> = Vec::new();
    let n = v.len();
    let mut i: usize = 0;
    while i < n
        invariant
            i <= n,
            n == v@.len(),
            r@ == v@.take(i as int),
        decreases n - i,
    {
        r.push(v[i]);
        proof {
            assert(v@.take(i as int + 1) =~= v@.take(i as int).push(v@[i as int]));
        }
        i += 1;
    }
    proof {
        assert(v@.take(n as int) =~= v@);
    }
    r
}

/// The per-function code generator: it consumes the resolver's local table
/// and lowers the function body into operations while simulating the stack
/// height.
#[derive(Debug)]
pub struct FunctionGenerator {
    pub locals: Vec<String>,
    pub max_stack: u32,
    pub current_stack: u32,
    pub code: Vec<Op>,
}

impl FunctionGenerator {
    /// The local table, as registered names in index order.
    pub open spec fn names(&self) -> Seq<Seq<char>> {
        self.locals.deep_view()
    }

    /// The running maximum dominates the current height, and the table is
    /// small enough for register indices to fit.
    pub open spec fn wf(&self) -> bool {
        self.current_stack <= self.max_stack && self.names().len() < u32::MAX
    }

    /// A generator over the local table a resolver produced.
    pub fn new(variables: LocalResolverVisitor) -> (r: FunctionGenerator)
        requires
            variables.names().len() < u32::MAX,
        ensures
            r.wf(),
            r.names() == variables.names(),
            r.max_stack == 0,
            r.current_stack == 0,
            r.code@ == Seq::<Op>::empty(),
    {
        FunctionGenerator {
            locals: variables.variables,
            code: Vec::new(),
            max_stack: 0,
            current_stack: 0,
        }
    }

    /// Appends one raw operation.
    fn emit_op(&mut self, op: Op)
        ensures
            final(self).code@ == old(self).code@.push(op),
            final(self).locals == old(self).locals,
            final(self).max_stack == old(self).max_stack,
            final(self).current_stack == old(self).current_stack,
    {
        self.code.push(op);
    }

    /// Marks one value pushed, raising the running maximum when passed.
    fn stack_push(&mut self)
        requires
            old(self).wf(),
            old(self).current_stack < u32::MAX,
        ensures
            final(self).wf(),
            final(self).current_stack == old(self).current_stack + 1,
            final(self).max_stack == max(
                old(self).max_stack as int,
                old(self).current_stack + 1,
            ),
            final(self).locals == old(self).locals,
            final(self).code == old(self).code,
    {
        self.current_stack = self.current_stack + 1;
        if self.max_stack < self.current_stack {
            self.max_stack = self.current_stack
        }
    }

    /// Marks one value popped.
    fn stack_pop(&mut self)
        requires
            old(self).wf(),
            old(self).current_stack >= 1,
        ensures
            final(self).wf(),
            final(self).current_stack == old(self).current_stack - 1,
            final(self).max_stack == old(self).max_stack,
            final(self).locals == old(self).locals,
            final(self).code == old(self).code,
    {
        self.current_stack = self.current_stack - 1;
    }

    /// Pushes an integer literal in the narrowest encoding that fits: the
    /// single-byte immediate, else the short immediate, else a constant-pool
    /// entry interned on demand.
    fn push_int(&mut self, pool: &mut ConstantPoolContext, val: i32)
        requires
            old(self).wf(),
            old(self).current_stack < u32::MAX,
            old(pool)@.ints.len() < u32::MAX,
        ensures
            final(self).wf(),
            final(self).locals == old(self).locals,
            final(self).code@ == old(self).code@.push(push_int_op(val, old(pool)@.ints)),
            final(pool)@.ints == if needs_int_pool(val) {
                intern_seq(old(pool)@.ints, val)
            } else {
                old(pool)@.ints
            },
            final(pool)@.strings == old(pool)@.strings,
            final(pool)@.namespaces == old(pool)@.namespaces,
            final(pool)@.multinames == old(pool)@.multinames,
            final(self).current_stack == old(self).current_stack + 1,
            final(self).max_stack == max(
                old(self).max_stack as int,
                old(self).current_stack + 1,
            ),
    {
        if val >= -128 && val <= 127 {
            let value: u8 = if val >= 0 {
                val as u8
            } else {
                (val + 256) as u8
            };
            self.emit_op(Op::PushByte { value });
        } else if val >= -32768 && val <= 32767 {
            self.emit_op(Op::PushShort { value: val as i16 });
        } else {
            let index = vec_intern_int(&mut pool.const_pool.ints, val);
            self.emit_op(Op::PushInt { value: index });
        }
        self.stack_push()
    }

    /// Interns a string literal and pushes it by constant-pool index.
    fn push_string(&mut self, pool: &mut ConstantPoolContext, val: &String)
        requires
            old(self).wf(),
            old(self).current_stack < u32::MAX,
            old(pool)@.strings.len() < u32::MAX,
        ensures
            final(self).wf(),
            final(self).locals == old(self).locals,
            final(self).code@ == old(self).code@.push(
                (Op::PushString { value: intern_index(old(pool)@.strings, val@) as u32 }),
            ),
            final(pool)@.strings == intern_seq(old(pool)@.strings, val@),
            final(pool)@.ints == old(pool)@.ints,
            final(pool)@.namespaces == old(pool)@.namespaces,
            final(pool)@.multinames == old(pool)@.multinames,
            final(self).current_stack == old(self).current_stack + 1,
            final(self).max_stack == max(
                old(self).max_stack as int,
                old(self).current_stack + 1,
            ),
    {
        let index = pool.add_string(val);
        self.emit_op(Op::PushString { value: index });
        self.stack_push()
    }

    /// Pushes a boolean literal.
    fn push_bool(&mut self, val: bool)
        requires
            old(self).wf(),
            old(self).current_stack < u32::MAX,
        ensures
            final(self).wf(),
            final(self).locals == old(self).locals,
            final(self).code@ == old(self).code@.push(
                (if val {
                    Op::PushTrue
                } else {
                    Op::PushFalse
                }),
            ),
            final(self).current_stack == old(self).current_stack + 1,
            final(self).max_stack == max(
                old(self).max_stack as int,
                old(self).current_stack + 1,
            ),
    {
        if val {
            self.emit_op(Op::PushTrue)
        } else {
            self.emit_op(Op::PushFalse)
        }
        self.stack_push()
    }

    /// Pushes the value of the named local register, or reports the name as
    /// unresolved.
    fn get_local(&mut self, name: &String) -> (r: Result<(), CodegenError>)
        requires
            old(self).wf(),
            old(self).current_stack < u32::MAX,
        ensures
            final(self).wf(),
            final(self).locals == old(self).locals,
            match local_index(old(self).names(), name@) {
                Some(k) => {
                    &&& r is Ok
                    &&& final(self).code@ == old(self).code@.push(
                        (Op::GetLocal { index: k as u32 }),
                    )
                    &&& final(self).current_stack == old(self).current_stack + 1
                    &&& final(self).max_stack == max(
                        old(self).max_stack as int,
                        old(self).current_stack + 1,
                    )
                },
                None => {
                    &&& r matches Err(e) && e matches CodegenError::UnresolvedIdentifier(n) && n@
                        == name@
                    &&& final(self).code == old(self).code
                    &&& final(self).current_stack == old(self).current_stack
                    &&& final(self).max_stack == old(self).max_stack
                },
            },
    {
        match lookup_local(&self.locals, name) {
            Some(index) => {
                self.emit_op(Op::GetLocal { index });
                self.stack_push();
                Ok(())
            },
            None => Err(CodegenError::UnresolvedIdentifier(name.clone())),
        }
    }

    /// Pops a value into the named local register, or reports the name as
    /// unresolved.
    fn set_local(&mut self, name: &String) -> (r: Result<(), CodegenError>)
        requires
            old(self).wf(),
            old(self).current_stack >= 1,
        ensures
            final(self).wf(),
            final(self).locals == old(self).locals,
            final(self).max_stack == old(self).max_stack,
            match local_index(old(self).names(), name@) {
                Some(k) => {
                    &&& r is Ok
                    &&& final(self).code@ == old(self).code@.push(
                        (Op::SetLocal { index: k as u32 }),
                    )
                    &&& final(self).current_stack == old(self).current_stack - 1
                },
                None => {
                    &&& r matches Err(e) && e matches CodegenError::UnresolvedIdentifier(n) && n@
                        == name@
                    &&& final(self).code == old(self).code
                    &&& final(self).current_stack == old(self).current_stack
                },
            },
    {
        match lookup_local(&self.locals, name) {
            Some(index) => {
                self.emit_op(Op::SetLocal { index });
                self.stack_pop();
                Ok(())
            },
            None => Err(CodegenError::UnresolvedIdentifier(name.clone())),
        }
    }

    /// Lowers one expression in post-order; on success exactly one value is
    /// left on the simulated stack and the running maximum accounts for the
    /// expression's peak.
    pub fn visit_expression(&mut self, pool: &mut ConstantPoolContext, v: &Expression) -> (r:
        Result<(), CodegenError>)
        requires
            old(self).wf(),
            old(self).current_stack + expr_size(*v) <= u32::MAX,
            old(pool)@.strings.len() + expr_size(*v) <= u32::MAX,
            old(pool)@.ints.len() + expr_size(*v) <= u32::MAX,
        ensures
            final(self).wf(),
            final(self).locals == old(self).locals,
            final(pool)@.namespaces == old(pool)@.namespaces,
            final(pool)@.multinames == old(pool)@.multinames,
            match expr_failure(*v, old(self).names()) {
                None => {
                    &&& r is Ok
                    &&& final(self).code@ == old(self).code@ + gen_expr_ops(
                        *v,
                        old(self).names(),
                        old(pool)@.strings,
                        old(pool)@.ints,
                    )
                    &&& final(pool)@.strings == gen_expr_strings(*v, old(pool)@.strings)
                    &&& final(pool)@.ints == gen_expr_ints(*v, old(pool)@.ints)
                    &&& final(self).current_stack == old(self).current_stack + 1
                    &&& final(self).max_stack == max(
                        old(self).max_stack as int,
                        old(self).current_stack + expr_peak(*v),
                    )
                },
                Some(f) => {
                    &&& r matches Err(e) && matches_failure(e, f)
                    &&& pool_extends(old(pool)@, final(pool)@)
                },
            },
        decreases *v,
    {
        match v {
            Expression::BinaryOperation { lhs, operator, rhs } => {
                proof {
                    lemma_expr_peak_bounds(**lhs);
                    lemma_expr_peak_bounds(**rhs);
                    lemma_gen_expr_growth(**lhs, old(pool)@.strings, old(pool)@.ints);
                }
                let ghost strings0 = pool@.strings;
                let ghost ints0 = pool@.ints;
                let ghost code0 = self.code@;
                match self.visit_expression(pool, lhs) {
                    Ok(()) => {},
                    Err(e) => {
                        return Err(e);
                    },
                }
                proof {
                    lemma_gen_expr_growth(**rhs, pool@.strings, pool@.ints);
                }
                match self.visit_expression(pool, rhs) {
                    Ok(()) => {},
                    Err(e) => {
                        return Err(e);
                    },
                }
                match operator {
                    Operator::Add => self.emit_op(Op::Add),
                    Operator::Sub => self.emit_op(Op::Subtract),
                    Operator::Mul => self.emit_op(Op::Multiply),
                    Operator::Div => self.emit_op(Op::Divide),
                }
                self.stack_pop();
                proof {
                    if expr_failure(*v, old(self).names()) is None {
                        assert(self.code@ =~= code0 + gen_expr_ops(
                            *v,
                            old(self).names(),
                            strings0,
                            ints0,
                        ));
                    }
                }
                Ok(())
            },
            Expression::Integer(val) => {
                self.push_int(pool, *val);
                proof {
                    assert(self.code@ =~= old(self).code@ + gen_expr_ops(
                        *v,
                        old(self).names(),
                        old(pool)@.strings,
                        old(pool)@.ints,
                    ));
                }
                Ok(())
            },
            Expression::String(val) => {
                self.push_string(pool, val);
                proof {
                    assert(self.code@ =~= old(self).code@ + gen_expr_ops(
                        *v,
                        old(self).names(),
                        old(pool)@.strings,
                        old(pool)@.ints,
                    ));
                }
                Ok(())
            },
            Expression::Bool(x) => {
                self.push_bool(*x);
                proof {
                    assert(self.code@ =~= old(self).code@ + gen_expr_ops(
                        *v,
                        old(self).names(),
                        old(pool)@.strings,
                        old(pool)@.ints,
                    ));
                }
                Ok(())
            },
            Expression::Variable(name) => {
                let r = self.get_local(name);
                proof {
                    if local_index(old(self).names(), name@) is Some {
                        assert(self.code@ =~= old(self).code@ + gen_expr_ops(
                            *v,
                            old(self).names(),
                            old(pool)@.strings,
                            old(pool)@.ints,
                        ));
                    }
                }
                r
            },
        }
    }

    /// Lowers one statement: the initializer expression, a coercion to the
    /// declared type, and a store into the declared local; only the `any`
    /// coercion is lowered, any other declared type fails.
    pub fn visit_statement(&mut self, pool: &mut ConstantPoolContext, v: &Statement) -> (r: Result<
        (),
        CodegenError,
    >)
        requires
            old(self).wf(),
            old(self).current_stack + stmt_size(*v) <= u32::MAX,
            old(pool)@.strings.len() + stmt_size(*v) <= u32::MAX,
            old(pool)@.ints.len() + stmt_size(*v) <= u32::MAX,
        ensures
            final(self).wf(),
            final(self).locals == old(self).locals,
            final(pool)@.namespaces == old(pool)@.namespaces,
            final(pool)@.multinames == old(pool)@.multinames,
            match stmt_failure(*v, old(self).names()) {
                None => {
                    &&& r is Ok
                    &&& final(self).code@ == old(self).code@ + stmt_ops(
                        *v,
                        old(self).names(),
                        old(pool)@.strings,
                        old(pool)@.ints,
                    )
                    &&& final(pool)@.strings == stmt_strings(*v, old(pool)@.strings)
                    &&& final(pool)@.ints == stmt_ints(*v, old(pool)@.ints)
                    &&& final(self).current_stack == old(self).current_stack
                    &&& final(self).max_stack == max(
                        old(self).max_stack as int,
                        old(self).current_stack + stmt_peak(*v),
                    )
                },
                Some(f) => {
                    &&& r matches Err(e) && matches_failure(e, f)
                    &&& pool_extends(old(pool)@, final(pool)@)
                },
            },
    {
        match v {
            Statement::Variable { name, var_type, value } => {
                proof {
                    lemma_gen_expr_growth(**value, old(pool)@.strings, old(pool)@.ints);
                }
                let ghost code0 = self.code@;
                match self.visit_expression(pool, value) {
                    Ok(()) => {},
                    Err(e) => {
                        return Err(e);
                    },
                }
                match var_type {
                    Type::Any => self.emit_op(Op::CoerceA),
                    _ => {
                        return Err(CodegenError::UnsupportedCoercion(var_type.clone()));
                    },
                }
                match self.set_local(name) {
                    Ok(()) => {},
                    Err(e) => {
                        return Err(e);
                    },
                }
                proof {
                    assert(self.code@ =~= code0 + stmt_ops(
                        *v,
                        old(self).names(),
                        old(pool)@.strings,
                        old(pool)@.ints,
                    ));
                }
                Ok(())
            },
        }
    }

    /// Generates code for a whole function: the receiver-and-scope prologue,
    /// the lowered statements in order, and the return-void epilogue; a
    /// non-void return type fails. On success the method-body record carries
    /// the computed stack budget and the local count including the implicit
    /// receiver.
    pub fn visit_function(&mut self, pool: &mut ConstantPoolContext, v: &Function) -> (r: Result<
        MethodBody,
        CodegenError,
    >)
        requires
            old(self).wf(),
            old(self).current_stack + block_size(v.block@) <= u32::MAX,
            old(pool)@.strings.len() + block_size(v.block@) <= u32::MAX,
            old(pool)@.ints.len() + block_size(v.block@) <= u32::MAX,
        ensures
            final(self).wf(),
            final(self).locals == old(self).locals,
            final(pool)@.namespaces == old(pool)@.namespaces,
            final(pool)@.multinames == old(pool)@.multinames,
            match function_failure(*v, old(self).names()) {
                None => {
                    &&& r matches Ok(body)
                    &&& final(self).code@ == old(self).code@ + function_ops(
                        *v,
                        old(self).names(),
                        old(pool)@.strings,
                        old(pool)@.ints,
                    )
                    &&& final(pool)@.strings == function_strings(*v, old(pool)@.strings)
                    &&& final(pool)@.ints == function_ints(*v, old(pool)@.ints)
                    &&& final(self).current_stack == old(self).current_stack
                    &&& final(self).max_stack == max(
                        old(self).max_stack as int,
                        old(self).current_stack + block_peak(v.block@),
                    )
                    &&& body.code@ == final(self).code@
                    &&& body.max_stack == final(self).max_stack
                    &&& body.num_locals == old(self).names().len() + 1
                    &&& body.init_scope_depth == 0
                    &&& body.max_scope_depth == 0
                },
                Some(f) => {
                    &&& r matches Err(e) && matches_failure(e, f)
                    &&& pool_extends(old(pool)@, final(pool)@)
                },
            },
    {
        let ghost stmts = v.block@;
        let ghost names0 = self.names();
        let ghost strings0 = pool@.strings;
        let ghost ints0 = pool@.ints;
        let ghost cur0 = self.current_stack;
        let ghost max0 = self.max_stack;
        self.emit_op(Op::GetLocal { index: 0 });
        self.emit_op(Op::PushScope);
        let ghost code0 = self.code@;
        proof {
            assert(stmts.take(0) =~= Seq::<Box<Statement>>::empty());
            lemma_block_peak_nonneg(stmts);
        }
        let n = v.block.len();
        let mut i: usize = 0;
        while i < n
            invariant
                i <= n,
                n == stmts.len(),
                stmts == v.block@,
                names0 == old(self).names(),
                strings0 == old(pool)@.strings,
                ints0 == old(pool)@.ints,
                cur0 == old(self).current_stack,
                max0 == old(self).max_stack,
                code0 == old(self).code@ + seq![Op::GetLocal { index: 0u32 }, Op::PushScope],
                self.wf(),
                self.names() == names0,
                self.locals == old(self).locals,
                block_failure(stmts.take(i as int), names0) is None,
                self.code@ == code0 + block_ops(stmts.take(i as int), names0, strings0, ints0),
                pool@.strings == block_strings(stmts.take(i as int), strings0),
                pool@.ints == block_ints(stmts.take(i as int), ints0),
                pool@.namespaces == old(pool)@.namespaces,
                pool@.multinames == old(pool)@.multinames,
                self.current_stack == cur0,
                self.max_stack == max(max0 as int, cur0 + block_peak(stmts.take(i as int))),
                cur0 + block_size(stmts) <= u32::MAX,
                strings0.len() + block_size(stmts) <= u32::MAX,
                ints0.len() + block_size(stmts) <= u32::MAX,
                pool@.strings.len() <= strings0.len() + block_size(stmts.take(i as int)),
                pool@.ints.len() <= ints0.len() + block_size(stmts.take(i as int)),
                max0 <= self.max_stack,
            decreases n - i,
        {
            proof {
                lemma_block_size_split(stmts, i as int);
                assert(stmts.skip(i as int)[0] == stmts[i as int]);
                assert(stmts.skip(i as int).drop_first() =~= stmts.skip(i as int + 1));
                assert(block_size(stmts.skip(i as int)) == stmt_size(*stmts[i as int])
                    + block_size(stmts.skip(i as int + 1)));
                lemma_block_size_split(stmts, i as int + 1);
                assert(stmts.take(i as int + 1) =~= stmts.take(i as int).push(stmts[i as int]));
                lemma_block_push(stmts.take(i as int), stmts[i as int], names0, strings0, ints0);
                lemma_block_peak_nonneg(stmts.take(i as int));
                lemma_expr_peak_bounds(stmt_value(*stmts[i as int]));
            }
            let ghost pre_strings = pool@.strings;
            let ghost pre_ints = pool@.ints;
            match self.visit_statement(pool, &v.block[i]) {
                Ok(()) => {},
                Err(e) => {
                    proof {
                        lemma_block_failure_take(stmts, i as int + 1, names0);
                        lemma_block_growth(stmts.take(i as int), strings0, ints0);
                        assert forall|j: int| 0 <= j < strings0.len() implies pool@.strings[j]
                            == strings0[j] by {
                            assert(pre_strings[j] == strings0[j]);
                        }
                        assert forall|j: int| 0 <= j < ints0.len() implies pool@.ints[j]
                            == ints0[j] by {
                            assert(pre_ints[j] == ints0[j]);
                        }
                        assert(pool_extends(old(pool)@, pool@));
                    }
                    return Err(e);
                },
            }
            proof {
                lemma_gen_expr_growth(stmt_value(*stmts[i as int]), pre_strings, pre_ints);
                assert(self.code@ =~= code0 + block_ops(
                    stmts.take(i as int + 1),
                    names0,
                    strings0,
                    ints0,
                ));
            }
            i += 1;
        }
        proof {
            assert(stmts.take(n as int) =~= stmts);
        }
        match v.return_type {
            Type::Void => self.emit_op(Op::ReturnVoid),
            _ => {
                proof {
                    lemma_block_growth(stmts, strings0, ints0);
                    assert(pool_extends(old(pool)@, pool@));
                }
                return Err(CodegenError::UnsupportedReturnType(v.return_type.clone()));
            },
        }
        let max_stack = self.max_stack;
        let num_locals = self.locals.len() as u32 + 1;
        let code = copy_ops(&self.code);
        proof {
            assert(self.code@ =~= code0 + block_ops(stmts, names0, strings0, ints0) + seq![
                Op::ReturnVoid,
            ]);
            assert(self.code@ =~= old(self).code@ + function_ops(*v, names0, strings0, ints0));
        }
        Ok(
            MethodBody {
                max_stack,
                num_locals,
                init_scope_depth: 0,
                max_scope_depth: 0,
                code,
            },
        )
    }
}

/// Lowering a block only appends to the pools, and by at most one entry per
/// node.
proof fn lemma_block_growth(stmts: Seq<Box<Statement>>, strings: Seq<Seq<char>>, ints: Seq<i32>)
    ensures
        strings.len() <= block_strings(stmts, strings).len() <= strings.len() + block_size(stmts),
        forall|j: int| 0 <= j < strings.len() ==> block_strings(stmts, strings)[j] == strings[j],
        ints.len() <= block_ints(stmts, ints).len() <= ints.len() + block_size(stmts),
        forall|j: int| 0 <= j < ints.len() ==> block_ints(stmts, ints)[j] == ints[j],
    decreases stmts.len(),
{
    if stmts.len() > 0 {
        lemma_gen_expr_growth(stmt_value(*stmts[0]), strings, ints);
        lemma_block_growth(
            stmts.drop_first(),
            stmt_strings(*stmts[0], strings),
            stmt_ints(*stmts[0], ints),
        );
    }
}

/// A failure in a prefix of a block is the failure of the whole block.
proof fn lemma_block_failure_take(stmts: Seq<Box<Statement>>, j: int, locals: Seq<Seq<char>>)
    requires
        0 <= j <= stmts.len(),
        block_failure(stmts.take(j), locals) is Some,
    ensures
        block_failure(stmts, locals) == block_failure(stmts.take(j), locals),
    decreases j, stmts.len(),
{
    if stmts.take(j).len() == 0 {
    } else if stmt_failure(*stmts.take(j)[0], locals) is Some {
        assert(stmts[0] == stmts.take(j)[0]);
    } else {
        assert(stmts.take(j).drop_first() =~= stmts.drop_first().take(j - 1));
        lemma_block_failure_take(stmts.drop_first(), j - 1, locals);
    }
}

} // verus!
