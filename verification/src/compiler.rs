use vstd::prelude::*;

use std::rc::Rc;
use crate::ast::{BinOp, Expr, Literal, MatchArm, Pattern};
use crate::chunk::{Chunk, cmodel};
use crate::instruction::{Instruction, InstrM, imodel};
use crate::value::{Closure, Value, ValueM, models_of, vmodel, lemma_models_of_push};

verus! {

broadcast use vstd::std_specs::vec::group_vec_axioms;

/// The number of constant-pool slots a chunk can address: the index
/// space of `LoadConst` is `u16`.
pub const MAX_CONSTANTS: usize = 65536;

/// The number of local slots a frame can address: the index space of
/// `LoadLocal` and `StoreLocal` is `u8`.
pub const MAX_LOCALS: usize = 256;

/// An error found while lowering an expression to bytecode.
#[derive(Debug, Clone, PartialEq)]
pub enum CompileError {
    /// A variable was referenced that no enclosing scope binds.
    UndefinedVariable(String),
    /// The constant pool outgrew its `u16` index space.
    TooManyConstants,
    /// A scope needed more local slots than the `u8` index space offers.
    TooManyLocals,
    /// A patched jump offset fell outside the `i16` range.
    InvalidJumpOffset,
    /// Floating-point literals are not compiled.
    UnsupportedFloat,
    /// An expression form the compiler does not lower.
    UnsupportedOperation(String),
}

impl CompileError {
    /// The diagnostic text of this error.
    pub fn message(&self) -> (r: String)
        ensures
            r@ == match *self {
                CompileError::UndefinedVariable(n) =>
                    "Undefined variable: "@ + n@,
                CompileError::TooManyConstants =>
                    "Too many constants (max 65535)"@,
                CompileError::TooManyLocals =>
                    "Too many local variables (max 255)"@,
                CompileError::InvalidJumpOffset => "Jump offset too large"@,
                CompileError::UnsupportedFloat =>
                    "Float operations not supported in Phase 1"@,
                CompileError::UnsupportedOperation(d) =>
                    "Unsupported operation: "@ + d@,
            },
    {
        match self {
            CompileError::UndefinedVariable(n) => {
                let mut s = String::new();
                s.append("Undefined variable: ");
                s.append(n.as_str());
                proof {
                    assert(Seq::<char>::empty() + "Undefined variable: "@ + n@
                        =~= "Undefined variable: "@ + n@);
                }
                s
            },
            CompileError::TooManyConstants => String::from_str("Too many constants (max 65535)"),
            CompileError::TooManyLocals => String::from_str(
                "Too many local variables (max 255)",
            ),
            CompileError::InvalidJumpOffset => String::from_str("Jump offset too large"),
            CompileError::UnsupportedFloat => String::from_str(
                "Float operations not supported in Phase 1",
            ),
            CompileError::UnsupportedOperation(d) => {
                let mut s = String::new();
                s.append("Unsupported operation: ");
                s.append(d.as_str());
                proof {
                    assert(Seq::<char>::empty() + "Unsupported operation: "@ + d@
                        =~= "Unsupported operation: "@ + d@);
                }
                s
            },
        }
    }
}

/// A result of compilation.
pub type CompileResult<T> = Result<T, CompileError>;

/// One tracked local variable.
#[derive(Debug)]
pub struct LocalVar {
    pub name: String,
    pub depth: usize,
}

/// The instruction that performs a binary operator.
pub open spec fn binop_instr(op: BinOp) -> Instruction {
    match op {
        BinOp::Add => Instruction::Add,
        BinOp::Sub => Instruction::Sub,
        BinOp::Mul => Instruction::Mul,
        BinOp::Div => Instruction::Div,
        BinOp::Eq => Instruction::Eq,
        BinOp::Neq => Instruction::Neq,
        BinOp::Lt => Instruction::Lt,
        BinOp::Lte => Instruction::Lte,
        BinOp::Gt => Instruction::Gt,
        BinOp::Gte => Instruction::Gte,
        BinOp::And => Instruction::And,
        BinOp::Or => Instruction::Or,
    }
}

/// Whether an instruction model is a jump, and the offset it carries.
pub open spec fn jump_offset(i: InstrM) -> Option<int> {
    match i {
        InstrM::Jump(o) => Some(o as int),
        InstrM::JumpIfFalse(o) => Some(o as int),
        InstrM::JumpIfTrue(o) => Some(o as int),
        _ => None,
    }
}

/// Well-formedness of generated code: the constant pool fits its index
/// space, every `LoadConst` is in range, spans run in step with the
/// instructions, and every jump lands inside the chunk (at worst just
/// past its end).
pub open spec fn chunk_wf(c: crate::chunk::ChunkM) -> bool {
    &&& c.constants.len() <= MAX_CONSTANTS
    &&& c.spans.len() == c.instructions.len()
    &&& forall|i: int| 0 <= i < c.instructions.len()
        ==> match #[trigger] c.instructions[i] {
            InstrM::LoadConst(k) => (k as int) < c.constants.len(),
            _ => true,
        }
    &&& forall|i: int| 0 <= i < c.instructions.len()
        ==> match jump_offset(#[trigger] c.instructions[i]) {
            Some(o) => 0 <= i + 1 + o <= c.instructions.len(),
            None => true,
        }
}

/// The index of the newest local with the given name, scanning
/// innermost-first, or `None` where no scope binds it.
pub open spec fn resolve_spec(locals: Seq<LocalVar>, name: Seq<char>) -> Option<int>
    decreases locals,
{
    if locals.len() == 0 {
        None
    } else if locals.last().name@ == name {
        Some(locals.len() - 1)
    } else {
        resolve_spec(locals.take(locals.len() - 1), name)
    }
}

/// What `resolve_spec` finds: the last binding with the name, if any.
pub proof fn lemma_resolve_spec(locals: Seq<LocalVar>, name: Seq<char>)
    ensures
        match resolve_spec(locals, name) {
            Some(i) => 0 <= i < locals.len() && locals[i].name@ == name
                && forall|j: int| i < j < locals.len()
                    ==> (#[trigger] locals[j]).name@ != name,
            None => forall|j: int| 0 <= j < locals.len()
                ==> (#[trigger] locals[j]).name@ != name,
        },
    decreases locals,
{
    if locals.len() > 0 && locals.last().name@ != name {
        let pre = locals.take(locals.len() - 1);
        lemma_resolve_spec(pre, name);
        assert forall|j: int| 0 <= j < pre.len() implies #[trigger] pre[j]
            == locals[j] by {}
        match resolve_spec(locals, name) {
            Some(i) => {
                assert(pre[i] == locals[i]);
                assert forall|j: int| i < j < locals.len() implies (#[trigger] locals[
                    j
                ]).name@ != name by {
                    if j < locals.len() - 1 {
                        assert(pre[j] == locals[j]);
                    }
                }
            },
            None => {
                assert forall|j: int| 0 <= j < locals.len() implies (#[trigger] locals[
                    j
                ]).name@ != name by {
                    if j < locals.len() - 1 {
                        assert(pre[j] == locals[j]);
                    }
                }
            },
        }
    }
}

/// The size of an expression: every node counts one.
pub open spec fn esize(e: Expr) -> nat
    decreases e,
{
    1 + match e {
        Expr::Lit(_) => 0,
        Expr::Var(_) => 0,
        Expr::BinOp { op: _, left, right } => esize(*left) + esize(*right),
        Expr::Let { name: _, value, body } => esize(*value) + esize(*body),
        Expr::Lambda { param: _, body } => esize(*body),
        Expr::App { func, arg } => esize(*func) + esize(*arg),
        Expr::If { cond, then_branch, else_branch } => esize(*cond)
            + esize(*then_branch) + esize(*else_branch),
        Expr::Tuple(xs) => exprs_size(xs@),
        Expr::List(xs) => exprs_size(xs@),
        Expr::Match { scrutinee, arms } => esize(*scrutinee) + arms_size(arms@),
        Expr::VariantConstruct { tag: _, variant: _, fields } => bexprs_size(fields@),
    }
}

/// The total size of a sequence of expressions.
pub open spec fn exprs_size(s: Seq<Expr>) -> nat
    decreases s,
{
    if s.len() == 0 {
        0
    } else {
        esize(s[0]) + exprs_size(s.skip(1))
    }
}

/// The total size of a sequence of boxed expressions.
pub open spec fn bexprs_size(s: Seq<Box<Expr>>) -> nat
    decreases s,
{
    if s.len() == 0 {
        0
    } else {
        esize(*s[0]) + bexprs_size(s.skip(1))
    }
}

/// The total size of a sequence of match arms, counting their bodies.
pub open spec fn arms_size(s: Seq<MatchArm>) -> nat
    decreases s,
{
    if s.len() == 0 {
        0
    } else {
        esize(s[0].body) + arms_size(s.skip(1))
    }
}

/// The size of a match-arm pattern: itself and its immediate
/// sub-patterns (the compiler lowers no deeper nesting).
pub open spec fn psize(p: Pattern) -> nat {
    match p {
        Pattern::Wildcard => 1,
        Pattern::Var(_) => 1,
        Pattern::Lit(_) => 1,
        Pattern::Tuple(ps) => 1 + ps@.len(),
        Pattern::Variant { variant: _, patterns } => 1 + patterns@.len(),
    }
}

/// The size of an expression counting match-arm patterns too: the
/// measure that bounds how much code and constant pool compiling it
/// can consume.
pub open spec fn fsize(e: Expr) -> nat
    decreases e,
{
    1 + match e {
        Expr::Lit(_) => 0,
        Expr::Var(_) => 0,
        Expr::BinOp { op: _, left, right } => fsize(*left) + fsize(*right),
        Expr::Let { name: _, value, body } => fsize(*value) + fsize(*body),
        Expr::Lambda { param: _, body } => fsize(*body),
        Expr::App { func, arg } => fsize(*func) + fsize(*arg),
        Expr::If { cond, then_branch, else_branch } => fsize(*cond)
            + fsize(*then_branch) + fsize(*else_branch),
        Expr::Tuple(xs) => fexprs_size(xs@),
        Expr::List(xs) => fexprs_size(xs@),
        Expr::Match { scrutinee, arms } => fsize(*scrutinee) + farms_size(arms@),
        Expr::VariantConstruct { tag: _, variant: _, fields } => fbexprs_size(fields@),
    }
}

/// The total full size of a sequence of expressions.
pub open spec fn fexprs_size(s: Seq<Expr>) -> nat
    decreases s,
{
    if s.len() == 0 {
        0
    } else {
        fsize(s[0]) + fexprs_size(s.skip(1))
    }
}

/// The total full size of a sequence of boxed expressions.
pub open spec fn fbexprs_size(s: Seq<Box<Expr>>) -> nat
    decreases s,
{
    if s.len() == 0 {
        0
    } else {
        fsize(*s[0]) + fbexprs_size(s.skip(1))
    }
}

/// The total full size of a sequence of match arms, patterns included.
pub open spec fn farms_size(s: Seq<MatchArm>) -> nat
    decreases s,
{
    if s.len() == 0 {
        0
    } else {
        psize(s[0].pattern) + fsize(s[0].body) + farms_size(s.skip(1))
    }
}

proof fn lemma_fexprs_size_elem(s: Seq<Expr>, i: int)
    requires
        0 <= i < s.len(),
    ensures
        fsize(s[i]) <= fexprs_size(s),
    decreases s,
{
    if i > 0 {
        lemma_fexprs_size_elem(s.skip(1), i - 1);
        assert(s.skip(1)[i - 1] == s[i]);
    }
}

proof fn lemma_fbexprs_size_elem(s: Seq<Box<Expr>>, i: int)
    requires
        0 <= i < s.len(),
    ensures
        fsize(*s[i]) <= fbexprs_size(s),
    decreases s,
{
    if i > 0 {
        lemma_fbexprs_size_elem(s.skip(1), i - 1);
        assert(s.skip(1)[i - 1] == s[i]);
    }
}

proof fn lemma_farms_size_elem(s: Seq<MatchArm>, i: int)
    requires
        0 <= i < s.len(),
    ensures
        psize(s[i].pattern) + fsize(s[i].body) <= farms_size(s),
    decreases s,
{
    if i > 0 {
        lemma_farms_size_elem(s.skip(1), i - 1);
        assert(s.skip(1)[i - 1] == s[i]);
    }
}

proof fn lemma_fexprs_size_take(s: Seq<Expr>, i: int)
    requires
        0 <= i < s.len(),
    ensures
        fexprs_size(s.take(i + 1)) == fexprs_size(s.take(i)) + fsize(s[i]),
    decreases i,
{
    if i == 0 {
        assert(s.take(1) =~= seq![s[0]]);
        assert(s.take(1).skip(1) =~= Seq::<Expr>::empty());
        assert(s.take(0) =~= Seq::<Expr>::empty());
    } else {
        lemma_fexprs_size_take(s.skip(1), i - 1);
        assert(s.take(i + 1)[0] == s[0]);
        assert(s.take(i)[0] == s[0]);
        assert(s.take(i + 1).skip(1) =~= s.skip(1).take(i));
        assert(s.take(i).skip(1) =~= s.skip(1).take(i - 1));
        assert(s.skip(1)[i - 1] == s[i]);
    }
}

proof fn lemma_fexprs_size_len(s: Seq<Expr>)
    ensures
        fexprs_size(s) >= s.len(),
    decreases s,
{
    if s.len() > 0 {
        lemma_fexprs_size_len(s.skip(1));
        assert(fsize(s[0]) >= 1);
        assert(s.skip(1).len() == s.len() - 1);
    }
}

/// The names the locals bind, innermost last.
pub open spec fn names_of(locals: Seq<LocalVar>) -> Seq<Seq<char>> {
    Seq::new(locals.len(), |i: int| locals[i].name@)
}

/// The names a pattern binds, in binding order.
pub open spec fn var_names_of(ps: Seq<Pattern>) -> Seq<Seq<char>>
    decreases ps.len(),
{
    if ps.len() == 0 {
        Seq::<Seq<char>>::empty()
    } else {
        match ps.last() {
            Pattern::Var(x) => var_names_of(ps.drop_last()).push(x@),
            _ => var_names_of(ps.drop_last()),
        }
    }
}

proof fn lemma_var_names_take_len(ps: Seq<Pattern>, i: int)
    requires
        0 <= i <= ps.len(),
    ensures
        var_names_of(ps.take(i)).len() <= var_names_of(ps).len(),
    decreases ps.len() - i,
{
    if i == ps.len() {
        assert(ps.take(i) =~= ps);
    } else {
        lemma_var_names_take_len(ps, i + 1);
        assert(ps.take(i + 1).drop_last() =~= ps.take(i));
        assert(ps.take(i + 1).last() == ps[i]);
    }
}

/// The names a whole arm pattern binds.
pub open spec fn pat_names(p: Pattern) -> Seq<Seq<char>> {
    match p {
        Pattern::Wildcard => Seq::<Seq<char>>::empty(),
        Pattern::Var(x) => seq![x@],
        Pattern::Lit(_) => Seq::<Seq<char>>::empty(),
        Pattern::Tuple(_) => Seq::<Seq<char>>::empty(),
        Pattern::Variant { variant: _, patterns } => var_names_of(patterns@),
    }
}

/// Whether every sub-pattern is a wildcard or a name: the only nesting
/// the compiler lowers.
pub open spec fn flat_pats(ps: Seq<Pattern>) -> bool {
    forall|i: int| 0 <= i < ps.len()
        ==> (#[trigger] ps[i]) matches Pattern::Wildcard || ps[i] matches Pattern::Var(_)
}

/// Whether a pattern is one the compiler lowers.
pub open spec fn pat_ok(p: Pattern) -> bool {
    match p {
        Pattern::Wildcard => true,
        Pattern::Var(_) => true,
        Pattern::Lit(l) => litval_spec(l) is Some,
        Pattern::Tuple(_) => false,
        Pattern::Variant { variant: _, patterns } => patterns@.len() <= 255
            && flat_pats(patterns@),
    }
}

/// Whether the compiler is owed success on `e` under the given scope:
/// every literal has a machine value, every variable is bound, every
/// binding site has a free local slot, every aggregate fits its
/// operand byte, and every pattern is one the compiler lowers.
pub open spec fn compilable(e: Expr, names: Seq<Seq<char>>) -> bool
    decreases e,
{
    match e {
        Expr::Lit(l) => litval_spec(l) is Some,
        Expr::Var(x) => exists|i: int| 0 <= i < names.len() && #[trigger] names[i] == x@,
        Expr::BinOp { op: _, left, right } => compilable(*left, names)
            && compilable(*right, names),
        Expr::Let { name, value, body } => names.len() < MAX_LOCALS
            && compilable(*value, names) && compilable(*body, names.push(name@)),
        Expr::Lambda { param, body } => compilable(*body, seq![param@]),
        Expr::App { func, arg } => compilable(*func, names) && compilable(*arg, names),
        Expr::If { cond, then_branch, else_branch } => compilable(*cond, names)
            && compilable(*then_branch, names) && compilable(*else_branch, names),
        Expr::Tuple(xs) => xs@.len() <= 255 && seq_compilable(xs@, names),
        Expr::List(xs) => seq_compilable(xs@, names),
        Expr::Match { scrutinee, arms } => names.len() < MAX_LOCALS
            && compilable(*scrutinee, names)
            && arms_compilable(arms@, names.push("$match"@)),
        Expr::VariantConstruct { tag: _, variant: _, fields } => fields@.len() <= 255
            && bseq_compilable(fields@, names),
    }
}

/// `compilable` over each element.
pub open spec fn seq_compilable(s: Seq<Expr>, names: Seq<Seq<char>>) -> bool
    decreases s,
{
    forall|i: int| 0 <= i < s.len() ==> compilable(#[trigger] s[i], names)
}

/// `compilable` over each boxed element.
pub open spec fn bseq_compilable(s: Seq<Box<Expr>>, names: Seq<Seq<char>>) -> bool
    decreases s,
{
    forall|i: int| 0 <= i < s.len() ==> compilable(*(#[trigger] s[i]), names)
}

/// Whether one arm is lowered without error: its pattern is supported,
/// its bindings fit the local slots, and its body is compilable under
/// the names the pattern adds.
pub open spec fn arm_compilable(arm: MatchArm, names: Seq<Seq<char>>) -> bool
    decreases arm,
{
    pat_ok(arm.pattern)
        && names.len() + pat_names(arm.pattern).len() <= MAX_LOCALS
        && compilable(arm.body, names + pat_names(arm.pattern))
}

/// `arm_compilable` over each arm.
pub open spec fn arms_compilable(s: Seq<MatchArm>, names: Seq<Seq<char>>) -> bool
    decreases s,
{
    forall|i: int| 0 <= i < s.len() ==> arm_compilable(#[trigger] s[i], names)
}

/// Every element's size is bounded by its sequence's total.
proof fn lemma_exprs_size_elem(s: Seq<Expr>, i: int)
    requires
        0 <= i < s.len(),
    ensures
        esize(s[i]) <= exprs_size(s),
    decreases s,
{
    if i == 0 {
    } else {
        lemma_exprs_size_elem(s.skip(1), i - 1);
        assert(s.skip(1)[i - 1] == s[i]);
    }
}

/// Every boxed element's size is bounded by its sequence's total.
proof fn lemma_bexprs_size_elem(s: Seq<Box<Expr>>, i: int)
    requires
        0 <= i < s.len(),
    ensures
        esize(*s[i]) <= bexprs_size(s),
    decreases s,
{
    if i == 0 {
    } else {
        lemma_bexprs_size_elem(s.skip(1), i - 1);
        assert(s.skip(1)[i - 1] == s[i]);
    }
}

/// Every arm body's size is bounded by its sequence's total.
proof fn lemma_arms_size_elem(s: Seq<MatchArm>, i: int)
    requires
        0 <= i < s.len(),
    ensures
        esize(s[i].body) <= arms_size(s),
    decreases s,
{
    if i == 0 {
    } else {
        lemma_arms_size_elem(s.skip(1), i - 1);
        assert(s.skip(1)[i - 1] == s[i]);
    }
}

/// One-pass bytecode compiler: an in-progress chunk, the stack of live
/// locals, and the current scope depth.
pub struct Compiler {
    pub chunk: Chunk,
    pub locals: Vec<LocalVar>,
    pub scope_depth: usize,
}

impl Compiler {
    /// Invariant kept by every compilation step.
    pub open spec fn wf(&self) -> bool {
        &&& chunk_wf(cmodel(self.chunk))
        &&& self.locals@.len() <= MAX_LOCALS
    }

    fn new() -> (r: Compiler)
        ensures
            r.wf(),
            r.chunk.instructions@.len() == 0,
            r.chunk.constants@.len() == 0,
            r.locals@.len() == 0,
            r.scope_depth == 0,
    {
        let r = Compiler { chunk: Chunk::new(), locals: Vec::new(), scope_depth: 0 };
        proof {
            assert(cmodel(r.chunk).instructions =~= Seq::<InstrM>::empty());
            assert(cmodel(r.chunk).spans =~= Seq::<crate::chunk::SourceSpan>::empty());
        }
        r
    }

    /// Lower `expr` to a sealed chunk ending in `Return`.
    ///
    /// A literal integer, boolean, string or unit compiles to loading one
    /// constant and returning it; a bare variable has no enclosing scope
    /// and is rejected as undefined; a floating-point literal is
    /// rejected.
    pub fn compile(expr: &Expr) -> (r: CompileResult<Chunk>)
        ensures
            (*expr matches Expr::Lit(l) && litval_spec(l) is Some) ==> r is Ok,
            (compilable(*expr, Seq::<Seq<char>>::empty())
                && 16 * fsize(*expr) <= 32767) ==> r is Ok,
            match r {
                Ok(chunk) => {
                    &&& chunk_wf(cmodel(chunk))
                    &&& cmodel(chunk).instructions.len() > 0
                    &&& cmodel(chunk).instructions.last() == InstrM::Return
                    &&& match *expr {
                        Expr::Lit(l) => litval_spec(l) matches Some(v)
                            && cmodel(chunk).instructions
                                == seq![InstrM::LoadConst(0), InstrM::Return]
                            && cmodel(chunk).constants == seq![v],
                        Expr::Var(_) => false,
                        _ => true,
                    }
                },
                Err(e) => match *expr {
                    Expr::Var(x) => e matches CompileError::UndefinedVariable(n)
                        && n@ == x@,
                    Expr::Lit(l) => (l matches Literal::Float(_)
                        ==> e == CompileError::UnsupportedFloat),
                    _ => true,
                },
            },
    {
        let mut compiler = Compiler::new();
        let ghost pre = compiler;
        proof {
            assert(names_of(compiler.locals@) =~= Seq::<Seq<char>>::empty());
        }
        match compiler.compile_expr(expr) {
            Ok(()) => {},
            Err(e) => {
                return Err(e);
            },
        }
        let ghost mid = compiler;
        compiler.chunk.emit(Instruction::Return);
        proof {
            lemma_emit_wf(mid.chunk, compiler.chunk, Instruction::Return);
            assert(cmodel(compiler.chunk).instructions.last() == InstrM::Return);
            match expr {
                Expr::Lit(l) => {
                    if litval_spec(*l) is Some {
                        assert(cmodel(mid.chunk).instructions[0]
                            == imodel(mid.chunk.instructions@[0]));
                        assert(cmodel(compiler.chunk).instructions[0]
                            == imodel(compiler.chunk.instructions@[0]));
                        assert(cmodel(compiler.chunk).instructions[1]
                            == imodel(compiler.chunk.instructions@[1]));
                        assert(compiler.chunk.instructions@[0]
                            == mid.chunk.instructions@[0]);
                        assert(cmodel(compiler.chunk).instructions
                            =~= seq![InstrM::LoadConst(0), InstrM::Return]);
                        assert(cmodel(compiler.chunk).constants
                            =~= seq![litval_spec(*l).unwrap()]);
                    }
                },
                _ => {},
            }
        }
        Ok(compiler.chunk)
    }

    /// Emit code that evaluates `expr`, leaving exactly its value on top
    /// of the stack. Instructions already emitted are never removed, and
    /// the ones before this call are left unchanged.
    fn compile_expr(&mut self, expr: &Expr) -> (r: CompileResult<()>)
        requires
            old(self).wf(),
        ensures
            final(self).wf(),
            final(self).chunk.instructions@.len() >= old(self).chunk.instructions@.len(),
            final(self).chunk.instructions@.take(old(self).chunk.instructions@.len() as int)
                =~= old(self).chunk.instructions@,
            final(self).chunk.constants@.len() >= old(self).chunk.constants@.len(),
            final(self).locals@ == old(self).locals@,
            final(self).scope_depth == old(self).scope_depth,
            r matches Ok(()) ==> final(self).chunk.instructions@.len()
                > old(self).chunk.instructions@.len(),
            final(self).chunk.instructions@.len() + 14
                <= old(self).chunk.instructions@.len() + 16 * fsize(*expr),
            final(self).chunk.constants@.len()
                <= old(self).chunk.constants@.len() + fsize(*expr),
            (*expr matches Expr::Lit(l) && litval_spec(l) is Some)
                && old(self).chunk.constants@.len() < MAX_CONSTANTS ==> r is Ok,
            (compilable(*expr, names_of(old(self).locals@))
                && old(self).chunk.constants@.len() + fsize(*expr) <= MAX_CONSTANTS
                && old(self).scope_depth <= old(self).locals@.len()
                && 16 * fsize(*expr) <= 32767) ==> r is Ok,
            match r {
                Ok(()) => match *expr {
                    Expr::Lit(l) => litval_spec(l) matches Some(v)
                        && (old(self).chunk.instructions@.len() == 0
                            && old(self).chunk.constants@.len() == 0
                            ==> cmodel(final(self).chunk).instructions
                                == seq![InstrM::LoadConst(0)]
                            && cmodel(final(self).chunk).constants == seq![v]),
                    Expr::Var(x) => resolve_spec(old(self).locals@, x@) is Some,
                    _ => true,
                },
                Err(e) => match *expr {
                    Expr::Var(x) => e matches CompileError::UndefinedVariable(n)
                        && n@ == x@ && resolve_spec(old(self).locals@, x@) is None,
                    Expr::Lit(l) => (l matches Literal::Float(_)
                        ==> e == CompileError::UnsupportedFloat),
                    _ => true,
                },
            },
        decreases esize(*expr), 0int,
    {
        match expr {
            Expr::Lit(lit) => {
                let r0 = self.compile_literal(lit);
                proof {
                    if compilable(*expr, names_of(old(self).locals@))
                        && old(self).chunk.constants@.len() + fsize(*expr)
                            <= MAX_CONSTANTS
                        && old(self).scope_depth <= old(self).locals@.len()
                        && 16 * fsize(*expr) <= 32767 {
                        assert(r0 is Ok);
                    }
                }
                r0
            },
            Expr::Var(name) => {
                proof {
                    let ns = names_of(self.locals@);
                    if exists|i: int| 0 <= i < ns.len() && #[trigger] ns[i] == name@ {
                        let i = choose|i: int| 0 <= i < ns.len()
                            && #[trigger] ns[i] == name@;
                        assert(self.locals@[i].name@ == name@);
                    }
                }
                self.compile_var(name)
            },
            Expr::BinOp { op, left, right } => {
                let r0 = self.compile_binop(*op, left, right);
                proof {
                    if compilable(*expr, names_of(old(self).locals@))
                        && old(self).chunk.constants@.len() + fsize(*expr)
                            <= MAX_CONSTANTS
                        && old(self).scope_depth <= old(self).locals@.len()
                        && 16 * fsize(*expr) <= 32767 {
                        assert(r0 is Ok);
                    }
                }
                r0
            },
            Expr::Let { name, value, body } => {
                let r0 = self.compile_let(name, value, body);
                proof {
                    if compilable(*expr, names_of(old(self).locals@))
                        && old(self).chunk.constants@.len() + fsize(*expr)
                            <= MAX_CONSTANTS
                        && old(self).scope_depth <= old(self).locals@.len()
                        && 16 * fsize(*expr) <= 32767 {
                        assert(r0 is Ok);
                    }
                }
                r0
            },
            Expr::Lambda { param, body } => {
                let r0 = self.compile_lambda(param, body);
                proof {
                    if compilable(*expr, names_of(old(self).locals@))
                        && old(self).chunk.constants@.len() + fsize(*expr)
                            <= MAX_CONSTANTS
                        && old(self).scope_depth <= old(self).locals@.len()
                        && 16 * fsize(*expr) <= 32767 {
                        assert(r0 is Ok);
                    }
                }
                r0
            },
            Expr::App { func, arg } => {
                let r0 = self.compile_app(func, arg);
                proof {
                    if compilable(*expr, names_of(old(self).locals@))
                        && old(self).chunk.constants@.len() + fsize(*expr)
                            <= MAX_CONSTANTS
                        && old(self).scope_depth <= old(self).locals@.len()
                        && 16 * fsize(*expr) <= 32767 {
                        assert(r0 is Ok);
                    }
                }
                r0
            },
            Expr::If { cond, then_branch, else_branch } => {
                let r0 = self.compile_if(cond, then_branch, else_branch);
                proof {
                    if compilable(*expr, names_of(old(self).locals@))
                        && old(self).chunk.constants@.len() + fsize(*expr)
                            <= MAX_CONSTANTS
                        && old(self).scope_depth <= old(self).locals@.len()
                        && 16 * fsize(*expr) <= 32767 {
                        assert(r0 is Ok);
                    }
                }
                r0
            },
            Expr::Tuple(items) => {
                let r0 = self.compile_tuple(items);
                proof {
                    if compilable(*expr, names_of(old(self).locals@))
                        && old(self).chunk.constants@.len() + fsize(*expr)
                            <= MAX_CONSTANTS
                        && old(self).scope_depth <= old(self).locals@.len()
                        && 16 * fsize(*expr) <= 32767 {
                        assert(r0 is Ok);
                    }
                }
                r0
            },
            Expr::List(items) => {
                let r0 = self.compile_list(items);
                proof {
                    if compilable(*expr, names_of(old(self).locals@))
                        && old(self).chunk.constants@.len() + fsize(*expr)
                            <= MAX_CONSTANTS
                        && old(self).scope_depth <= old(self).locals@.len()
                        && 16 * fsize(*expr) <= 32767 {
                        assert(r0 is Ok);
                    }
                }
                r0
            },
            Expr::Match { scrutinee, arms } => {
                let r0 = self.compile_match(scrutinee, arms);
                proof {
                    if compilable(*expr, names_of(old(self).locals@))
                        && old(self).chunk.constants@.len() + fsize(*expr)
                            <= MAX_CONSTANTS
                        && old(self).scope_depth <= old(self).locals@.len()
                        && 16 * fsize(*expr) <= 32767 {
                        assert(r0 is Ok);
                    }
                }
                r0
            },
            Expr::VariantConstruct { tag, variant, fields } => {
                let r0 = self.compile_variant(tag, variant, fields);
                proof {
                    if compilable(*expr, names_of(old(self).locals@))
                        && old(self).chunk.constants@.len() + fsize(*expr)
                            <= MAX_CONSTANTS
                        && old(self).scope_depth <= old(self).locals@.len()
                        && 16 * fsize(*expr) <= 32767 {
                        assert(r0 is Ok);
                    }
                }
                r0
            },
        }
    }

    /// Add `value` to the constant pool, enforcing its `u16` index
    /// space: a pool of 65536 entries is full.
    fn add_constant(&mut self, value: Value) -> (r: CompileResult<u16>)
        requires
            old(self).wf(),
        ensures
            final(self).wf(),
            final(self).locals == old(self).locals,
            final(self).scope_depth == old(self).scope_depth,
            final(self).chunk.instructions == old(self).chunk.instructions,
            final(self).chunk.spans == old(self).chunk.spans,
            match r {
                Ok(idx) => old(self).chunk.constants@.len() < MAX_CONSTANTS
                    && idx == old(self).chunk.constants@.len()
                    && final(self).chunk.constants@
                        == old(self).chunk.constants@.push(value),
                Err(e) => e == CompileError::TooManyConstants
                    && old(self).chunk.constants@.len() >= MAX_CONSTANTS
                    && *final(self) == *old(self),
            },
    {
        if self.chunk.constants.len() >= MAX_CONSTANTS {
            return Err(CompileError::TooManyConstants);
        }
        let ghost pre = self.chunk;
        let idx = self.chunk.add_constant(value);
        proof {
            lemma_constants_grow_wf(pre, self.chunk, value);
        }
        Ok(idx)
    }

    /// Append one instruction, keeping the chunk well formed. The
    /// instruction must respect the pool and jump ranges by itself.
    fn emit(&mut self, instr: Instruction)
        requires
            old(self).wf(),
            match imodel(instr) {
                InstrM::LoadConst(k) => (k as int) < old(self).chunk.constants@.len(),
                _ => true,
            },
            match jump_offset(imodel(instr)) {
                Some(o) => o == 0,
                None => true,
            },
        ensures
            final(self).wf(),
            final(self).locals == old(self).locals,
            final(self).scope_depth == old(self).scope_depth,
            final(self).chunk.constants == old(self).chunk.constants,
            final(self).chunk.instructions@
                == old(self).chunk.instructions@.push(instr),
    {
        let ghost pre = self.chunk;
        let ghost im = imodel(instr);
        self.chunk.emit(instr);
        proof {
            lemma_emit_wf(pre, self.chunk, instr);
        }
    }

    /// Emit a load of a literal's runtime value; floating-point literals
    /// are rejected.
    fn compile_literal(&mut self, lit: &Literal) -> (r: CompileResult<()>)
        requires
            old(self).wf(),
        ensures
            final(self).wf(),
            final(self).locals@ == old(self).locals@,
            final(self).scope_depth == old(self).scope_depth,
            final(self).chunk.instructions@.len()
                >= old(self).chunk.instructions@.len(),
            final(self).chunk.instructions@.take(
                old(self).chunk.instructions@.len() as int,
            ) =~= old(self).chunk.instructions@,
            final(self).chunk.constants@.len() >= old(self).chunk.constants@.len(),
            litval_spec(*lit) is Some && old(self).chunk.constants@.len()
                < MAX_CONSTANTS ==> r is Ok,
            final(self).chunk.instructions@.len() + 14
                <= old(self).chunk.instructions@.len() + 16,
            final(self).chunk.constants@.len()
                <= old(self).chunk.constants@.len() + 1,
            r matches Ok(()) ==> final(self).chunk.instructions@.len()
                > old(self).chunk.instructions@.len(),
            match r {
                Ok(()) => litval_spec(*lit) matches Some(v)
                    && final(self).chunk.instructions@ == old(self).chunk.instructions@
                        .push(Instruction::LoadConst(
                            old(self).chunk.constants@.len() as u16,
                        ))
                    && models_of(final(self).chunk.constants@) == models_of(
                        old(self).chunk.constants@,
                    ).push(v),
                Err(e) => (*lit matches Literal::Float(_)
                    ==> e == CompileError::UnsupportedFloat),
            },
    {
        let value = match lit {
            Literal::Int(n) => Value::Int(*n),
            Literal::Bool(b) => Value::Bool(*b),
            Literal::Str(s) => Value::Str(s.clone()),
            Literal::Unit => Value::Unit,
            Literal::Float(_) => {
                return Err(CompileError::UnsupportedFloat);
            },
        };
        let ghost preconsts = self.chunk.constants@;
        let idx = match self.add_constant(value) {
            Ok(i) => i,
            Err(e) => {
                return Err(e);
            },
        };
        proof {
            lemma_models_of_push(preconsts, value);
        }
        self.emit(Instruction::LoadConst(idx));
        proof {
            assert(final(self).chunk.instructions@.take(
                old(self).chunk.instructions@.len() as int,
            ) =~= old(self).chunk.instructions@);
        }
        Ok(())
    }

    /// Emit a load of the newest local binding the name, or reject the
    /// variable as undefined.
    fn compile_var(&mut self, name: &String) -> (r: CompileResult<()>)
        requires
            old(self).wf(),
        ensures
            final(self).wf(),
            final(self).locals == old(self).locals,
            final(self).scope_depth == old(self).scope_depth,
            final(self).chunk.constants == old(self).chunk.constants,
            final(self).chunk.instructions@.len()
                >= old(self).chunk.instructions@.len(),
            final(self).chunk.instructions@.take(
                old(self).chunk.instructions@.len() as int,
            ) =~= old(self).chunk.instructions@,
            r matches Ok(()) ==> final(self).chunk.instructions@.len()
                > old(self).chunk.instructions@.len(),
            final(self).chunk.instructions@.len() + 14
                <= old(self).chunk.instructions@.len() + 16,
            (exists|i: int| 0 <= i < old(self).locals@.len()
                && (#[trigger] old(self).locals@[i]).name@ == name@) ==> r is Ok,
            match r {
                Ok(()) => resolve_spec(old(self).locals@, name@) matches Some(i)
                    && final(self).chunk.instructions@ == old(self).chunk.instructions@
                        .push(Instruction::LoadLocal(i as u8)) && i < MAX_LOCALS,
                Err(e) => e matches CompileError::UndefinedVariable(n) && n@ == name@
                    && resolve_spec(old(self).locals@, name@) is None
                    && final(self).chunk == old(self).chunk,
            },
    {
        proof {
            lemma_resolve_spec(self.locals@, name@);
        }
        let mut i: usize = self.locals.len();
        while i > 0
            invariant
                old(self).wf(),
                *self == *old(self),
                i <= self.locals@.len(),
                forall|j: int| i <= j < self.locals@.len()
                    ==> (#[trigger] self.locals@[j]).name@ != name@,
            decreases i,
        {
            i = i - 1;
            if crate::value::str_eq(self.locals[i].name.as_str(), name.as_str()) {
                proof {
                    lemma_resolve_spec(self.locals@, name@);
                    assert(self.locals@[i as int].name@ == name@);
                    assert(resolve_spec(self.locals@, name@) is Some);
                    assert(resolve_spec(self.locals@, name@) == Some(i as int));
                    assert(i < MAX_LOCALS);
                }
                self.emit(Instruction::LoadLocal(i as u8));
                return Ok(());
            }
        }
        proof {
            lemma_resolve_spec(self.locals@, name@);
        }
        Err(CompileError::UndefinedVariable(name.clone()))
    }

    /// Emit both operands in order, then the operator's instruction.
    fn compile_binop(&mut self, op: BinOp, left: &Expr, right: &Expr) -> (r: CompileResult<
        (),
    >)
        requires
            old(self).wf(),
        ensures
            final(self).wf(),
            final(self).chunk.instructions@.len()
                >= old(self).chunk.instructions@.len(),
            final(self).chunk.instructions@.take(
                old(self).chunk.instructions@.len() as int,
            ) =~= old(self).chunk.instructions@,
            final(self).chunk.constants@.len() >= old(self).chunk.constants@.len(),
            final(self).locals@ == old(self).locals@,
            final(self).scope_depth == old(self).scope_depth,
            r matches Ok(()) ==> final(self).chunk.instructions@.len()
                > old(self).chunk.instructions@.len()
                && final(self).chunk.instructions@.last() == binop_instr(op),
            final(self).chunk.instructions@.len() + 14
                <= old(self).chunk.instructions@.len()
                + 16 * (fsize(*left) + fsize(*right)) + 16,
            final(self).chunk.constants@.len()
                <= old(self).chunk.constants@.len()
                + fsize(*left) + fsize(*right) + 1,
            (compilable(*left, names_of(old(self).locals@))
                && compilable(*right, names_of(old(self).locals@))
                && old(self).chunk.constants@.len() + fsize(*left) + fsize(*right)
                    <= MAX_CONSTANTS
                && old(self).scope_depth <= old(self).locals@.len()
                && 16 * (fsize(*left) + fsize(*right)) <= 32767) ==> r is Ok,
        decreases esize(*left) + esize(*right), 1int,
    {
        self.compile_expr(left)?;
        self.compile_expr(right)?;
        let instr = match op {
            BinOp::Add => Instruction::Add,
            BinOp::Sub => Instruction::Sub,
            BinOp::Mul => Instruction::Mul,
            BinOp::Div => Instruction::Div,
            BinOp::Eq => Instruction::Eq,
            BinOp::Neq => Instruction::Neq,
            BinOp::Lt => Instruction::Lt,
            BinOp::Lte => Instruction::Lte,
            BinOp::Gt => Instruction::Gt,
            BinOp::Gte => Instruction::Gte,
            BinOp::And => Instruction::And,
            BinOp::Or => Instruction::Or,
        };
        proof {
            assert(instr == binop_instr(op));
        }
        self.emit(instr);
        Ok(())
    }

    /// Track a new local for the current scope; the slot space is `u8`,
    /// so a frame holds at most 256 locals.
    fn add_local(&mut self, name: String) -> (r: CompileResult<()>)
        requires
            old(self).wf(),
        ensures
            final(self).wf(),
            final(self).chunk == old(self).chunk,
            final(self).scope_depth == old(self).scope_depth,
            match r {
                Ok(()) => old(self).locals@.len() < MAX_LOCALS
                    && final(self).locals@.len() == old(self).locals@.len() + 1
                    && final(self).locals@.last().name@ == name@
                    && final(self).locals@.last().depth == old(self).scope_depth
                    && final(self).locals@.take(old(self).locals@.len() as int)
                        =~= old(self).locals@,
                Err(e) => e == CompileError::TooManyLocals
                    && old(self).locals@.len() >= MAX_LOCALS
                    && *final(self) == *old(self),
            },
    {
        if self.locals.len() >= MAX_LOCALS {
            return Err(CompileError::TooManyLocals);
        }
        self.locals.push(LocalVar { name, depth: self.scope_depth });
        Ok(())
    }

    /// Compile `let name = value in body`: the bound value becomes a new
    /// local; after the body, its result slides down over the slot,
    /// which closes the scope.
    fn compile_let(&mut self, name: &String, value: &Expr, body: &Expr) -> (r:
        CompileResult<()>)
        requires
            old(self).wf(),
        ensures
            final(self).wf(),
            final(self).chunk.instructions@.len()
                >= old(self).chunk.instructions@.len(),
            final(self).chunk.instructions@.take(
                old(self).chunk.instructions@.len() as int,
            ) =~= old(self).chunk.instructions@,
            final(self).chunk.constants@.len() >= old(self).chunk.constants@.len(),
            final(self).locals@ == old(self).locals@,
            final(self).scope_depth == old(self).scope_depth,
            r matches Ok(()) ==> final(self).chunk.instructions@.len()
                > old(self).chunk.instructions@.len()
                && (final(self).chunk.instructions@.last()
                    matches Instruction::StoreLocal(s)
                    && s as int == old(self).locals@.len()),
            final(self).chunk.instructions@.len() + 14
                <= old(self).chunk.instructions@.len()
                + 16 * (fsize(*value) + fsize(*body)) + 16,
            final(self).chunk.constants@.len()
                <= old(self).chunk.constants@.len()
                + fsize(*value) + fsize(*body) + 1,
            (compilable(*value, names_of(old(self).locals@))
                && old(self).locals@.len() < MAX_LOCALS
                && compilable(*body, names_of(old(self).locals@).push(name@))
                && old(self).chunk.constants@.len() + fsize(*value) + fsize(*body)
                    <= MAX_CONSTANTS
                && old(self).scope_depth <= old(self).locals@.len()
                && 16 * (fsize(*value) + fsize(*body)) <= 32767) ==> r is Ok,
        decreases esize(*value) + esize(*body), 1int,
    {
        let ghost n0 = old(self).chunk.instructions@.len() as int;
        self.compile_expr(value)?;
        proof {
            if old(self).scope_depth <= old(self).locals@.len() {
                assert(self.scope_depth < usize::MAX);
            }
        }
        if self.scope_depth == usize::MAX {
            return Err(CompileError::UnsupportedOperation(String::from_str(
                "scope nesting too deep",
            )));
        }
        self.scope_depth = self.scope_depth + 1;
        match self.add_local(name.clone()) {
            Ok(()) => {},
            Err(e) => {
                self.scope_depth = self.scope_depth - 1;
                return Err(e);
            },
        }
        proof {
            assert(names_of(self.locals@) =~= names_of(old(self).locals@).push(name@));
        }
        let slot = self.locals.len() - 1;
        self.emit(Instruction::StoreLocal(slot as u8));
        proof {
            assert(self.chunk.instructions@.take(n0) =~= old(self).chunk.instructions@);
        }
        let ghost s1 = self.chunk.instructions@;
        match self.compile_expr(body) {
            Ok(()) => {},
            Err(e) => {
                self.locals.pop();
                self.scope_depth = self.scope_depth - 1;
                proof {
                    assert(self.chunk.instructions@.take(s1.len() as int) =~= s1);
                    assert(self.chunk.instructions@.take(n0)
                        =~= old(self).chunk.instructions@);
                }
                return Err(e);
            },
        }
        // Close the scope: drop the binding and slide the body's result
        // down into its slot.
        self.locals.pop();
        self.scope_depth = self.scope_depth - 1;
        self.emit(Instruction::StoreLocal(slot as u8));
        proof {
            assert(self.chunk.instructions@.take(s1.len() as int) =~= s1);
            assert(self.chunk.instructions@.take(n0) =~= old(self).chunk.instructions@);
        }
        Ok(())
    }

    /// Compile a lambda: its body is lowered by a nested compiler with
    /// the parameter as local 0, the resulting chunk is wrapped in a
    /// closure constant, and a closure construction is emitted. The body
    /// sees only the parameter; free variables are undefined.
    fn compile_lambda(&mut self, param: &String, body: &Expr) -> (r: CompileResult<()>)
        requires
            old(self).wf(),
        ensures
            final(self).wf(),
            final(self).chunk.instructions@.len()
                >= old(self).chunk.instructions@.len(),
            final(self).chunk.instructions@.take(
                old(self).chunk.instructions@.len() as int,
            ) =~= old(self).chunk.instructions@,
            final(self).chunk.constants@.len() >= old(self).chunk.constants@.len(),
            final(self).locals@ == old(self).locals@,
            final(self).scope_depth == old(self).scope_depth,
            r matches Ok(()) ==> final(self).chunk.instructions@.len()
                == old(self).chunk.instructions@.len() + 1
                && (final(self).chunk.instructions@.last()
                    matches Instruction::MakeClosure { chunk_const, captures }
                    && chunk_const as int == old(self).chunk.constants@.len()
                    && captures@.len() == 0)
                && final(self).chunk.constants@.len()
                    == old(self).chunk.constants@.len() + 1
                && (vmodel(final(self).chunk.constants@.last())
                    matches ValueM::Closure(cm)
                    && cm.arity == 1
                    && cm.upvalues.len() == 0
                    && chunk_wf(cm.chunk)
                    && cm.chunk.instructions.len() > 0
                    && cm.chunk.instructions.last() == InstrM::Return),
            final(self).chunk.instructions@.len() + 14
                <= old(self).chunk.instructions@.len() + 16,
            final(self).chunk.constants@.len()
                <= old(self).chunk.constants@.len() + 1,
            (compilable(*body, seq![param@])
                && old(self).chunk.constants@.len() < MAX_CONSTANTS
                && 16 * fsize(*body) <= 32767) ==> r is Ok,
        decreases esize(*body), 1int,
    {
        let mut nested = Compiler::new();
        nested.scope_depth = 1;
        nested.add_local(param.clone())?;
        proof {
            assert(names_of(nested.locals@) =~= seq![param@]);
            if 16 * fsize(*body) <= 32767 {
                assert(fsize(*body) <= MAX_CONSTANTS);
            }
        }
        nested.compile_expr(body)?;
        nested.emit(Instruction::Return);
        let ghost nch = nested.chunk;
        let closure = Closure {
            chunk: Rc::new(nested.chunk),
            arity: 1,
            upvalues: Vec::new(),
        };
        let ghost gcl = closure;
        let cval = Value::Closure(Rc::new(closure));
        let ghost gval = cval;
        let idx = self.add_constant(cval)?;
        proof {
            assert(self.chunk.constants@.last() == gval);
            assert(vmodel(gval) == ValueM::Closure(crate::value::clmodel(gcl)));
            assert(crate::value::clmodel(gcl).chunk == cmodel(nch));
            assert(crate::value::clmodel(gcl).arity == 1);
            assert(crate::value::clmodel(gcl).upvalues.len() == 0);
            assert(cmodel(nch).instructions.len() == nch.instructions@.len());
            assert(cmodel(nch).instructions.last() == imodel(
                nch.instructions@[nch.instructions@.len() - 1],
            ));
            assert(cmodel(nch).instructions.last() == InstrM::Return);
        }
        self.emit(Instruction::MakeClosure { chunk_const: idx, captures: Vec::new() });
        proof {
            assert(final(self).chunk.instructions@.take(
                old(self).chunk.instructions@.len() as int,
            ) =~= old(self).chunk.instructions@);
        }
        Ok(())
    }

    /// Compile an application: function, then argument, then a call with
    /// one argument.
    fn compile_app(&mut self, func: &Expr, arg: &Expr) -> (r: CompileResult<()>)
        requires
            old(self).wf(),
        ensures
            final(self).wf(),
            final(self).chunk.instructions@.len()
                >= old(self).chunk.instructions@.len(),
            final(self).chunk.instructions@.take(
                old(self).chunk.instructions@.len() as int,
            ) =~= old(self).chunk.instructions@,
            final(self).chunk.constants@.len() >= old(self).chunk.constants@.len(),
            final(self).locals@ == old(self).locals@,
            final(self).scope_depth == old(self).scope_depth,
            r matches Ok(()) ==> final(self).chunk.instructions@.len()
                > old(self).chunk.instructions@.len()
                && final(self).chunk.instructions@.last() == Instruction::Call(1u8),
            final(self).chunk.instructions@.len() + 14
                <= old(self).chunk.instructions@.len()
                + 16 * (fsize(*func) + fsize(*arg)) + 16,
            final(self).chunk.constants@.len()
                <= old(self).chunk.constants@.len()
                + fsize(*func) + fsize(*arg) + 1,
            (compilable(*func, names_of(old(self).locals@))
                && compilable(*arg, names_of(old(self).locals@))
                && old(self).chunk.constants@.len() + fsize(*func) + fsize(*arg)
                    <= MAX_CONSTANTS
                && old(self).scope_depth <= old(self).locals@.len()
                && 16 * (fsize(*func) + fsize(*arg)) <= 32767) ==> r is Ok,
        decreases esize(*func) + esize(*arg), 1int,
    {
        self.compile_expr(func)?;
        self.compile_expr(arg)?;
        self.emit(Instruction::Call(1));
        Ok(())
    }

    /// Emit a forward jump with a placeholder offset and report its
    /// index for later patching.
    fn emit_jump(&mut self, instr: Instruction) -> (r: usize)
        requires
            old(self).wf(),
            jump_offset(imodel(instr)) == Some(0int),
        ensures
            final(self).wf(),
            final(self).locals == old(self).locals,
            final(self).scope_depth == old(self).scope_depth,
            final(self).chunk.constants == old(self).chunk.constants,
            final(self).chunk.instructions@
                == old(self).chunk.instructions@.push(instr),
            r == old(self).chunk.instructions@.len(),
    {
        let pos = self.chunk.current_offset();
        self.emit(instr);
        pos
    }

    /// Point the jump at `jump_pos` to the next instruction to be
    /// emitted. Only the operand of that one instruction changes, and
    /// the computed offset always stays within `i16` or is rejected, so
    /// patching never writes outside the instruction list and never
    /// produces an offset beyond `i16::MAX`.
    fn patch_jump(&mut self, jump_pos: usize) -> (r: CompileResult<()>)
        requires
            old(self).wf(),
            jump_pos < old(self).chunk.instructions@.len(),
            jump_offset(imodel(old(self).chunk.instructions@[jump_pos as int]))
                is Some,
        ensures
            final(self).wf(),
            final(self).locals == old(self).locals,
            final(self).scope_depth == old(self).scope_depth,
            final(self).chunk.constants == old(self).chunk.constants,
            final(self).chunk.spans == old(self).chunk.spans,
            final(self).chunk.instructions@.len()
                == old(self).chunk.instructions@.len(),
            forall|i: int| 0 <= i < old(self).chunk.instructions@.len()
                && i != jump_pos ==> final(self).chunk.instructions@[i]
                == old(self).chunk.instructions@[i],
            match r {
                Ok(()) => {
                    let off = old(self).chunk.instructions@.len() - jump_pos - 1;
                    &&& off <= i16::MAX
                    &&& jump_offset(imodel(
                        final(self).chunk.instructions@[jump_pos as int],
                    )) == Some(off as int)
                    &&& (old(self).chunk.instructions@[jump_pos as int]
                        matches Instruction::Jump(_)
                        ==> (final(self).chunk.instructions@[jump_pos as int]
                            matches Instruction::Jump(_)))
                    &&& (old(self).chunk.instructions@[jump_pos as int]
                        matches Instruction::JumpIfFalse(_)
                        ==> (final(self).chunk.instructions@[jump_pos as int]
                            matches Instruction::JumpIfFalse(_)))
                },
                Err(e) => e == CompileError::InvalidJumpOffset
                    && old(self).chunk.instructions@.len() - jump_pos - 1 > i16::MAX
                    && final(self).chunk == old(self).chunk,
            },
    {
        let offset = self.chunk.current_offset() - jump_pos - 1;
        if offset > 32767 {
            return Err(CompileError::InvalidJumpOffset);
        }
        let off = offset as i16;
        let ghost pre = self.chunk;
        let replacement = match &self.chunk.instructions[jump_pos] {
            Instruction::Jump(_) => Instruction::Jump(off),
            Instruction::JumpIfFalse(_) => Instruction::JumpIfFalse(off),
            _ => Instruction::JumpIfTrue(off),
        };
        self.chunk.set_instruction(jump_pos, replacement);
        proof {
            lemma_patch_wf(pre, self.chunk, jump_pos as int, imodel(replacement));
        }
        Ok(())
    }

    /// Compile a conditional: the test leaves its value on the stack; a
    /// false value jumps over the then-branch into the else-branch, and
    /// the then-branch jumps over the else-branch. Each branch first
    /// discards the test value.
    fn compile_if(&mut self, cond: &Expr, then_branch: &Expr, else_branch: &Expr) -> (r:
        CompileResult<()>)
        requires
            old(self).wf(),
        ensures
            final(self).wf(),
            final(self).chunk.instructions@.len()
                >= old(self).chunk.instructions@.len(),
            final(self).chunk.instructions@.take(
                old(self).chunk.instructions@.len() as int,
            ) =~= old(self).chunk.instructions@,
            final(self).chunk.constants@.len() >= old(self).chunk.constants@.len(),
            final(self).locals@ == old(self).locals@,
            final(self).scope_depth == old(self).scope_depth,
            r matches Ok(()) ==> final(self).chunk.instructions@.len()
                >= old(self).chunk.instructions@.len() + 7
                && (exists|p: int| old(self).chunk.instructions@.len() <= p
                    < final(self).chunk.instructions@.len()
                    && ((#[trigger] final(self).chunk.instructions@[p])
                        matches Instruction::JumpIfFalse(_)))
                && (exists|p: int| old(self).chunk.instructions@.len() <= p
                    < final(self).chunk.instructions@.len()
                    && ((#[trigger] final(self).chunk.instructions@[p])
                        matches Instruction::Jump(_))),
            final(self).chunk.instructions@.len() + 14
                <= old(self).chunk.instructions@.len()
                + 16 * (fsize(*cond) + fsize(*then_branch) + fsize(*else_branch))
                + 16,
            final(self).chunk.constants@.len()
                <= old(self).chunk.constants@.len()
                + fsize(*cond) + fsize(*then_branch) + fsize(*else_branch) + 1,
            (compilable(*cond, names_of(old(self).locals@))
                && compilable(*then_branch, names_of(old(self).locals@))
                && compilable(*else_branch, names_of(old(self).locals@))
                && old(self).chunk.constants@.len() + fsize(*cond)
                    + fsize(*then_branch) + fsize(*else_branch) <= MAX_CONSTANTS
                && old(self).scope_depth <= old(self).locals@.len()
                && 16 * (fsize(*cond) + fsize(*then_branch) + fsize(*else_branch))
                    <= 32767) ==> r is Ok,
        decreases esize(*cond) + esize(*then_branch) + esize(*else_branch), 1int,
    {
        let ghost n0 = old(self).chunk.instructions@.len() as int;
        self.compile_expr(cond)?;
        let jump_to_else = self.emit_jump(Instruction::JumpIfFalse(0));
        self.emit(Instruction::Pop);
        proof {
            assert(self.chunk.instructions@[jump_to_else as int]
                == Instruction::JumpIfFalse(0i16));
            assert(self.chunk.instructions@.take(n0) =~= old(self).chunk.instructions@);
        }
        let ghost s1 = self.chunk.instructions@;
        match self.compile_expr(then_branch) {
            Ok(()) => {},
            Err(e) => {
                proof {
                    assert(self.chunk.instructions@.take(s1.len() as int) =~= s1);
                    assert(self.chunk.instructions@.take(n0)
                        =~= old(self).chunk.instructions@);
                }
                return Err(e);
            },
        }
        proof {
            assert(self.chunk.instructions@.take(s1.len() as int) =~= s1);
            assert(self.chunk.instructions@[jump_to_else as int] == s1[jump_to_else as int]);
            assert(self.chunk.instructions@.take(n0) =~= old(self).chunk.instructions@);
        }
        let jump_to_end = self.emit_jump(Instruction::Jump(0));
        proof {
            assert(self.chunk.instructions@[jump_to_else as int]
                == Instruction::JumpIfFalse(0i16));
        }
        match self.patch_jump(jump_to_else) {
            Ok(()) => {},
            Err(e) => {
                proof {
                    assert(self.chunk.instructions@.take(n0)
                        =~= old(self).chunk.instructions@);
                }
                return Err(e);
            },
        }
        self.emit(Instruction::Pop);
        proof {
            assert(jump_to_end > jump_to_else);
            assert(self.chunk.instructions@[jump_to_end as int] == Instruction::Jump(0i16));
            assert(self.chunk.instructions@[jump_to_else as int]
                matches Instruction::JumpIfFalse(_));
            assert(self.chunk.instructions@.take(n0) =~= old(self).chunk.instructions@);
        }
        let ghost s2 = self.chunk.instructions@;
        match self.compile_expr(else_branch) {
            Ok(()) => {},
            Err(e) => {
                proof {
                    assert(self.chunk.instructions@.take(s2.len() as int) =~= s2);
                    assert(self.chunk.instructions@.take(n0)
                        =~= old(self).chunk.instructions@);
                }
                return Err(e);
            },
        }
        proof {
            assert(self.chunk.instructions@.take(s2.len() as int) =~= s2);
            assert(self.chunk.instructions@[jump_to_end as int] == s2[jump_to_end as int]);
            assert(self.chunk.instructions@[jump_to_else as int]
                == s2[jump_to_else as int]);
            assert(self.chunk.instructions@[jump_to_else as int]
                matches Instruction::JumpIfFalse(_));
            assert(self.chunk.instructions@.take(n0) =~= old(self).chunk.instructions@);
        }
        match self.patch_jump(jump_to_end) {
            Ok(()) => {},
            Err(e) => {
                proof {
                    assert(self.chunk.instructions@.take(n0)
                        =~= old(self).chunk.instructions@);
                }
                return Err(e);
            },
        }
        proof {
            assert(self.chunk.instructions@.take(n0) =~= old(self).chunk.instructions@);
            assert(n0 <= jump_to_else < self.chunk.instructions@.len());
            assert(n0 <= jump_to_end < self.chunk.instructions@.len());
            assert(self.chunk.instructions@[jump_to_else as int]
                matches Instruction::JumpIfFalse(_));
            assert(self.chunk.instructions@[jump_to_end as int]
                matches Instruction::Jump(_));
        }
        Ok(())
    }

    /// Compile a tuple: each element in order, then its construction.
    fn compile_tuple(&mut self, items: &Vec<Expr>) -> (r: CompileResult<()>)
        requires
            old(self).wf(),
        ensures
            final(self).wf(),
            final(self).chunk.instructions@.len()
                >= old(self).chunk.instructions@.len(),
            final(self).chunk.instructions@.take(
                old(self).chunk.instructions@.len() as int,
            ) =~= old(self).chunk.instructions@,
            final(self).chunk.constants@.len() >= old(self).chunk.constants@.len(),
            final(self).locals@ == old(self).locals@,
            final(self).scope_depth == old(self).scope_depth,
            r matches Ok(()) ==> final(self).chunk.instructions@.len()
                > old(self).chunk.instructions@.len()
                && (final(self).chunk.instructions@.last()
                    matches Instruction::MakeTuple(n)
                    && n as int == items@.len()),
            final(self).chunk.instructions@.len() + 14
                <= old(self).chunk.instructions@.len()
                + 16 * fexprs_size(items@) + 16,
            final(self).chunk.constants@.len()
                <= old(self).chunk.constants@.len() + fexprs_size(items@) + 1,
            (items@.len() <= 255
                && seq_compilable(items@, names_of(old(self).locals@))
                && old(self).chunk.constants@.len() + fexprs_size(items@)
                    <= MAX_CONSTANTS
                && old(self).scope_depth <= old(self).locals@.len()
                && 16 * fexprs_size(items@) <= 32767) ==> r is Ok,
        decreases exprs_size(items@), 1int,
    {
        if items.len() > 255 {
            return Err(CompileError::UnsupportedOperation(String::from_str(
                "tuple with more than 255 elements",
            )));
        }
        let n = items.len() as u8;
        let mut i: usize = 0;
        proof {
            assert(items@.skip(0) =~= items@);
        }
        while i < items.len()
            invariant
                old(self).wf(),
                i <= items@.len(),
                self.wf(),
                self.chunk.instructions@.len() >= old(self).chunk.instructions@.len(),
                self.chunk.instructions@.take(
                    old(self).chunk.instructions@.len() as int,
                ) =~= old(self).chunk.instructions@,
                self.chunk.constants@.len() >= old(self).chunk.constants@.len(),
                self.chunk.instructions@.len() + 16 * fexprs_size(
                    items@.skip(i as int),
                ) <= old(self).chunk.instructions@.len() + 16 * fexprs_size(items@),
                self.chunk.constants@.len() + fexprs_size(items@.skip(i as int))
                    <= old(self).chunk.constants@.len() + fexprs_size(items@),
                self.locals@ == old(self).locals@,
                self.scope_depth == old(self).scope_depth,
            decreases items@.len() - i,
        {
            proof {
                lemma_exprs_size_elem(items@, i as int);
                assert(items@.skip(i as int)[0] == items@[i as int]);
                assert(items@.skip(i as int).skip(1) =~= items@.skip(i as int + 1));
                assert(fexprs_size(items@.skip(i as int)) == fsize(items@[i as int])
                    + fexprs_size(items@.skip(i as int + 1)));
            }
            let ghost mid = *self;
            match self.compile_expr(&items[i]) {
                Ok(()) => {},
                Err(e) => {
                    proof {
                        lemma_take_chain(
                            old(self).chunk.instructions@,
                            mid.chunk.instructions@,
                            self.chunk.instructions@,
                        );
                    }
                    return Err(e);
                },
            }
            proof {
                lemma_take_chain(
                    old(self).chunk.instructions@,
                    mid.chunk.instructions@,
                    self.chunk.instructions@,
                );
            }
            i = i + 1;
        }
        proof {
            assert(items@.skip(items@.len() as int) =~= Seq::<Expr>::empty());
        }
        self.emit(Instruction::MakeTuple(n));
        proof {
            assert(final(self).chunk.instructions@.take(
                old(self).chunk.instructions@.len() as int,
            ) =~= old(self).chunk.instructions@);
        }
        Ok(())
    }

    /// Compile a list literal: the empty list first, then each element
    /// from the last to the first, consing onto the front.
    fn compile_list(&mut self, items: &Vec<Expr>) -> (r: CompileResult<()>)
        requires
            old(self).wf(),
        ensures
            final(self).wf(),
            final(self).chunk.instructions@.len()
                >= old(self).chunk.instructions@.len(),
            final(self).chunk.instructions@.take(
                old(self).chunk.instructions@.len() as int,
            ) =~= old(self).chunk.instructions@,
            final(self).chunk.constants@.len() >= old(self).chunk.constants@.len(),
            final(self).locals@ == old(self).locals@,
            final(self).scope_depth == old(self).scope_depth,
            (r matches Ok(()) && items@.len() == 0)
                ==> final(self).chunk.instructions@
                    == old(self).chunk.instructions@.push(Instruction::Nil),
            (r matches Ok(()) && items@.len() > 0)
                ==> final(self).chunk.instructions@.len()
                    > old(self).chunk.instructions@.len()
                    && final(self).chunk.instructions@.last() == Instruction::Cons,
            final(self).chunk.instructions@.len() + 14
                <= old(self).chunk.instructions@.len()
                + 16 * fexprs_size(items@) + 16,
            final(self).chunk.constants@.len()
                <= old(self).chunk.constants@.len() + fexprs_size(items@) + 1,
            (seq_compilable(items@, names_of(old(self).locals@))
                && old(self).chunk.constants@.len() + fexprs_size(items@)
                    <= MAX_CONSTANTS
                && old(self).scope_depth <= old(self).locals@.len()
                && 16 * fexprs_size(items@) <= 32767) ==> r is Ok,
        decreases exprs_size(items@), 1int,
    {
        self.emit(Instruction::Nil);
        let mut i: usize = items.len();
        proof {
            assert(items@.take(items@.len() as int) =~= items@);
        }
        while i > 0
            invariant
                old(self).wf(),
                i <= items@.len(),
                self.wf(),
                self.chunk.instructions@.len() >= old(self).chunk.instructions@.len(),
                self.chunk.instructions@.take(
                    old(self).chunk.instructions@.len() as int,
                ) =~= old(self).chunk.instructions@,
                self.chunk.constants@.len() >= old(self).chunk.constants@.len(),
                self.chunk.instructions@.len() + 16 * fexprs_size(
                    items@.take(i as int),
                ) + 13 * (items@.len() - i) <= old(self).chunk.instructions@.len()
                    + 1 + 16 * fexprs_size(items@),
                self.chunk.constants@.len() + fexprs_size(items@.take(i as int))
                    <= old(self).chunk.constants@.len() + fexprs_size(items@),
                self.locals@ == old(self).locals@,
                self.scope_depth == old(self).scope_depth,
                self.chunk.instructions@.len() > old(self).chunk.instructions@.len(),
                i == items@.len() ==> self.chunk.instructions@
                    == old(self).chunk.instructions@.push(Instruction::Nil),
                i < items@.len() ==> self.chunk.instructions@.last()
                    == Instruction::Cons,
            decreases i,
        {
            i = i - 1;
            proof {
                lemma_exprs_size_elem(items@, i as int);
                lemma_fexprs_size_take(items@, i as int);
            }
            let ghost mid = *self;
            match self.compile_expr(&items[i]) {
                Ok(()) => {},
                Err(e) => {
                    proof {
                        lemma_take_chain(
                            old(self).chunk.instructions@,
                            mid.chunk.instructions@,
                            self.chunk.instructions@,
                        );
                    }
                    return Err(e);
                },
            }
            self.emit(Instruction::Cons);
            proof {
                lemma_take_chain(
                    old(self).chunk.instructions@,
                    mid.chunk.instructions@,
                    self.chunk.instructions@,
                );
            }
        }
        proof {
            assert(items@.take(0) =~= Seq::<Expr>::empty());
        }
        Ok(())
    }

    /// Compile a variant construction: each field in order, then the
    /// variant's construction.
    fn compile_variant(&mut self, tag: &String, variant: &String, fields: &Vec<Box<Expr>>)
        -> (r: CompileResult<()>)
        requires
            old(self).wf(),
        ensures
            final(self).wf(),
            final(self).chunk.instructions@.len()
                >= old(self).chunk.instructions@.len(),
            final(self).chunk.instructions@.take(
                old(self).chunk.instructions@.len() as int,
            ) =~= old(self).chunk.instructions@,
            final(self).chunk.constants@.len() >= old(self).chunk.constants@.len(),
            final(self).locals@ == old(self).locals@,
            final(self).scope_depth == old(self).scope_depth,
            r matches Ok(()) ==> final(self).chunk.instructions@.len()
                > old(self).chunk.instructions@.len()
                && (final(self).chunk.instructions@.last()
                    matches Instruction::MakeVariant { tag: t, ctor: c, arity: a }
                    && t@ == tag@ && c@ == variant@ && a as int == fields@.len()),
            final(self).chunk.instructions@.len() + 14
                <= old(self).chunk.instructions@.len()
                + 16 * fbexprs_size(fields@) + 16,
            final(self).chunk.constants@.len()
                <= old(self).chunk.constants@.len() + fbexprs_size(fields@) + 1,
            (fields@.len() <= 255
                && bseq_compilable(fields@, names_of(old(self).locals@))
                && old(self).chunk.constants@.len() + fbexprs_size(fields@)
                    <= MAX_CONSTANTS
                && old(self).scope_depth <= old(self).locals@.len()
                && 16 * fbexprs_size(fields@) <= 32767) ==> r is Ok,
        decreases bexprs_size(fields@), 1int,
    {
        if fields.len() > 255 {
            return Err(CompileError::UnsupportedOperation(String::from_str(
                "variant with more than 255 fields",
            )));
        }
        let n = fields.len() as u8;
        let mut i: usize = 0;
        proof {
            assert(fields@.skip(0) =~= fields@);
        }
        while i < fields.len()
            invariant
                old(self).wf(),
                i <= fields@.len(),
                self.wf(),
                self.chunk.instructions@.len() >= old(self).chunk.instructions@.len(),
                self.chunk.instructions@.take(
                    old(self).chunk.instructions@.len() as int,
                ) =~= old(self).chunk.instructions@,
                self.chunk.constants@.len() >= old(self).chunk.constants@.len(),
                self.chunk.instructions@.len() + 16 * fbexprs_size(
                    fields@.skip(i as int),
                ) <= old(self).chunk.instructions@.len()
                    + 16 * fbexprs_size(fields@),
                self.chunk.constants@.len() + fbexprs_size(fields@.skip(i as int))
                    <= old(self).chunk.constants@.len() + fbexprs_size(fields@),
                self.locals@ == old(self).locals@,
                self.scope_depth == old(self).scope_depth,
            decreases fields@.len() - i,
        {
            proof {
                lemma_bexprs_size_elem(fields@, i as int);
                assert(fields@.skip(i as int)[0] == fields@[i as int]);
                assert(fields@.skip(i as int).skip(1) =~= fields@.skip(i as int + 1));
                assert(fbexprs_size(fields@.skip(i as int)) == fsize(*fields@[i as int])
                    + fbexprs_size(fields@.skip(i as int + 1)));
            }
            let ghost mid = *self;
            match self.compile_expr(&fields[i]) {
                Ok(()) => {},
                Err(e) => {
                    proof {
                        lemma_take_chain(
                            old(self).chunk.instructions@,
                            mid.chunk.instructions@,
                            self.chunk.instructions@,
                        );
                    }
                    return Err(e);
                },
            }
            proof {
                lemma_take_chain(
                    old(self).chunk.instructions@,
                    mid.chunk.instructions@,
                    self.chunk.instructions@,
                );
            }
            i = i + 1;
        }
        proof {
            assert(fields@.skip(fields@.len() as int) =~= Seq::<Box<Expr>>::empty());
        }
        self.emit(Instruction::MakeVariant {
            tag: tag.clone(),
            ctor: variant.clone(),
            arity: n,
        });
        proof {
            assert(final(self).chunk.instructions@.take(
                old(self).chunk.instructions@.len() as int,
            ) =~= old(self).chunk.instructions@);
        }
        Ok(())
    }

    /// Compile a match: the scrutinee is kept in a hidden local slot;
    /// each arm tests its pattern, binds its variables, and evaluates
    /// its body, whose result slides down over the slot; a value no arm
    /// accepts is a runtime failure. Patterns may be a wildcard, a name,
    /// a literal, or a constructor whose sub-patterns are wildcards or
    /// names.
    fn compile_match(&mut self, scrutinee: &Expr, arms: &Vec<MatchArm>) -> (r:
        CompileResult<()>)
        requires
            old(self).wf(),
        ensures
            final(self).wf(),
            final(self).chunk.instructions@.len()
                >= old(self).chunk.instructions@.len(),
            final(self).chunk.instructions@.take(
                old(self).chunk.instructions@.len() as int,
            ) =~= old(self).chunk.instructions@,
            final(self).chunk.constants@.len() >= old(self).chunk.constants@.len(),
            final(self).locals@ == old(self).locals@,
            final(self).scope_depth == old(self).scope_depth,
            r matches Ok(()) ==> final(self).chunk.instructions@.len()
                > old(self).chunk.instructions@.len()
                && final(self).chunk.instructions@.last() == Instruction::MatchFail,
            final(self).chunk.instructions@.len() + 14
                <= old(self).chunk.instructions@.len()
                + 16 * (fsize(*scrutinee) + farms_size(arms@)) + 16,
            final(self).chunk.constants@.len()
                <= old(self).chunk.constants@.len()
                + fsize(*scrutinee) + farms_size(arms@) + 1,
            (old(self).locals@.len() < MAX_LOCALS
                && compilable(*scrutinee, names_of(old(self).locals@))
                && arms_compilable(arms@, names_of(old(self).locals@).push("$match"@))
                && old(self).chunk.constants@.len() + fsize(*scrutinee)
                    + farms_size(arms@) <= MAX_CONSTANTS
                && old(self).scope_depth <= old(self).locals@.len()
                && 16 * (fsize(*scrutinee) + farms_size(arms@)) <= 32767)
                ==> r is Ok,
        decreases esize(*scrutinee) + arms_size(arms@), 2int,
    {
        self.compile_expr(scrutinee)?;
        proof {
            if old(self).scope_depth <= old(self).locals@.len() {
                assert(self.scope_depth < usize::MAX);
            }
        }
        if self.scope_depth == usize::MAX {
            return Err(CompileError::UnsupportedOperation(String::from_str(
                "scope nesting too deep",
            )));
        }
        self.scope_depth = self.scope_depth + 1;
        match self.add_local(String::from_str("$match")) {
            Ok(()) => {},
            Err(e) => {
                self.scope_depth = self.scope_depth - 1;
                return Err(e);
            },
        }
        proof {
            assert(names_of(self.locals@) =~= names_of(old(self).locals@).push(
                "$match"@,
            ));
        }
        let slot = self.locals.len() - 1;
        self.emit(Instruction::StoreLocal(slot as u8));
        let mut end_jumps: Vec<usize> = Vec::new();
        let mut a: usize = 0;
        let ghost pre_arms_ilen = self.chunk.instructions@.len();
        let ghost pre_arms_clen = self.chunk.constants@.len();
        proof {
            assert(arms@.skip(0) =~= arms@);
        }
        while a < arms.len()
            invariant
                old(self).wf(),
                a <= arms@.len(),
                self.wf(),
                self.chunk.instructions@.len() >= old(self).chunk.instructions@.len(),
                self.chunk.instructions@.take(
                    old(self).chunk.instructions@.len() as int,
                ) =~= old(self).chunk.instructions@,
                self.chunk.constants@.len() >= old(self).chunk.constants@.len(),
                self.chunk.instructions@.len() + 14 + 16 * farms_size(
                    arms@.skip(a as int),
                ) <= pre_arms_ilen + 14 + 16 * farms_size(arms@),
                self.chunk.constants@.len() + farms_size(arms@.skip(a as int))
                    <= pre_arms_clen + farms_size(arms@),
                pre_arms_ilen + 14 <= old(self).chunk.instructions@.len()
                    + 16 * fsize(*scrutinee) + 2,
                pre_arms_clen <= old(self).chunk.constants@.len()
                    + fsize(*scrutinee),
                names_of(self.locals@) == names_of(old(self).locals@).push(
                    "$match"@,
                ),
                self.locals@.len() == old(self).locals@.len() + 1,
                self.locals@.take(old(self).locals@.len() as int)
                    == old(self).locals@,
                slot == self.locals@.len() - 1,
                slot < MAX_LOCALS,
                self.scope_depth == old(self).scope_depth + 1,
                forall|k: int| 0 <= k < end_jumps@.len()
                    ==> (#[trigger] end_jumps@[k]) < self.chunk.instructions@.len()
                        && end_jumps@[k] >= old(self).chunk.instructions@.len()
                        && jump_offset(imodel(
                            self.chunk.instructions@[end_jumps@[k] as int],
                        )) == Some(0int)
                        && (self.chunk.instructions@[end_jumps@[k] as int]
                            matches Instruction::Jump(_)),
            decreases arms@.len() - a,
        {
            proof {
                lemma_arms_size_elem(arms@, a as int);
                assert(arms@.skip(a as int)[0] == arms@[a as int]);
                assert(arms@.skip(a as int).skip(1) =~= arms@.skip(a as int + 1));
                assert(farms_size(arms@.skip(a as int))
                    == psize(arms@[a as int].pattern) + fsize(arms@[a as int].body)
                    + farms_size(arms@.skip(a as int + 1)));
            }
            let ghost mid = *self;
            match self.compile_arm(&arms[a], slot) {
                Ok(pos) => {
                    end_jumps.push(pos);
                },
                Err(e) => {
                    self.locals.pop();
                    self.scope_depth = self.scope_depth - 1;
                    proof {
                        lemma_take_chain(
                            old(self).chunk.instructions@,
                            mid.chunk.instructions@,
                            self.chunk.instructions@,
                        );
                    }
                    return Err(e);
                },
            }
            proof {
                lemma_take_chain(
                    old(self).chunk.instructions@,
                    mid.chunk.instructions@,
                    self.chunk.instructions@,
                );
            }
            a = a + 1;
        }
        proof {
            assert(arms@.skip(arms@.len() as int) =~= Seq::<MatchArm>::empty());
        }
        self.emit(Instruction::MatchFail);
        let ghost post_fail_ilen = self.chunk.instructions@.len();
        let ghost post_fail_clen = self.chunk.constants@.len();
        let mut k: usize = 0;
        while k < end_jumps.len()
            invariant
                old(self).wf(),
                k <= end_jumps@.len(),
                self.wf(),
                self.chunk.instructions@.len() == post_fail_ilen,
                self.chunk.constants@.len() == post_fail_clen,
                post_fail_ilen + 14 <= old(self).chunk.instructions@.len()
                    + 16 * (fsize(*scrutinee) + farms_size(arms@)) + 3,
                post_fail_clen <= old(self).chunk.constants@.len()
                    + fsize(*scrutinee) + farms_size(arms@),
                self.chunk.instructions@.len() >= old(self).chunk.instructions@.len(),
                self.chunk.instructions@.take(
                    old(self).chunk.instructions@.len() as int,
                ) =~= old(self).chunk.instructions@,
                self.chunk.constants@.len() >= old(self).chunk.constants@.len(),
                self.locals@.len() == old(self).locals@.len() + 1,
                self.locals@.take(old(self).locals@.len() as int)
                    == old(self).locals@,
                slot == self.locals@.len() - 1,
                slot < MAX_LOCALS,
                self.scope_depth == old(self).scope_depth + 1,
                self.chunk.instructions@.len() > old(self).chunk.instructions@.len(),
                self.chunk.instructions@.last() == Instruction::MatchFail,
                forall|j: int| 0 <= j < end_jumps@.len()
                    ==> (#[trigger] end_jumps@[j]) < self.chunk.instructions@.len() - 1
                        && end_jumps@[j] >= old(self).chunk.instructions@.len()
                        && jump_offset(imodel(
                            self.chunk.instructions@[end_jumps@[j] as int],
                        )) is Some,
            decreases end_jumps@.len() - k,
        {
            let pos = end_jumps[k];
            let ghost mid = *self;
            match self.patch_jump(pos) {
                Ok(()) => {},
                Err(e) => {
                    self.locals.pop();
                    self.scope_depth = self.scope_depth - 1;
                    proof {
                        lemma_take_chain(
                            old(self).chunk.instructions@,
                            mid.chunk.instructions@,
                            self.chunk.instructions@,
                        );
                    }
                    return Err(e);
                },
            }
            proof {
                assert(self.chunk.instructions@.take(
                    old(self).chunk.instructions@.len() as int,
                ) =~= old(self).chunk.instructions@);
            }
            k = k + 1;
        }
        self.locals.pop();
        self.scope_depth = self.scope_depth - 1;
        Ok(())
    }

    /// Compile one arm: test the pattern against the scrutinee slot's
    /// value, bind its variables, run the body, slide the result over
    /// the scrutinee slot, and jump to the end of the match. Reports the
    /// index of that final jump, to be patched once all arms are
    /// emitted. A failing test falls through, past the final jump, to a
    /// discard of the test value and then the next arm.
    #[verifier::rlimit(100)]
    fn compile_arm(&mut self, arm: &MatchArm, slot: usize) -> (r: CompileResult<usize>)
        requires
            old(self).wf(),
            slot < MAX_LOCALS,
            slot == old(self).locals@.len() - 1,
        ensures
            final(self).wf(),
            final(self).chunk.instructions@.len()
                >= old(self).chunk.instructions@.len(),
            final(self).chunk.instructions@.take(
                old(self).chunk.instructions@.len() as int,
            ) =~= old(self).chunk.instructions@,
            final(self).chunk.constants@.len() >= old(self).chunk.constants@.len(),
            final(self).chunk.instructions@.len() + 14
                <= old(self).chunk.instructions@.len()
                + 16 * (psize(arm.pattern) + fsize(arm.body)),
            final(self).chunk.constants@.len()
                <= old(self).chunk.constants@.len()
                + psize(arm.pattern) + fsize(arm.body),
            (pat_ok(arm.pattern)
                && old(self).locals@.len() + pat_names(arm.pattern).len()
                    <= MAX_LOCALS
                && compilable(
                    arm.body,
                    names_of(old(self).locals@) + pat_names(arm.pattern),
                )
                && old(self).chunk.constants@.len() + psize(arm.pattern)
                    + fsize(arm.body) <= MAX_CONSTANTS
                && old(self).scope_depth <= old(self).locals@.len()
                && 16 * (psize(arm.pattern) + fsize(arm.body)) <= 32767)
                ==> r is Ok,
            final(self).locals@ == old(self).locals@,
            final(self).scope_depth == old(self).scope_depth,
            match r {
                Ok(pos) => pos < final(self).chunk.instructions@.len()
                    && pos >= old(self).chunk.instructions@.len()
                    && (final(self).chunk.instructions@[pos as int]
                        matches Instruction::Jump(_))
                    && jump_offset(imodel(
                        final(self).chunk.instructions@[pos as int],
                    )) == Some(0int),
                Err(_) => true,
            },
        decreases esize(arm.body), 1int,
    {
        let ghost orig = old(self).chunk.instructions@;
        let ghost n0 = old(self).chunk.instructions@.len() as int;
        let locals_before = self.locals.len();
        // Test phase: conditional patterns leave a boolean on top and
        // jump past this arm when it is false.
        let test_jump: Option<usize> = match &arm.pattern {
            Pattern::Wildcard => None,
            Pattern::Var(_) => None,
            Pattern::Lit(lit) => {
                self.emit(Instruction::Dup);
                let ghost s_dup = self.chunk.instructions@;
                match self.compile_literal(lit) {
                    Ok(()) => {},
                    Err(e) => {
                        proof {
                            assert(self.chunk.instructions@.take(s_dup.len() as int)
                                =~= s_dup);
                            assert(self.chunk.instructions@.take(n0)
                                =~= orig);
                        }
                        return Err(e);
                    },
                }
                self.emit(Instruction::Eq);
                let j = self.emit_jump(Instruction::JumpIfFalse(0));
                self.emit(Instruction::Pop);
                proof {
                    assert(self.chunk.instructions@[j as int]
                        == Instruction::JumpIfFalse(0i16));
                    assert(self.chunk.instructions@.take(n0) =~= orig);
                }
                Some(j)
            },
            Pattern::Variant { variant, patterns: _ } => {
                self.emit(Instruction::TestVariant { ctor: variant.clone() });
                let j = self.emit_jump(Instruction::JumpIfFalse(0));
                self.emit(Instruction::Pop);
                proof {
                    assert(self.chunk.instructions@[j as int]
                        == Instruction::JumpIfFalse(0i16));
                    assert(self.chunk.instructions@.take(n0) =~= orig);
                }
                Some(j)
            },
            Pattern::Tuple(_) => {
                return Err(CompileError::UnsupportedOperation(String::from_str(
                    "tuple pattern",
                )));
            },
        };
        let ghost s_test = self.chunk.instructions@;
        let ghost c_test = self.chunk.constants@.len();
        proof {
            assert(self.chunk.instructions@.take(n0) =~= orig);
            assert(s_test.len() <= n0 + 5);
            assert(c_test <= old(self).chunk.constants@.len() + 1);
            match test_jump {
                Some(j) => {
                    assert((j as int) < s_test.len());
                    assert(s_test[j as int] == Instruction::JumpIfFalse(0i16));
                },
                None => {},
            }
        }
        assert(self.locals.len() == locals_before);
        // Binding phase: create a local for each name the pattern binds.
        match &arm.pattern {
            Pattern::Var(x) => {
                self.emit(Instruction::Dup);
                let ghost locs_pre = self.locals@;
                match self.add_local(x.clone()) {
                    Ok(()) => {},
                    Err(e) => {
                        proof {
                            assert(self.chunk.instructions@.take(n0) =~= orig);
                        }
                        return Err(e);
                    },
                }
                proof {
                    assert(names_of(self.locals@) =~= names_of(locs_pre).push(x@));
                    assert(names_of(self.locals@) =~= names_of(old(self).locals@)
                        + pat_names(arm.pattern));
                }
                let sl = self.locals.len() - 1;
                self.emit(Instruction::StoreLocal(sl as u8));
            },
            Pattern::Variant { variant: _, patterns } => {
                if patterns.len() > 255 {
                    return Err(CompileError::UnsupportedOperation(String::from_str(
                        "variant pattern with more than 255 fields",
                    )));
                }
                let mut i: usize = 0;
                proof {
                    assert(patterns@.take(0) =~= Seq::<Pattern>::empty());
                    assert(names_of(self.locals@) =~= names_of(old(self).locals@)
                        + var_names_of(patterns@.take(0)));
                }
                while i < patterns.len()
                    invariant
                        old(self).wf(),
                        i <= patterns@.len(),
                        patterns@.len() <= 255,
                        slot < MAX_LOCALS,
                        self.wf(),
                        locals_before == old(self).locals@.len(),
                        locals_before <= self.locals@.len(),
                        self.locals@.take(locals_before as int)
                            == old(self).locals@,
                        self.chunk.instructions@.len() <= s_test.len() + 3 * i,
                        self.chunk.constants@.len() == c_test,
                        psize(arm.pattern) == 1 + patterns@.len(),
                        s_test.len() <= n0 + 5,
                        c_test <= old(self).chunk.constants@.len() + 1,
                        pat_names(arm.pattern) == var_names_of(patterns@),
                        pat_ok(arm.pattern) ==> flat_pats(patterns@),
                        names_of(self.locals@) == names_of(old(self).locals@)
                            + var_names_of(patterns@.take(i as int)),
                        n0 == orig.len(),
                        orig == old(self).chunk.instructions@,
                        s_test.len() <= self.chunk.instructions@.len(),
                        self.chunk.instructions@.take(s_test.len() as int) =~= s_test,
                        n0 <= s_test.len(),
                        self.chunk.instructions@.take(n0) =~= orig,
                        self.chunk.constants@.len()
                            >= old(self).chunk.constants@.len(),
                        self.scope_depth == old(self).scope_depth,
                    decreases patterns@.len() - i,
                {
                    proof {
                        assert(patterns@.take(i as int + 1).drop_last()
                            =~= patterns@.take(i as int));
                        assert(patterns@.take(i as int + 1).last()
                            == patterns@[i as int]);
                        lemma_var_names_take_len(patterns@, i as int + 1);
                    }
                    match &patterns[i] {
                        Pattern::Wildcard => {},
                        Pattern::Var(x) => {
                            self.emit(Instruction::LoadLocal(slot as u8));
                            self.emit(Instruction::GetVariantField(i as u8));
                            let ghost locs_pre = self.locals@;
                            match self.add_local(x.clone()) {
                                Ok(()) => {},
                                Err(e) => {
                                    self.truncate_locals(locals_before);
                                    proof {
                                        assert(self.chunk.instructions@.take(n0) =~= orig);
                                        assert(self.locals@
                                            =~= old(self).locals@);
                                        assert(psize(arm.pattern)
                                            == 1 + patterns@.len());
                                        assert(fsize(arm.body) >= 1);
                                        assert(var_names_of(
                                            patterns@.take(i as int + 1),
                                        ) == var_names_of(
                                            patterns@.take(i as int),
                                        ).push(x@));
                                        assert(pat_names(arm.pattern).len()
                                            == var_names_of(patterns@).len());
                                        assert(names_of(locs_pre) == names_of(
                                            old(self).locals@,
                                        ) + var_names_of(patterns@.take(i as int)));
                                        assert(names_of(locs_pre).len()
                                            == locs_pre.len());
                                        assert(locs_pre.len() == old(self).locals@.len()
                                            + var_names_of(
                                            patterns@.take(i as int),
                                        ).len());
                                    }
                                    return Err(e);
                                },
                            }
                            proof {
                                assert(self.locals@.take(locals_before as int)
                                    =~= locs_pre.take(locals_before as int));
                                assert(names_of(self.locals@) =~= names_of(
                                    locs_pre,
                                ).push(x@));
                            }
                            let sl = self.locals.len() - 1;
                            self.emit(Instruction::StoreLocal(sl as u8));
                        },
                        _ => {
                            self.truncate_locals(locals_before);
                            proof {
                                assert(self.chunk.instructions@.take(n0) =~= orig);
                                assert(self.locals@ =~= old(self).locals@);
                                assert(psize(arm.pattern) == 1 + patterns@.len());
                                assert(fsize(arm.body) >= 1);
                                assert(!(patterns@[i as int]
                                    matches Pattern::Wildcard));
                                assert(!(patterns@[i as int]
                                    matches Pattern::Var(_)));
                                assert(!flat_pats(patterns@));
                            }
                            return Err(CompileError::UnsupportedOperation(
                                String::from_str("nested pattern"),
                            ));
                        },
                    }
                    i = i + 1;
                }
                proof {
                    assert(patterns@.take(patterns@.len() as int) =~= patterns@);
                    assert(names_of(self.locals@) =~= names_of(old(self).locals@)
                        + pat_names(arm.pattern));
                }
            },
            _ => {},
        }
        proof {
            assert(self.chunk.instructions@.take(s_test.len() as int) =~= s_test);
            assert(self.chunk.instructions@.take(n0) =~= orig);
            assert(self.locals@.take(locals_before as int) =~= old(self).locals@);
            assert(self.chunk.constants@.len() == c_test);
            assert(self.chunk.instructions@.len() + 1 <= s_test.len() + 3 * psize(
                arm.pattern,
            ));
            if !(arm.pattern matches Pattern::Variant { .. }) {
                assert(names_of(self.locals@) =~= names_of(old(self).locals@)
                    + pat_names(arm.pattern));
            }
        }
        // Body phase.
        let ghost s_bind = self.chunk.instructions@;
        match self.compile_expr(&arm.body) {
            Ok(()) => {},
            Err(e) => {
                self.truncate_locals(locals_before);
                proof {
                    assert(self.chunk.instructions@.take(s_bind.len() as int) =~= s_bind);
                    assert(self.chunk.instructions@.take(n0) =~= orig);
                    assert(self.locals@ =~= old(self).locals@);
                }
                return Err(e);
            },
        }
        proof {
            assert(self.chunk.instructions@.take(s_bind.len() as int) =~= s_bind);
            assert(self.chunk.instructions@.take(s_test.len() as int) =~= s_test);
            assert(self.chunk.instructions@.take(n0) =~= orig);
        }
        // Slide the result down over the scrutinee slot; the store
        // discards the bound locals above the slot along the way. Then
        // jump past the remaining arms.
        self.emit(Instruction::StoreLocal(slot as u8));
        self.truncate_locals(locals_before);
        proof {
            assert(self.locals@ =~= old(self).locals@);
        }
        let end = self.emit_jump(Instruction::Jump(0));
        proof {
            assert(self.chunk.instructions@[end as int] == Instruction::Jump(0i16));
            assert(self.chunk.instructions@.take(s_test.len() as int) =~= s_test);
            assert(self.chunk.instructions@.take(n0) =~= orig);
            assert(end >= n0);
        }
        // A failing test lands just past the final jump, where the
        // leftover test value is discarded before the next arm.
        if let Some(j) = test_jump {
            proof {
                assert(self.chunk.instructions@[j as int]
                    == Instruction::JumpIfFalse(0i16));
                assert((j as int) < (end as int));
            }
            match self.patch_jump(j) {
                Ok(()) => {},
                Err(e) => {
                    proof {
                        assert(self.chunk.instructions@.take(n0) =~= orig);
                    }
                    return Err(e);
                },
            }
            proof {
                assert(self.chunk.instructions@[end as int] == Instruction::Jump(0i16));
                assert(self.chunk.instructions@.take(n0)
                    =~= old(self).chunk.instructions@);
            }
            self.emit(Instruction::Pop);
            proof {
                assert(self.chunk.instructions@[end as int] == Instruction::Jump(0i16));
                assert(self.chunk.instructions@.take(n0)
                    =~= old(self).chunk.instructions@);
            }
        }
        Ok(end)
    }

    /// Drop locals until only the first `n` remain.
    fn truncate_locals(&mut self, n: usize)
        requires
            old(self).wf(),
            n <= old(self).locals@.len(),
        ensures
            final(self).wf(),
            final(self).chunk == old(self).chunk,
            final(self).scope_depth == old(self).scope_depth,
            final(self).locals@.len() == n,
            final(self).locals@ == old(self).locals@.take(n as int),
    {
        proof {
            assert(old(self).locals@.take(old(self).locals@.len() as int)
                =~= old(self).locals@);
        }
        while self.locals.len() > n
            invariant
                n <= self.locals@.len() || self.locals@.len() == n,
                self.wf(),
                self.chunk == old(self).chunk,
                self.scope_depth == old(self).scope_depth,
                self.locals@.len() >= n,
                self.locals@.len() <= old(self).locals@.len(),
                self.locals@ == old(self).locals@.take(self.locals@.len() as int),
            decreases self.locals@.len(),
        {
            self.locals.pop();
            proof {
                assert(old(self).locals@.take(self.locals@.len() as int + 1)
                    .drop_last() =~= old(self).locals@.take(
                    self.locals@.len() as int,
                ));
            }
        }
    }
}

/// The machine value of a compilable literal, or `None` for a float.
pub open spec fn litval_spec(l: Literal) -> Option<ValueM> {
    match l {
        Literal::Int(n) => Some(ValueM::Int(n)),
        Literal::Bool(b) => Some(ValueM::Bool(b)),
        Literal::Str(s) => Some(ValueM::Str(s@)),
        Literal::Unit => Some(ValueM::Unit),
        Literal::Float(_) => None,
    }
}

/// Appending an instruction preserves chunk well-formedness when the
/// instruction's own references are in range (a backward reference is
/// never emitted; placeholder jumps carry offset zero).
proof fn lemma_emit_wf(pre: Chunk, post: Chunk, instr: Instruction)
    requires
        chunk_wf(cmodel(pre)),
        post.instructions@ == pre.instructions@.push(instr),
        post.spans@.len() == pre.spans@.len() + 1,
        post.constants@ == pre.constants@,
        match imodel(instr) {
            InstrM::LoadConst(k) => (k as int) < pre.constants@.len(),
            _ => true,
        },
        match jump_offset(imodel(instr)) {
            Some(o) => o == 0,
            None => true,
        },
        cmodel(pre).spans.len() == pre.instructions@.len(),
    ensures
        chunk_wf(cmodel(post)),
{
    crate::value::lemma_models_of(pre.constants@);
    crate::value::lemma_models_of(post.constants@);
    let n = pre.instructions@.len() as int;
    let cm = cmodel(post);
    assert(cm.instructions.len() == n + 1);
    assert forall|i: int| 0 <= i < cm.instructions.len() implies (match #[trigger] cm
        .instructions[i] {
        InstrM::LoadConst(k) => (k as int) < cm.constants.len(),
        _ => true,
    }) && (match jump_offset(cm.instructions[i]) {
        Some(o) => 0 <= i + 1 + o <= cm.instructions.len(),
        None => true,
    }) by {
        assert(cm.instructions[i] == imodel(post.instructions@[i]));
        if i < n {
            assert(post.instructions@[i] == pre.instructions@[i]);
            assert(cmodel(pre).instructions[i] == imodel(pre.instructions@[i]));
            assert(match cmodel(pre).instructions[i] {
                InstrM::LoadConst(k) => (k as int) < cmodel(pre).constants.len(),
                _ => true,
            });
            assert(match jump_offset(cmodel(pre).instructions[i]) {
                Some(o) => 0 <= i + 1 + o <= n,
                None => true,
            });
        } else {
            assert(post.instructions@[i] == instr);
        }
    }
}

/// Growing the constant pool preserves well-formedness.
proof fn lemma_constants_grow_wf(pre: Chunk, post: Chunk, v: Value)
    requires
        chunk_wf(cmodel(pre)),
        post.instructions@ == pre.instructions@,
        post.spans@ == pre.spans@,
        post.constants@ == pre.constants@.push(v),
        pre.constants@.len() < MAX_CONSTANTS,
    ensures
        chunk_wf(cmodel(post)),
{
    crate::value::lemma_models_of(pre.constants@);
    crate::value::lemma_models_of(post.constants@);
    let cm = cmodel(post);
    assert(cm.instructions =~= cmodel(pre).instructions);
    assert(cm.constants.len() == pre.constants@.len() + 1);
    assert forall|i: int| 0 <= i < cm.instructions.len() implies (match #[trigger] cm
        .instructions[i] {
        InstrM::LoadConst(k) => (k as int) < cm.constants.len(),
        _ => true,
    }) && (match jump_offset(cm.instructions[i]) {
        Some(o) => 0 <= i + 1 + o <= cm.instructions.len(),
        None => true,
    }) by {
        assert(cmodel(pre).instructions[i] == cm.instructions[i]);
        assert(match cmodel(pre).instructions[i] {
            InstrM::LoadConst(k) => (k as int) < cmodel(pre).constants.len(),
            _ => true,
        });
        assert(match jump_offset(cmodel(pre).instructions[i]) {
            Some(o) => 0 <= i + 1 + o <= cmodel(pre).instructions.len(),
            None => true,
        });
    }
}

/// Patching one jump preserves well-formedness when the new offset
/// stays inside the chunk.
proof fn lemma_patch_wf(pre: Chunk, post: Chunk, pos: int, newm: InstrM)
    requires
        chunk_wf(cmodel(pre)),
        0 <= pos < pre.instructions@.len(),
        post.instructions@.len() == pre.instructions@.len(),
        post.constants@ == pre.constants@,
        post.spans@ == pre.spans@,
        forall|i: int| 0 <= i < pre.instructions@.len() && i != pos
            ==> post.instructions@[i] == pre.instructions@[i],
        imodel(post.instructions@[pos]) == newm,
        match jump_offset(newm) {
            Some(o) => 0 <= pos + 1 + o <= pre.instructions@.len(),
            None => false,
        },
        !(newm matches InstrM::LoadConst(_)),
    ensures
        chunk_wf(cmodel(post)),
{
    crate::value::lemma_models_of(pre.constants@);
    crate::value::lemma_models_of(post.constants@);
    let n = pre.instructions@.len() as int;
    let cm = cmodel(post);
    assert(cm.instructions.len() == n);
    assert forall|i: int| 0 <= i < cm.instructions.len() implies (match #[trigger] cm
        .instructions[i] {
        InstrM::LoadConst(k) => (k as int) < cm.constants.len(),
        _ => true,
    }) && (match jump_offset(cm.instructions[i]) {
        Some(o) => 0 <= i + 1 + o <= cm.instructions.len(),
        None => true,
    }) by {
        assert(cm.instructions[i] == imodel(post.instructions@[i]));
        if i != pos {
            assert(post.instructions@[i] == pre.instructions@[i]);
            assert(cmodel(pre).instructions[i] == imodel(pre.instructions@[i]));
            assert(match cmodel(pre).instructions[i] {
                InstrM::LoadConst(k) => (k as int) < cmodel(pre).constants.len(),
                _ => true,
            });
            assert(match jump_offset(cmodel(pre).instructions[i]) {
                Some(o) => 0 <= i + 1 + o <= n,
                None => true,
            });
        }
    }
}

/// Prefix preservation composes.
proof fn lemma_take_chain(a: Seq<Instruction>, b: Seq<Instruction>, c: Seq<Instruction>)
    requires
        a.len() <= b.len() <= c.len(),
        b.take(a.len() as int) =~= a,
        c.take(b.len() as int) =~= b,
    ensures
        c.take(a.len() as int) =~= a,
{
    assert forall|i: int| 0 <= i < a.len() implies c[i] == a[i] by {
        assert(b[i] == a[i]);
        assert(c[i] == b[i]);
    }
}

} // verus!
