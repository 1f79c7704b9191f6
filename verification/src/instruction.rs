use vstd::prelude::*;

verus! {

/// How one captured binding of a closure is obtained when the closure is
/// constructed.
#[derive(Debug, Clone, PartialEq)]
pub enum Capture {
    /// Capture the local slot with this index of the constructing frame.
    Local(u8),
    /// Re-use this upvalue of the constructing frame's own closure.
    FromEnclosing(u8),
}

/// The machine's instruction set. Operands are sized to the index spaces
/// of the chunk: constant indices fit in a `u16`, local slots in a `u8`,
/// and jump offsets in an `i16` relative to the following instruction.
#[derive(Debug, Clone, PartialEq)]
pub enum Instruction {
    /// Push the constant at the given pool index.
    LoadConst(u16),
    /// Push the value of local slot `i` of the current frame.
    LoadLocal(u8),
    /// Pop the top of the stack into local slot `i`; if the slot lies past
    /// the current top it is created, and if it lies below, everything
    /// above it is discarded. Closing a scope re-uses this instruction to
    /// slide the produced value down over the scope's locals.
    StoreLocal(u8),
    /// Discard the top of the stack.
    Pop,
    /// Duplicate the top of the stack.
    Dup,
    /// Push the empty list.
    Nil,
    /// Pop a head value, then a list; push the extended list. The value
    /// popped second must be `Nil` or `Cons`.
    Cons,
    /// Pop `n` values and push a tuple of them in evaluation order.
    MakeTuple(u8),
    /// Pop `arity` field values and push a discriminated-union instance.
    MakeVariant { tag: String, ctor: String, arity: u8 },
    /// Push a closure over the chunk stored at constant `chunk_const`,
    /// capturing each listed binding.
    MakeClosure { chunk_const: u16, captures: Vec<Capture> },
    /// Push the value of upvalue `i` of the current closure.
    LoadUpvalue(u8),
    Add,
    Sub,
    Mul,
    Div,
    Mod,
    Neg,
    Eq,
    Neq,
    Lt,
    Lte,
    Gt,
    Gte,
    And,
    Or,
    Not,
    /// Add the offset to the instruction pointer (already advanced past
    /// this instruction).
    Jump(i16),
    /// Like `Jump`, but only when the top of the stack (not popped) is
    /// falsy.
    JumpIfFalse(i16),
    /// Like `Jump`, but only when the top of the stack (not popped) is
    /// truthy.
    JumpIfTrue(i16),
    /// Pop `n` arguments and a callee; dispatch on the callee's kind.
    Call(u8),
    /// Push whether the top of the stack (not popped) is a variant with
    /// the given constructor name.
    TestVariant { ctor: String },
    /// Push field `i` of the variant at the top of the stack (not popped).
    GetVariantField(u8),
    /// Fail with a runtime error: no arm of a match accepted the value.
    MatchFail,
    /// Leave the current frame; its result is the top of the stack.
    Return,
}

/// The mathematical shape of an instruction: string operands become
/// character sequences, so instructions with the same operands have equal
/// models.
pub enum InstrM {
    LoadConst(u16),
    LoadLocal(u8),
    StoreLocal(u8),
    Pop,
    Dup,
    Nil,
    Cons,
    MakeTuple(u8),
    MakeVariant { tag: Seq<char>, ctor: Seq<char>, arity: u8 },
    MakeClosure { chunk_const: u16, captures: Seq<Capture> },
    LoadUpvalue(u8),
    Add,
    Sub,
    Mul,
    Div,
    Mod,
    Neg,
    Eq,
    Neq,
    Lt,
    Lte,
    Gt,
    Gte,
    And,
    Or,
    Not,
    Jump(i16),
    JumpIfFalse(i16),
    JumpIfTrue(i16),
    Call(u8),
    TestVariant { ctor: Seq<char> },
    GetVariantField(u8),
    MatchFail,
    Return,
}

/// The model of an instruction.
pub open spec fn imodel(i: Instruction) -> InstrM {
    match i {
        Instruction::LoadConst(x) => InstrM::LoadConst(x),
        Instruction::LoadLocal(x) => InstrM::LoadLocal(x),
        Instruction::StoreLocal(x) => InstrM::StoreLocal(x),
        Instruction::Pop => InstrM::Pop,
        Instruction::Dup => InstrM::Dup,
        Instruction::Nil => InstrM::Nil,
        Instruction::Cons => InstrM::Cons,
        Instruction::MakeTuple(x) => InstrM::MakeTuple(x),
        Instruction::MakeVariant { tag, ctor, arity } => InstrM::MakeVariant {
            tag: tag@,
            ctor: ctor@,
            arity,
        },
        Instruction::MakeClosure { chunk_const, captures } => InstrM::MakeClosure {
            chunk_const,
            captures: captures@,
        },
        Instruction::LoadUpvalue(x) => InstrM::LoadUpvalue(x),
        Instruction::Add => InstrM::Add,
        Instruction::Sub => InstrM::Sub,
        Instruction::Mul => InstrM::Mul,
        Instruction::Div => InstrM::Div,
        Instruction::Mod => InstrM::Mod,
        Instruction::Neg => InstrM::Neg,
        Instruction::Eq => InstrM::Eq,
        Instruction::Neq => InstrM::Neq,
        Instruction::Lt => InstrM::Lt,
        Instruction::Lte => InstrM::Lte,
        Instruction::Gt => InstrM::Gt,
        Instruction::Gte => InstrM::Gte,
        Instruction::And => InstrM::And,
        Instruction::Or => InstrM::Or,
        Instruction::Not => InstrM::Not,
        Instruction::Jump(x) => InstrM::Jump(x),
        Instruction::JumpIfFalse(x) => InstrM::JumpIfFalse(x),
        Instruction::JumpIfTrue(x) => InstrM::JumpIfTrue(x),
        Instruction::Call(x) => InstrM::Call(x),
        Instruction::TestVariant { ctor } => InstrM::TestVariant { ctor: ctor@ },
        Instruction::GetVariantField(x) => InstrM::GetVariantField(x),
        Instruction::MatchFail => InstrM::MatchFail,
        Instruction::Return => InstrM::Return,
    }
}

/// The models of a sequence of instructions, in order.
pub open spec fn imodels_of(s: Seq<Instruction>) -> Seq<InstrM> {
    Seq::new(s.len(), |i: int| imodel(s[i]))
}

/// Whether two instructions have the same model.
pub fn instr_eq(a: &Instruction, b: &Instruction) -> (r: bool)
    ensures
        r == (imodel(*a) == imodel(*b)),
{
    match (a, b) {
        (Instruction::LoadConst(x), Instruction::LoadConst(y)) => x == y,
        (Instruction::LoadLocal(x), Instruction::LoadLocal(y)) => x == y,
        (Instruction::StoreLocal(x), Instruction::StoreLocal(y)) => x == y,
        (Instruction::Pop, Instruction::Pop) => true,
        (Instruction::Dup, Instruction::Dup) => true,
        (Instruction::Nil, Instruction::Nil) => true,
        (Instruction::Cons, Instruction::Cons) => true,
        (Instruction::MakeTuple(x), Instruction::MakeTuple(y)) => x == y,
        (Instruction::MakeVariant { tag: t1, ctor: v1, arity: a1 },
         Instruction::MakeVariant { tag: t2, ctor: v2, arity: a2 }) =>
            crate::value::str_eq(t1.as_str(), t2.as_str())
                && crate::value::str_eq(v1.as_str(), v2.as_str())
                && a1 == a2,
        (Instruction::MakeClosure { chunk_const: c1, captures: k1 },
         Instruction::MakeClosure { chunk_const: c2, captures: k2 }) =>
            c1 == c2 && captures_eq(k1, k2),
        (Instruction::LoadUpvalue(x), Instruction::LoadUpvalue(y)) => x == y,
        (Instruction::Add, Instruction::Add) => true,
        (Instruction::Sub, Instruction::Sub) => true,
        (Instruction::Mul, Instruction::Mul) => true,
        (Instruction::Div, Instruction::Div) => true,
        (Instruction::Mod, Instruction::Mod) => true,
        (Instruction::Neg, Instruction::Neg) => true,
        (Instruction::Eq, Instruction::Eq) => true,
        (Instruction::Neq, Instruction::Neq) => true,
        (Instruction::Lt, Instruction::Lt) => true,
        (Instruction::Lte, Instruction::Lte) => true,
        (Instruction::Gt, Instruction::Gt) => true,
        (Instruction::Gte, Instruction::Gte) => true,
        (Instruction::And, Instruction::And) => true,
        (Instruction::Or, Instruction::Or) => true,
        (Instruction::Not, Instruction::Not) => true,
        (Instruction::Jump(x), Instruction::Jump(y)) => x == y,
        (Instruction::JumpIfFalse(x), Instruction::JumpIfFalse(y)) => x == y,
        (Instruction::JumpIfTrue(x), Instruction::JumpIfTrue(y)) => x == y,
        (Instruction::Call(x), Instruction::Call(y)) => x == y,
        (Instruction::TestVariant { ctor: v1 },
         Instruction::TestVariant { ctor: v2 }) =>
            crate::value::str_eq(v1.as_str(), v2.as_str()),
        (Instruction::GetVariantField(x), Instruction::GetVariantField(y)) => x == y,
        (Instruction::MatchFail, Instruction::MatchFail) => true,
        (Instruction::Return, Instruction::Return) => true,
        _ => false,
    }
}

/// Pointwise equality of two capture lists.
fn captures_eq(a: &Vec<Capture>, b: &Vec<Capture>) -> (r: bool)
    ensures
        r == (a@ == b@),
{
    if a.len() != b.len() {
        proof {
            assert(a@.len() != b@.len());
        }
        return false;
    }
    let mut i: usize = 0;
    while i < a.len()
        invariant
            i <= a@.len(),
            a@.len() == b@.len(),
            forall|j: int| 0 <= j < i ==> a@[j] == b@[j],
        decreases a@.len() - i,
    {
        let same = match (&a[i], &b[i]) {
            (Capture::Local(x), Capture::Local(y)) => *x == *y,
            (Capture::FromEnclosing(x), Capture::FromEnclosing(y)) => *x == *y,
            _ => false,
        };
        if !same {
            return false;
        }
        i = i + 1;
    }
    proof {
        assert(a@ =~= b@);
    }
    true
}

} // verus!
