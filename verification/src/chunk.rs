use vstd::prelude::*;

use crate::instruction::Instruction;
use crate::value::Value;

verus! {

/// Source location attached to one instruction: line and column are
/// 1-indexed, the byte offset is 0-indexed. An all-zero span means the
/// location is unknown.
#[derive(Debug, Clone, Copy, PartialEq, Eq, Structural, Hash)]
pub struct SourceSpan {
    pub line: u32,
    pub column: u32,
    pub offset: u32,
    pub length: u32,
}

impl SourceSpan {
    /// Build a span from its four coordinates.
    pub fn new(line: u32, column: u32, offset: u32, length: u32) -> (r: SourceSpan)
        ensures
            r == (SourceSpan { line, column, offset, length }),
    {
        SourceSpan { line, column, offset, length }
    }

    /// The all-zero span standing for an unknown location.
    pub fn unknown() -> (r: SourceSpan)
        ensures
            r == (SourceSpan { line: 0u32, column: 0u32, offset: 0u32, length: 0u32 }),
            !r.spec_is_known(),
    {
        SourceSpan { line: 0, column: 0, offset: 0, length: 0 }
    }

    /// Whether the span carries a real location: lines are 1-indexed, so
    /// any known span has a positive line.
    pub open spec fn spec_is_known(self) -> bool {
        self.line > 0
    }

    /// Runtime check matching `spec_is_known`.
    pub fn is_known(&self) -> (r: bool)
        ensures
            r == self.spec_is_known(),
    {
        self.line > 0
    }
}

/// A compiled unit: instructions, their constant pool, one source span
/// per instruction, and optional debug metadata.
#[derive(Debug, PartialEq)]
pub struct Chunk {
    pub instructions: Vec<Instruction>,
    pub constants: Vec<Value>,
    pub name: Option<String>,
    /// One span per instruction, in step with `instructions`.
    pub spans: Vec<SourceSpan>,
    /// The source text the chunk was compiled from, if known.
    pub source: Option<String>,
    /// The name of the source file, if known.
    pub source_file: Option<String>,
}

impl Chunk {
    /// An empty, unnamed chunk.
    pub fn new() -> (r: Chunk)
        ensures
            r.instructions@ == Seq::<Instruction>::empty(),
            r.constants@ == Seq::<Value>::empty(),
            r.name is None,
            r.spans@ == Seq::<SourceSpan>::empty(),
            r.source is None,
            r.source_file is None,
    {
        Chunk {
            instructions: Vec::new(),
            constants: Vec::new(),
            name: None,
            spans: Vec::new(),
            source: None,
            source_file: None,
        }
    }

    /// An empty chunk carrying a name.
    pub fn with_name(name: &str) -> (r: Chunk)
        ensures
            r.instructions@ == Seq::<Instruction>::empty(),
            r.constants@ == Seq::<Value>::empty(),
            r.name matches Some(n) && n@ == name@,
            r.spans@ == Seq::<SourceSpan>::empty(),
            r.source is None,
            r.source_file is None,
    {
        Chunk {
            instructions: Vec::new(),
            constants: Vec::new(),
            name: Some(name.to_owned()),
            spans: Vec::new(),
            source: None,
            source_file: None,
        }
    }

    /// Record the source text for error display.
    pub fn set_source(&mut self, source: &str)
        ensures
            final(self).source matches Some(s) && s@ == source@,
            final(self).instructions == old(self).instructions,
            final(self).constants == old(self).constants,
            final(self).name == old(self).name,
            final(self).spans == old(self).spans,
            final(self).source_file == old(self).source_file,
    {
        self.source = Some(source.to_owned());
    }

    /// Record the source file name.
    pub fn set_source_file(&mut self, file: &str)
        ensures
            final(self).source_file matches Some(s) && s@ == file@,
            final(self).instructions == old(self).instructions,
            final(self).constants == old(self).constants,
            final(self).name == old(self).name,
            final(self).spans == old(self).spans,
            final(self).source == old(self).source,
    {
        self.source_file = Some(file.to_owned());
    }

    /// The span recorded for the instruction at `offset`, if it is in
    /// range and known.
    pub fn span_at(&self, offset: usize) -> (r: Option<SourceSpan>)
        ensures
            r == if offset < self.spans@.len() && self.spans@[offset as int].spec_is_known() {
                Some(self.spans@[offset as int])
            } else {
                None::<SourceSpan>
            },
    {
        if offset < self.spans.len() {
            let s = self.spans[offset];
            if s.is_known() {
                Some(s)
            } else {
                None
            }
        } else {
            None
        }
    }

    /// Append a constant and return its pool index. The pool's index
    /// space is `u16`, which bounds its size.
    pub fn add_constant(&mut self, value: Value) -> (r: u16)
        requires
            old(self).constants@.len() < 0x1_0000,
        ensures
            final(self).constants@ == old(self).constants@.push(value),
            r == old(self).constants@.len(),
            final(self).instructions == old(self).instructions,
            final(self).spans == old(self).spans,
            final(self).name == old(self).name,
            final(self).source == old(self).source,
            final(self).source_file == old(self).source_file,
    {
        self.constants.push(value);
        (self.constants.len() - 1) as u16
    }

    /// Append an instruction with an unknown source span.
    pub fn emit(&mut self, instruction: Instruction)
        ensures
            final(self).instructions@ == old(self).instructions@.push(instruction),
            final(self).spans@ == old(self).spans@.push(
                SourceSpan { line: 0u32, column: 0u32, offset: 0u32, length: 0u32 },
            ),
            final(self).constants == old(self).constants,
            final(self).name == old(self).name,
            final(self).source == old(self).source,
            final(self).source_file == old(self).source_file,
    {
        self.instructions.push(instruction);
        self.spans.push(SourceSpan::unknown());
    }

    /// Append an instruction together with its source span.
    pub fn emit_with_span(&mut self, instruction: Instruction, span: SourceSpan)
        ensures
            final(self).instructions@ == old(self).instructions@.push(instruction),
            final(self).spans@ == old(self).spans@.push(span),
            final(self).constants == old(self).constants,
            final(self).name == old(self).name,
            final(self).source == old(self).source,
            final(self).source_file == old(self).source_file,
    {
        self.instructions.push(instruction);
        self.spans.push(span);
    }

    /// Append every instruction of `instructions`, each with an unknown
    /// span.
    pub fn emit_all(&mut self, instructions: Vec<Instruction>)
        ensures
            final(self).instructions@ == old(self).instructions@ + instructions@,
            final(self).spans@.len() == old(self).spans@.len() + instructions@.len(),
            final(self).constants == old(self).constants,
            final(self).name == old(self).name,
            final(self).source == old(self).source,
            final(self).source_file == old(self).source_file,
    {
        let ghost all = instructions@;
        let mut rest = instructions;
        while rest.len() > 0
            invariant
                rest@.len() <= all.len(),
                rest@ == all.skip(all.len() - rest@.len()),
                self.instructions@ == old(self).instructions@ + all.take(
                    all.len() - rest@.len(),
                ),
                self.spans@.len() == old(self).spans@.len() + all.len() - rest@.len(),
                self.constants == old(self).constants,
                self.name == old(self).name,
                self.source == old(self).source,
                self.source_file == old(self).source_file,
            decreases rest@.len(),
        {
            let ghost done = all.len() - rest@.len();
            let instr = rest.remove(0);
            self.emit(instr);
            proof {
                assert(all.take(done + 1) =~= all.take(done).push(instr));
                assert(rest@ =~= all.skip(done + 1));
            }
        }
        proof {
            assert(all.take(all.len() as int) =~= all);
        }
    }

    /// Replace the instruction at `offset`; its span is kept.
    pub fn set_instruction(&mut self, offset: usize, instruction: Instruction)
        requires
            offset < old(self).instructions@.len(),
        ensures
            final(self).instructions@
                == old(self).instructions@.update(offset as int, instruction),
            final(self).constants == old(self).constants,
            final(self).spans == old(self).spans,
            final(self).name == old(self).name,
            final(self).source == old(self).source,
            final(self).source_file == old(self).source_file,
    {
        self.instructions.set(offset, instruction);
    }

    /// The index the next emitted instruction will occupy.
    pub fn current_offset(&self) -> (r: usize)
        ensures
            r == self.instructions@.len(),
    {
        self.instructions.len()
    }

    /// The instruction at `offset`, if in range.
    pub fn instruction_at(&self, offset: usize) -> (r: Option<&Instruction>)
        ensures
            match r {
                Some(i) => offset < self.instructions@.len()
                    && *i == self.instructions@[offset as int],
                None => offset >= self.instructions@.len(),
            },
    {
        if offset < self.instructions.len() {
            Some(&self.instructions[offset])
        } else {
            None
        }
    }

    /// The constant at pool index `index`, if in range.
    pub fn constant_at(&self, index: u16) -> (r: Option<&Value>)
        ensures
            match r {
                Some(v) => (index as int) < self.constants@.len()
                    && *v == self.constants@[index as int],
                None => index as int >= self.constants@.len(),
            },
    {
        if (index as usize) < self.constants.len() {
            Some(&self.constants[index as usize])
        } else {
            None
        }
    }
}

/// The mathematical shape of a chunk: sequences of instruction and value
/// models plus metadata with strings as character sequences.
pub struct ChunkM {
    pub instructions: Seq<crate::instruction::InstrM>,
    pub constants: Seq<crate::value::ValueM>,
    pub name: Option<Seq<char>>,
    pub spans: Seq<SourceSpan>,
    pub source: Option<Seq<char>>,
    pub source_file: Option<Seq<char>>,
}

/// The contents of an optional string.
pub open spec fn opt_str_view(o: Option<String>) -> Option<Seq<char>> {
    match o {
        Some(s) => Some(s@),
        None => None,
    }
}

/// The model of a chunk.
pub open spec fn cmodel(c: Chunk) -> ChunkM
    decreases c,
{
    ChunkM {
        instructions: crate::instruction::imodels_of(c.instructions@),
        constants: crate::value::models_of(c.constants@),
        name: opt_str_view(c.name),
        spans: c.spans@,
        source: opt_str_view(c.source),
        source_file: opt_str_view(c.source_file),
    }
}

/// Structural equality of two chunk models: everything agrees, with
/// constants compared by the machine's value equality.
pub open spec fn chunk_eq_spec(a: ChunkM, b: ChunkM) -> bool
    decreases a,
{
    &&& a.instructions == b.instructions
    &&& crate::value::seq_values_eq_spec(a.constants, b.constants)
    &&& a.name == b.name
    &&& a.spans == b.spans
    &&& a.source == b.source
    &&& a.source_file == b.source_file
}

/// Runtime check: equality of two optional strings by contents.
fn opt_str_eq(a: &Option<String>, b: &Option<String>) -> (r: bool)
    ensures
        r == (opt_str_view(*a) == opt_str_view(*b)),
{
    match (a, b) {
        (Some(x), Some(y)) => crate::value::str_eq(x.as_str(), y.as_str()),
        (None, None) => true,
        _ => false,
    }
}

/// Runtime check matching `chunk_eq_spec` on the two chunks' models.
pub(crate) fn chunk_eq(a: &Chunk, b: &Chunk) -> (r: bool)
    ensures
        r == chunk_eq_spec(cmodel(*a), cmodel(*b)),
    decreases *a,
{
    if a.instructions.len() != b.instructions.len() {
        proof {
            assert(cmodel(*a).instructions.len() != cmodel(*b).instructions.len());
        }
        return false;
    }
    let mut i: usize = 0;
    while i < a.instructions.len()
        invariant
            i <= a.instructions@.len(),
            a.instructions@.len() == b.instructions@.len(),
            forall|j: int| 0 <= j < i ==> crate::instruction::imodel(
                #[trigger] a.instructions@[j],
            ) == crate::instruction::imodel(b.instructions@[j]),
        decreases a.instructions@.len() - i,
    {
        if !crate::instruction::instr_eq(&a.instructions[i], &b.instructions[i]) {
            proof {
                assert(cmodel(*a).instructions[i as int]
                    == crate::instruction::imodel(a.instructions@[i as int]));
                assert(cmodel(*b).instructions[i as int]
                    == crate::instruction::imodel(b.instructions@[i as int]));
            }
            return false;
        }
        i = i + 1;
    }
    proof {
        assert(cmodel(*a).instructions =~= cmodel(*b).instructions);
    }
    if !crate::value::values_eq(&a.constants, &b.constants) {
        return false;
    }
    if !opt_str_eq(&a.name, &b.name) {
        return false;
    }
    if a.spans.len() != b.spans.len() {
        return false;
    }
    let mut k: usize = 0;
    while k < a.spans.len()
        invariant
            k <= a.spans@.len(),
            a.spans@.len() == b.spans@.len(),
            forall|j: int| 0 <= j < k ==> a.spans@[j] == b.spans@[j],
        decreases a.spans@.len() - k,
    {
        if a.spans[k] != b.spans[k] {
            return false;
        }
        k = k + 1;
    }
    proof {
        assert(a.spans@ =~= b.spans@);
    }
    if !opt_str_eq(&a.source, &b.source) {
        return false;
    }
    if !opt_str_eq(&a.source_file, &b.source_file) {
        return false;
    }
    true
}

/// Step-by-step construction of a chunk, either fluent or by `emit_*`
/// calls.
#[derive(Debug)]
pub struct ChunkBuilder {
    pub chunk: Chunk,
}

impl ChunkBuilder {
    /// Start from an empty chunk.
    pub fn new() -> (r: ChunkBuilder)
        ensures
            r.chunk.instructions@.len() == 0,
            r.chunk.constants@.len() == 0,
            r.chunk.name is None,
    {
        ChunkBuilder { chunk: Chunk::new() }
    }

    /// Start from an empty chunk carrying a name.
    pub fn with_name(name: &str) -> (r: ChunkBuilder)
        ensures
            r.chunk.instructions@.len() == 0,
            r.chunk.constants@.len() == 0,
            r.chunk.name matches Some(n) && n@ == name@,
    {
        ChunkBuilder { chunk: Chunk::with_name(name) }
    }

    /// Fluent: add a constant.
    pub fn constant(self, value: Value) -> (r: ChunkBuilder)
        requires
            self.chunk.constants@.len() < 0x1_0000,
        ensures
            r.chunk.constants@ == self.chunk.constants@.push(value),
            r.chunk.instructions == self.chunk.instructions,
    {
        let mut b = self;
        b.chunk.add_constant(value);
        b
    }

    /// Fluent: append an instruction.
    pub fn instruction(self, instr: Instruction) -> (r: ChunkBuilder)
        ensures
            r.chunk.instructions@ == self.chunk.instructions@.push(instr),
            r.chunk.constants == self.chunk.constants,
    {
        let mut b = self;
        b.chunk.emit(instr);
        b
    }

    /// Fluent: append several instructions.
    pub fn instructions(self, instrs: Vec<Instruction>) -> (r: ChunkBuilder)
        ensures
            r.chunk.instructions@ == self.chunk.instructions@ + instrs@,
            r.chunk.constants == self.chunk.constants,
    {
        let mut b = self;
        b.chunk.emit_all(instrs);
        b
    }

    /// Add a constant and return its pool index.
    pub fn add_constant(&mut self, value: Value) -> (r: u16)
        requires
            old(self).chunk.constants@.len() < 0x1_0000,
        ensures
            final(self).chunk.constants@ == old(self).chunk.constants@.push(value),
            r == old(self).chunk.constants@.len(),
            final(self).chunk.instructions == old(self).chunk.instructions,
    {
        self.chunk.add_constant(value)
    }

    /// Append any instruction.
    pub fn emit_instruction(&mut self, instr: Instruction)
        ensures
            final(self).chunk.instructions@ == old(self).chunk.instructions@.push(instr),
            final(self).chunk.constants == old(self).chunk.constants,
    {
        self.chunk.emit(instr);
    }

    /// Append `LoadConst`.
    pub fn emit_load_const(&mut self, index: u16)
        ensures
            final(self).chunk.instructions@ == old(self).chunk.instructions@.push(
                Instruction::LoadConst(index),
            ),
            final(self).chunk.constants == old(self).chunk.constants,
    {
        self.chunk.emit(Instruction::LoadConst(index));
    }

    /// Append `LoadLocal`.
    pub fn emit_load_local(&mut self, slot: u8)
        ensures
            final(self).chunk.instructions@ == old(self).chunk.instructions@.push(
                Instruction::LoadLocal(slot),
            ),
            final(self).chunk.constants == old(self).chunk.constants,
    {
        self.chunk.emit(Instruction::LoadLocal(slot));
    }

    /// Append `Add`.
    pub fn emit_add(&mut self)
        ensures
            final(self).chunk.instructions@ == old(self).chunk.instructions@.push(
                Instruction::Add,
            ),
            final(self).chunk.constants == old(self).chunk.constants,
    {
        self.chunk.emit(Instruction::Add);
    }

    /// Append `Div`.
    pub fn emit_div(&mut self)
        ensures
            final(self).chunk.instructions@ == old(self).chunk.instructions@.push(
                Instruction::Div,
            ),
            final(self).chunk.constants == old(self).chunk.constants,
    {
        self.chunk.emit(Instruction::Div);
    }

    /// Append `Dup`.
    pub fn emit_dup(&mut self)
        ensures
            final(self).chunk.instructions@ == old(self).chunk.instructions@.push(
                Instruction::Dup,
            ),
            final(self).chunk.constants == old(self).chunk.constants,
    {
        self.chunk.emit(Instruction::Dup);
    }

    /// Append `Eq`.
    pub fn emit_eq(&mut self)
        ensures
            final(self).chunk.instructions@ == old(self).chunk.instructions@.push(
                Instruction::Eq,
            ),
            final(self).chunk.constants == old(self).chunk.constants,
    {
        self.chunk.emit(Instruction::Eq);
    }

    /// Append `Return`.
    pub fn emit_return(&mut self)
        ensures
            final(self).chunk.instructions@ == old(self).chunk.instructions@.push(
                Instruction::Return,
            ),
            final(self).chunk.constants == old(self).chunk.constants,
    {
        self.chunk.emit(Instruction::Return);
    }

    /// Finish and hand out the chunk.
    pub fn build(self) -> (r: Chunk)
        ensures
            r == self.chunk,
    {
        self.chunk
    }
}

} // verus!
