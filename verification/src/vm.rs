use vstd::prelude::*;
use vstd::string::StringExecFns;

use std::rc::Rc;
use crate::chunk::{Chunk, SourceSpan};
use crate::instruction::{Capture, Instruction};
use crate::value::{Closure, TaskId, Upvalue, Value, ValueM, vmodel, value_eq_spec};
use crate::util::rc_clone;
use crate::asyncrt::{AsyncState, SpawnRequest, TaskTable};

verus! {

broadcast use vstd::std_specs::vec::group_vec_axioms;

/// A fault raised while executing a chunk. Faults are values: the
/// machine unwinds the failing call and hands the fault to its caller.
#[derive(Debug, Clone, PartialEq)]
pub enum VmError {
    /// An operation met a value of the wrong kind.
    TypeMismatch { expected: &'static str, got: &'static str },
    /// A function was applied to the wrong number of arguments.
    ArityMismatch,
    /// Integer division or remainder by zero.
    DivisionByZero,
    /// A call named a host function that is not registered.
    UndefinedHost(String),
    /// The frame or value stack outgrew its configured limit.
    StackOverflow,
    /// The instruction pointer left the chunk or met an instruction it
    /// cannot execute here.
    InvalidOpcode,
    /// The per-invocation instruction budget ran out.
    FuelExhausted,
    /// A call's callee is not a closure or host function.
    NotCallable,
    /// Any other runtime failure, with its message.
    Runtime(String),
}

/// One activation record: the closure being run, its instruction
/// pointer, and where its locals start on the value stack.
#[derive(Debug)]
pub struct Frame {
    pub closure: Rc<Closure>,
    pub ip: usize,
    pub stack_base: usize,
}

/// The host functions the machine can dispatch to by name.
#[derive(Debug, Clone, Copy, PartialEq, Eq, Structural)]
pub enum HostFn {
    ListMap,
    MapEmpty,
    MapAdd,
    MapRemove,
    MapFind,
    MapTryFind,
    MapContainsKey,
    MapIsEmpty,
    MapCount,
    MapOfList,
    MapToList,
    AsyncReturn,
    AsyncBind,
    AsyncDelay,
    AsyncReturnFrom,
    AsyncZero,
    AsyncCombine,
    AsyncRunSynchronously,
    AsyncCombineHelper,
    AsyncSleep,
    AsyncParallel,
    AsyncWithTimeout,
    AsyncCatch,
    AsyncCancel,
    ScriptEval,
    ScriptEvalToString,
}

/// The name-to-host-function registry. Registration is additive and the
/// last registration of a name wins.
#[derive(Debug)]
pub struct HostRegistry {
    pub entries: Vec<(String, HostFn)>,
}

/// The registration in force for a name: the last one, if any.
pub open spec fn registry_lookup(entries: Seq<(String, HostFn)>, name: Seq<char>) -> Option<
    HostFn,
>
    decreases entries,
{
    if entries.len() == 0 {
        None
    } else if entries.last().0@ == name {
        Some(entries.last().1)
    } else {
        registry_lookup(entries.take(entries.len() - 1), name)
    }
}

impl HostRegistry {
    /// An empty registry.
    pub fn new() -> (r: HostRegistry)
        ensures
            forall|n: Seq<char>| registry_lookup(r.entries@, n) is None,
    {
        let r = HostRegistry { entries: Vec::new() };
        proof {
            assert(r.entries@.len() == 0);
        }
        r
    }

    /// Bind `name` to `f`; a later binding for the same name wins.
    pub fn register(&mut self, name: &str, f: HostFn)
        ensures
            registry_lookup(final(self).entries@, name@) == Some(f),
            forall|n: Seq<char>| n != name@ ==> registry_lookup(final(self).entries@, n)
                == registry_lookup(old(self).entries@, n),
    {
        let ghost pre = self.entries@;
        self.entries.push((String::from_str(name), f));
        proof {
            assert(self.entries@.last().0@ == name@);
            assert forall|n: Seq<char>| n != name@ implies registry_lookup(
                self.entries@,
                n,
            ) == registry_lookup(pre, n) by {
                assert(self.entries@.take(self.entries@.len() - 1) =~= pre);
            }
        }
    }

    /// The host function registered under `name`, if any.
    pub fn lookup(&self, name: &str) -> (r: Option<HostFn>)
        ensures
            r == registry_lookup(self.entries@, name@),
    {
        let mut i: usize = self.entries.len();
        proof {
            assert(self.entries@.take(self.entries@.len() as int) =~= self.entries@);
        }
        while i > 0
            invariant
                i <= self.entries@.len(),
                registry_lookup(self.entries@, name@) == registry_lookup(
                    self.entries@.take(i as int),
                    name@,
                ),
            decreases i,
        {
            i = i - 1;
            if crate::value::str_eq(self.entries[i].0.as_str(), name) {
                proof {
                    assert(self.entries@.take(i + 1).last() == self.entries@[i as int]);
                }
                return Some(self.entries[i].1);
            }
            proof {
                assert(self.entries@.take(i + 1).take(i as int)
                    =~= self.entries@.take(i as int));
            }
        }
        None
    }

    /// Names of all registered host functions, in registration order.
    pub fn names(&self) -> (r: Vec<String>)
        ensures
            r@.len() == self.entries@.len(),
    {
        let mut out: Vec<String> = Vec::new();
        let mut i: usize = 0;
        while i < self.entries.len()
            invariant
                i <= self.entries@.len(),
                out@.len() == i,
            decreases self.entries@.len() - i,
        {
            out.push(self.entries[i].0.clone());
            i = i + 1;
        }
        out
    }

    /// Dispatch the function registered under `name`.
    pub fn call(&self, name: &str, vm: &mut Vm, args: &[Value]) -> (r: Result<
        Value,
        VmError,
    >)
        ensures
            registry_lookup(self.entries@, name@) is None ==> *final(vm) == *old(vm)
                && (r matches Err(e)
                && e matches VmError::UndefinedHost(n) && n@ == name@),
            registry_lookup(self.entries@, name@) is Some && old(vm).fuel == 0
                ==> *final(vm) == *old(vm)
                && r == Err::<Value, VmError>(VmError::FuelExhausted),
            final(vm).fuel <= old(vm).fuel,
    {
        match self.lookup(name) {
            Some(f) => {
                if vm.fuel == 0 {
                    return Err(VmError::FuelExhausted);
                }
                vm.fuel = vm.fuel - 1;
                dispatch_host(f, vm, args)
            },
            None => Err(VmError::UndefinedHost(String::from_str(name))),
        }
    }
}

/// The argument count a table host demands; its check is made at
/// dispatch, before the host runs.
pub open spec fn host_arity(f: HostFn) -> Option<usize> {
    match f {
        HostFn::MapEmpty => Some(1),
        HostFn::MapAdd => Some(3),
        HostFn::MapRemove => Some(2),
        HostFn::MapFind => Some(2),
        HostFn::MapTryFind => Some(2),
        HostFn::MapContainsKey => Some(2),
        HostFn::MapIsEmpty => Some(1),
        HostFn::MapCount => Some(1),
        HostFn::MapOfList => Some(1),
        HostFn::MapToList => Some(1),
        _ => None,
    }
}

/// Run the given host function. Each host function checks its own
/// argument count and kinds.
pub fn dispatch_host(f: HostFn, vm: &mut Vm, args: &[Value]) -> (r: Result<Value, VmError>)
    ensures
        final(vm).fuel <= old(vm).fuel,
        (host_arity(f) matches Some(n) && args@.len() != n) ==> *final(vm)
            == *old(vm) && (r matches Err(e) && (e matches VmError::Runtime(_))),
    decreases vm.fuel, 2int,
{
    match f {
        HostFn::ListMap => crate::stdlib::list::list_map(vm, args),
        HostFn::MapEmpty => {
            if args.len() != 1 {
                return Err(arity_error("Map.empty", 1));
            }
            crate::stdlib::table::map_empty(&args[0])
        },
        HostFn::MapAdd => {
            if args.len() != 3 {
                return Err(arity_error("Map.add", 3));
            }
            crate::stdlib::table::map_add(&args[0], &args[1], &args[2])
        },
        HostFn::MapRemove => {
            if args.len() != 2 {
                return Err(arity_error("Map.remove", 2));
            }
            crate::stdlib::table::map_remove(&args[0], &args[1])
        },
        HostFn::MapFind => {
            if args.len() != 2 {
                return Err(arity_error("Map.find", 2));
            }
            crate::stdlib::table::map_find(&args[0], &args[1])
        },
        HostFn::MapTryFind => {
            if args.len() != 2 {
                return Err(arity_error("Map.tryFind", 2));
            }
            crate::stdlib::table::map_try_find(&args[0], &args[1])
        },
        HostFn::MapContainsKey => {
            if args.len() != 2 {
                return Err(arity_error("Map.containsKey", 2));
            }
            crate::stdlib::table::map_contains_key(&args[0], &args[1])
        },
        HostFn::MapIsEmpty => {
            if args.len() != 1 {
                return Err(arity_error("Map.isEmpty", 1));
            }
            crate::stdlib::table::map_is_empty(&args[0])
        },
        HostFn::MapCount => {
            if args.len() != 1 {
                return Err(arity_error("Map.count", 1));
            }
            crate::stdlib::table::map_count(&args[0])
        },
        HostFn::MapOfList => {
            if args.len() != 1 {
                return Err(arity_error("Map.ofList", 1));
            }
            crate::stdlib::table::map_of_list(&args[0])
        },
        HostFn::MapToList => {
            if args.len() != 1 {
                return Err(arity_error("Map.toList", 1));
            }
            crate::stdlib::table::map_to_list(&args[0])
        },
        HostFn::AsyncReturn => crate::stdlib::async_ops::async_return(vm, args),
        HostFn::AsyncBind => crate::stdlib::async_ops::async_bind(vm, args),
        HostFn::AsyncDelay => crate::stdlib::async_ops::async_delay(vm, args),
        HostFn::AsyncReturnFrom => crate::stdlib::async_ops::async_return_from(vm, args),
        HostFn::AsyncZero => crate::stdlib::async_ops::async_zero(vm, args),
        HostFn::AsyncCombine => crate::stdlib::async_ops::async_combine(vm, args),
        HostFn::AsyncRunSynchronously =>
            crate::stdlib::async_ops::async_run_synchronously(vm, args),
        HostFn::AsyncCombineHelper =>
            crate::stdlib::async_ops::async_combine_helper(vm, args),
        HostFn::AsyncSleep => crate::stdlib::async_ops::async_sleep(vm, args),
        HostFn::AsyncParallel => crate::stdlib::async_ops::async_parallel(vm, args),
        HostFn::AsyncWithTimeout => crate::stdlib::async_ops::async_with_timeout(vm, args),
        HostFn::AsyncCatch => crate::stdlib::async_ops::async_catch(vm, args),
        HostFn::AsyncCancel => crate::stdlib::async_ops::async_cancel(vm, args),
        HostFn::ScriptEval => crate::stdlib::script::script_eval(vm, args),
        HostFn::ScriptEvalToString => crate::stdlib::script::script_eval_to_string(vm, args),
    }
}

/// An arity failure for a named host function.
fn arity_error(name: &str, want: usize) -> (r: VmError)
    ensures
        r matches VmError::Runtime(_),
{
    let mut s = String::new();
    s.append(name);
    s.append(" expects ");
    let w = crate::numfmt::u64_to_string(want as u64);
    s.append(w.as_str());
    s.append(" arguments");
    VmError::Runtime(s)
}


/// Default cap on call frames.
pub const DEFAULT_MAX_FRAMES: usize = 1024;

/// Default cap on value-stack slots.
pub const DEFAULT_MAX_STACK: usize = 16384;

/// Default instruction budget for one invocation.
pub const DEFAULT_FUEL: u64 = 16777216;

/// The stack-based interpreter: one contiguous value stack, a frame
/// stack, the table of upvalue slots, the host registry, and the task
/// table shared with the embedding worker.
#[derive(Debug)]
pub struct Vm {
    pub stack: Vec<Value>,
    pub frames: Vec<Frame>,
    pub upvalues: Vec<Upvalue>,
    pub max_frames: usize,
    pub max_stack: usize,
    /// Remaining instruction budget; every executed instruction and
    /// host dispatch consumes one unit.
    pub fuel: u64,
    pub host: HostRegistry,
    pub tasks: TaskTable,
    pub next_task: u64,
    /// Work queued for the embedding worker.
    pub queue: Vec<SpawnRequest>,
    /// The source location of the most recent fault, when known.
    pub fault_span: Option<SourceSpan>,
}

impl Vm {
    /// A fresh machine: empty stacks, no upvalues, default limits, a
    /// full fuel budget, an empty registry and task table, the first
    /// task identifier, an empty worker queue, and no recorded fault.
    pub fn new() -> (r: Vm)
        ensures
            r.stack@.len() == 0,
            r.frames@.len() == 0,
            r.upvalues@.len() == 0,
            r.max_frames == DEFAULT_MAX_FRAMES,
            r.max_stack == DEFAULT_MAX_STACK,
            r.fuel == DEFAULT_FUEL,
            forall|n: Seq<char>| registry_lookup(r.host.entries@, n) is None,
            forall|id: u64| crate::asyncrt::table_lookup(r.tasks.entries@, id) is None,
            r.next_task == 1,
            r.queue@.len() == 0,
            r.fault_span is None,
    {
        let r = Vm {
            stack: Vec::new(),
            frames: Vec::new(),
            upvalues: Vec::new(),
            max_frames: DEFAULT_MAX_FRAMES,
            max_stack: DEFAULT_MAX_STACK,
            fuel: DEFAULT_FUEL,
            host: HostRegistry::new(),
            tasks: TaskTable::new(),
            next_task: 1,
            queue: Vec::new(),
            fault_span: None,
        };
        r
    }

    /// The current state of a task, without blocking: the recorded
    /// state, or for an identifier with no record the synthetic
    /// failure `Unknown task: <id>`.
    pub fn poll(&self, id: u64) -> (r: crate::asyncrt::AsyncState)
        ensures
            match crate::asyncrt::table_lookup(self.tasks.entries@, id) {
                Some(s) => crate::asyncrt::smodel(r) == s,
                None => r matches crate::asyncrt::AsyncState::Failed(m)
                    && m@ == "Unknown task: "@ + crate::numfmt::u64_dec_spec(id),
            },
    {
        match self.tasks.get(id) {
            Some(s) => match s {
                crate::asyncrt::AsyncState::Pending => crate::asyncrt::AsyncState::Pending,
                crate::asyncrt::AsyncState::Ready(v) =>
                    crate::asyncrt::AsyncState::Ready(v.duplicate()),
                crate::asyncrt::AsyncState::Failed(m) =>
                    crate::asyncrt::AsyncState::Failed(m.clone()),
                crate::asyncrt::AsyncState::Cancelled =>
                    crate::asyncrt::AsyncState::Cancelled,
            },
            None => {
                let mut msg = String::new();
                msg.append("Unknown task: ");
                let n = crate::numfmt::u64_to_string(id);
                msg.append(n.as_str());
                proof {
                    assert(msg@ =~= "Unknown task: "@ + crate::numfmt::u64_dec_spec(id));
                }
                crate::asyncrt::AsyncState::Failed(msg)
            },
        }
    }

    /// Register a host function on this machine.
    pub fn register_host(&mut self, name: &str, f: HostFn)
        ensures
            registry_lookup(final(self).host.entries@, name@) == Some(f),
    {
        self.host.register(name, f);
    }

    /// Push one value, honouring the stack limit.
    fn push_value(&mut self, v: Value) -> (r: Result<(), VmError>)
        ensures
            match r {
                Ok(()) => old(self).stack@.len() < old(self).max_stack
                    && final(self).stack@ == old(self).stack@.push(v),
                Err(e) => e == VmError::StackOverflow
                    && old(self).stack@.len() >= old(self).max_stack
                    && final(self).stack == old(self).stack,
            },
            final(self).frames == old(self).frames,
            final(self).upvalues == old(self).upvalues,
            final(self).fuel == old(self).fuel,
            final(self).max_stack == old(self).max_stack,
            final(self).max_frames == old(self).max_frames,
    {
        if self.stack.len() >= self.max_stack {
            return Err(VmError::StackOverflow);
        }
        self.stack.push(v);
        Ok(())
    }

    /// Pop one value; an empty stack is a malformed chunk.
    fn pop_value(&mut self) -> (r: Result<Value, VmError>)
        ensures
            match r {
                Ok(v) => old(self).stack@.len() > 0
                    && v == old(self).stack@.last()
                    && final(self).stack@ == old(self).stack@.take(
                        old(self).stack@.len() - 1,
                    ),
                Err(e) => e == VmError::InvalidOpcode
                    && old(self).stack@.len() == 0
                    && final(self).stack@ == old(self).stack@,
            },
            final(self).frames == old(self).frames,
            final(self).upvalues == old(self).upvalues,
            final(self).fuel == old(self).fuel,
            final(self).max_stack == old(self).max_stack,
            final(self).max_frames == old(self).max_frames,
    {
        match self.stack.pop() {
            Some(v) => Ok(v),
            None => Err(VmError::InvalidOpcode),
        }
    }

    /// Close every open upvalue that points at or above `base`: copy the
    /// stack value it refers to into the slot, so the closure keeps the
    /// value the slot held at this moment.
    pub fn close_upvalues(&mut self, base: usize)
        ensures
            final(self).upvalues@.len() == old(self).upvalues@.len(),
            forall|j: int| 0 <= j < old(self).upvalues@.len()
                ==> match #[trigger] old(self).upvalues@[j] {
                    Upvalue::Open(slot) => {
                        &&& (slot >= base && slot < old(self).stack@.len()
                            ==> (final(self).upvalues@[j] matches Upvalue::Closed(v)
                                && vmodel(v) == vmodel(old(self).stack@[slot as int])))
                        &&& (slot < base ==> final(self).upvalues@[j]
                            == old(self).upvalues@[j])
                    },
                    Upvalue::Closed(_) => final(self).upvalues@[j]
                        == old(self).upvalues@[j],
                },
            final(self).stack == old(self).stack,
            final(self).frames == old(self).frames,
            final(self).fuel == old(self).fuel,
            final(self).max_stack == old(self).max_stack,
            final(self).max_frames == old(self).max_frames,
    {
        let mut i: usize = 0;
        while i < self.upvalues.len()
            invariant
                i <= self.upvalues@.len(),
                self.upvalues@.len() == old(self).upvalues@.len(),
                self.stack == old(self).stack,
                self.frames == old(self).frames,
                self.fuel == old(self).fuel,
                self.max_stack == old(self).max_stack,
                self.max_frames == old(self).max_frames,
                self.host == old(self).host,
                self.tasks == old(self).tasks,
                self.queue == old(self).queue,
                self.next_task == old(self).next_task,
                self.fault_span == old(self).fault_span,
                forall|j: int| i <= j < old(self).upvalues@.len()
                    ==> self.upvalues@[j] == old(self).upvalues@[j],
                forall|j: int| 0 <= j < i
                    ==> match #[trigger] old(self).upvalues@[j] {
                        Upvalue::Open(slot) => {
                            &&& (slot >= base && slot < old(self).stack@.len()
                                ==> (self.upvalues@[j] matches Upvalue::Closed(v)
                                    && vmodel(v) == vmodel(
                                        old(self).stack@[slot as int],
                                    )))
                            &&& (slot < base ==> self.upvalues@[j]
                                == old(self).upvalues@[j])
                        },
                        Upvalue::Closed(_) => self.upvalues@[j]
                            == old(self).upvalues@[j],
                    },
            decreases self.upvalues@.len() - i,
        {
            let slot_opt: Option<usize> = match &self.upvalues[i] {
                Upvalue::Open(slot) => Some(*slot),
                Upvalue::Closed(_) => None,
            };
            if let Some(slot) = slot_opt {
                if slot >= base && slot < self.stack.len() {
                    let v = self.stack[slot].duplicate();
                    self.upvalues.set(i, Upvalue::Closed(v));
                }
            }
            i = i + 1;
        }
    }
}


/// The mathematical shape of a fault.
pub enum VmErrorM {
    TypeMismatch { expected: Seq<char>, got: Seq<char> },
    ArityMismatch,
    DivisionByZero,
    UndefinedHost(Seq<char>),
    StackOverflow,
    InvalidOpcode,
    FuelExhausted,
    NotCallable,
    Runtime(Seq<char>),
}

/// The model of a fault.
pub open spec fn emodel(e: VmError) -> VmErrorM {
    match e {
        VmError::TypeMismatch { expected, got } => VmErrorM::TypeMismatch {
            expected: expected@,
            got: got@,
        },
        VmError::ArityMismatch => VmErrorM::ArityMismatch,
        VmError::DivisionByZero => VmErrorM::DivisionByZero,
        VmError::UndefinedHost(n) => VmErrorM::UndefinedHost(n@),
        VmError::StackOverflow => VmErrorM::StackOverflow,
        VmError::InvalidOpcode => VmErrorM::InvalidOpcode,
        VmError::FuelExhausted => VmErrorM::FuelExhausted,
        VmError::NotCallable => VmErrorM::NotCallable,
        VmError::Runtime(m) => VmErrorM::Runtime(m@),
    }
}

/// Lexicographic order on character sequences, by code point.
pub open spec fn chars_lt(a: Seq<char>, b: Seq<char>) -> bool
    decreases a,
{
    if b.len() == 0 {
        false
    } else if a.len() == 0 {
        true
    } else if a[0] != b[0] {
        (a[0] as u32) < (b[0] as u32)
    } else {
        chars_lt(a.skip(1), b.skip(1))
    }
}

/// `chars_lt` is asymmetric: of two sequences, at most one is less.
pub proof fn lemma_chars_lt_asym(a: Seq<char>, b: Seq<char>)
    requires
        chars_lt(a, b),
    ensures
        !chars_lt(b, a),
    decreases a,
{
    if b.len() == 0 {
    } else if a.len() == 0 {
    } else if a[0] != b[0] {
    } else {
        lemma_chars_lt_asym(a.skip(1), b.skip(1));
    }
}

/// `chars_lt` is transitive.
pub proof fn lemma_chars_lt_trans(a: Seq<char>, b: Seq<char>, c: Seq<char>)
    requires
        chars_lt(a, b),
        chars_lt(b, c),
    ensures
        chars_lt(a, c),
    decreases a,
{
    if c.len() == 0 {
    } else if a.len() == 0 {
    } else {
        if a[0] == b[0] && b[0] == c[0] {
            lemma_chars_lt_trans(a.skip(1), b.skip(1), c.skip(1));
        }
    }
}

/// Runtime check matching `chars_lt` on the views of two strings.
pub fn str_lt(a: &str, b: &str) -> (r: bool)
    ensures
        r == chars_lt(a@, b@),
{
    let alen = a.unicode_len();
    let blen = b.unicode_len();
    let mut i: usize = 0;
    proof {
        assert(a@.skip(0) =~= a@);
        assert(b@.skip(0) =~= b@);
    }
    while i < alen && i < blen
        invariant
            alen == a@.len(),
            blen == b@.len(),
            i <= alen,
            i <= blen,
            forall|j: int| 0 <= j < i ==> a@[j] == b@[j],
            chars_lt(a@, b@) == chars_lt(a@.skip(i as int), b@.skip(i as int)),
        decreases alen - i,
    {
        let ca = a.get_char(i);
        let cb = b.get_char(i);
        if ca != cb {
            proof {
                assert(a@.skip(i as int)[0] == a@[i as int]);
                assert(b@.skip(i as int)[0] == b@[i as int]);
            }
            return (ca as u32) < (cb as u32);
        }
        proof {
            assert(a@.skip(i as int)[0] == a@[i as int]);
            assert(b@.skip(i as int)[0] == b@[i as int]);
            assert(a@.skip(i as int).skip(1) =~= a@.skip(i + 1));
            assert(b@.skip(i as int).skip(1) =~= b@.skip(i + 1));
        }
        i = i + 1;
    }
    proof {
        assert(a@.skip(i as int).len() == alen - i);
        assert(b@.skip(i as int).len() == blen - i);
    }
    i < blen
}

/// The kinds of two-operand instructions.
#[derive(Debug, Clone, Copy, PartialEq, Eq, Structural)]
pub enum BinKind {
    Add,
    Sub,
    Mul,
    Div,
    Mod,
    Eq,
    Neq,
    Lt,
    Lte,
    Gt,
    Gte,
    And,
    Or,
}

/// What a two-operand instruction returns, per the machine's contract:
/// integer arithmetic wraps; integer division or remainder by zero is a
/// `DivisionByZero` fault; equality is structural and safe across
/// kinds; ordering is defined on two integers or two strings; logic
/// demands booleans; arithmetic on floating-point bit patterns is not
/// computed here and faults.
pub open spec fn binop_spec(k: BinKind, a: ValueM, b: ValueM) -> Result<ValueM, VmErrorM> {
    match k {
        BinKind::Add => match (a, b) {
            (ValueM::Int(x), ValueM::Int(y)) => Ok(ValueM::Int(
                vstd::wrapping::i64_specs::wrapping_add(x, y),
            )),
            _ => Err(arith_fault(a, b)),
        },
        BinKind::Sub => match (a, b) {
            (ValueM::Int(x), ValueM::Int(y)) => Ok(ValueM::Int(
                vstd::wrapping::i64_specs::wrapping_sub(x, y),
            )),
            _ => Err(arith_fault(a, b)),
        },
        BinKind::Mul => match (a, b) {
            (ValueM::Int(x), ValueM::Int(y)) => Ok(ValueM::Int(
                vstd::wrapping::i64_specs::wrapping_mul(x, y),
            )),
            _ => Err(arith_fault(a, b)),
        },
        BinKind::Div => match (a, b) {
            (ValueM::Int(x), ValueM::Int(y)) => if y == 0 {
                Err(VmErrorM::DivisionByZero)
            } else {
                Ok(ValueM::Int(match x.checked_div(y) {
                    Some(q) => q,
                    None => i64::MIN,
                }))
            },
            _ => Err(arith_fault(a, b)),
        },
        BinKind::Mod => match (a, b) {
            (ValueM::Int(x), ValueM::Int(y)) => if y == 0 {
                Err(VmErrorM::DivisionByZero)
            } else {
                Ok(ValueM::Int(match x.checked_rem(y) {
                    Some(q) => q,
                    None => 0,
                }))
            },
            _ => Err(arith_fault(a, b)),
        },
        BinKind::Eq => Ok(ValueM::Bool(value_eq_spec(a, b))),
        BinKind::Neq => Ok(ValueM::Bool(!value_eq_spec(a, b))),
        BinKind::Lt => order_spec(a, b, false, false),
        BinKind::Lte => order_spec(a, b, false, true),
        BinKind::Gt => order_spec(a, b, true, false),
        BinKind::Gte => order_spec(a, b, true, true),
        BinKind::And => match (a, b) {
            (ValueM::Bool(x), ValueM::Bool(y)) => Ok(ValueM::Bool(x && y)),
            _ => Err(logic_fault(a, b)),
        },
        BinKind::Or => match (a, b) {
            (ValueM::Bool(x), ValueM::Bool(y)) => Ok(ValueM::Bool(x || y)),
            _ => Err(logic_fault(a, b)),
        },
    }
}

/// The fault for arithmetic on anything but two integers.
pub open spec fn arith_fault(a: ValueM, b: ValueM) -> VmErrorM {
    if a matches ValueM::Float(_) || b matches ValueM::Float(_) {
        VmErrorM::Runtime("float arithmetic is not available"@)
    } else if !(a matches ValueM::Int(_)) {
        VmErrorM::TypeMismatch { expected: "int"@, got: crate::value::kind_name_spec(a) }
    } else {
        VmErrorM::TypeMismatch { expected: "int"@, got: crate::value::kind_name_spec(b) }
    }
}

/// The fault for logic on anything but two booleans.
pub open spec fn logic_fault(a: ValueM, b: ValueM) -> VmErrorM {
    if !(a matches ValueM::Bool(_)) {
        VmErrorM::TypeMismatch { expected: "bool"@, got: crate::value::kind_name_spec(a) }
    } else {
        VmErrorM::TypeMismatch { expected: "bool"@, got: crate::value::kind_name_spec(b) }
    }
}

/// Ordering comparisons: two integers by value, two strings
/// lexicographically; `flip` swaps the operands, `or_equal` accepts
/// equality.
pub open spec fn order_spec(a: ValueM, b: ValueM, flip: bool, or_equal: bool) -> Result<
    ValueM,
    VmErrorM,
> {
    let l = if flip { b } else { a };
    let r = if flip { a } else { b };
    match (l, r) {
        (ValueM::Int(x), ValueM::Int(y)) => Ok(ValueM::Bool(
            if or_equal { x <= y } else { x < y },
        )),
        (ValueM::Str(x), ValueM::Str(y)) => Ok(ValueM::Bool(
            if or_equal { chars_lt(x, y) || x == y } else { chars_lt(x, y) },
        )),
        _ => Err(arith_fault(l, r)),
    }
}

/// Execute one two-operand instruction on popped operands.
pub fn eval_binop(k: BinKind, a: &Value, b: &Value) -> (r: Result<Value, VmError>)
    ensures
        match r {
            Ok(v) => binop_spec(k, vmodel(*a), vmodel(*b)) matches Ok(m)
                && vmodel(v) == m,
            Err(e) => binop_spec(k, vmodel(*a), vmodel(*b)) matches Err(m)
                && emodel(e) == m,
        },
{
    match k {
        BinKind::Add => match (a, b) {
            (Value::Int(x), Value::Int(y)) => Ok(Value::Int(x.wrapping_add(*y))),
            _ => Err(arith_fault_exec(a, b)),
        },
        BinKind::Sub => match (a, b) {
            (Value::Int(x), Value::Int(y)) => Ok(Value::Int(x.wrapping_sub(*y))),
            _ => Err(arith_fault_exec(a, b)),
        },
        BinKind::Mul => match (a, b) {
            (Value::Int(x), Value::Int(y)) => Ok(Value::Int(x.wrapping_mul(*y))),
            _ => Err(arith_fault_exec(a, b)),
        },
        BinKind::Div => match (a, b) {
            (Value::Int(x), Value::Int(y)) => if *y == 0 {
                Err(VmError::DivisionByZero)
            } else {
                Ok(Value::Int(match x.checked_div(*y) {
                    Some(q) => q,
                    None => i64::MIN,
                }))
            },
            _ => Err(arith_fault_exec(a, b)),
        },
        BinKind::Mod => match (a, b) {
            (Value::Int(x), Value::Int(y)) => if *y == 0 {
                Err(VmError::DivisionByZero)
            } else {
                Ok(Value::Int(match x.checked_rem(*y) {
                    Some(q) => q,
                    None => 0,
                }))
            },
            _ => Err(arith_fault_exec(a, b)),
        },
        BinKind::Eq => Ok(Value::Bool(a.value_eq(b))),
        BinKind::Neq => Ok(Value::Bool(!a.value_eq(b))),
        BinKind::Lt => order_exec(a, b, false),
        BinKind::Lte => order_exec(a, b, true),
        BinKind::Gt => order_exec(b, a, false),
        BinKind::Gte => order_exec(b, a, true),
        BinKind::And => match (a, b) {
            (Value::Bool(x), Value::Bool(y)) => Ok(Value::Bool(*x && *y)),
            _ => Err(logic_fault_exec(a, b)),
        },
        BinKind::Or => match (a, b) {
            (Value::Bool(x), Value::Bool(y)) => Ok(Value::Bool(*x || *y)),
            _ => Err(logic_fault_exec(a, b)),
        },
    }
}

/// Runtime counterpart of `arith_fault`.
fn arith_fault_exec(a: &Value, b: &Value) -> (r: VmError)
    ensures
        emodel(r) == arith_fault(vmodel(*a), vmodel(*b)),
{
    let a_float = matches!(a, Value::Float(_));
    let b_float = matches!(b, Value::Float(_));
    if a_float || b_float {
        VmError::Runtime(String::from_str("float arithmetic is not available"))
    } else if !matches!(a, Value::Int(_)) {
        VmError::TypeMismatch { expected: "int", got: a.kind_name() }
    } else {
        VmError::TypeMismatch { expected: "int", got: b.kind_name() }
    }
}

/// Runtime counterpart of `logic_fault`.
fn logic_fault_exec(a: &Value, b: &Value) -> (r: VmError)
    ensures
        emodel(r) == logic_fault(vmodel(*a), vmodel(*b)),
{
    if !matches!(a, Value::Bool(_)) {
        VmError::TypeMismatch { expected: "bool", got: a.kind_name() }
    } else {
        VmError::TypeMismatch { expected: "bool", got: b.kind_name() }
    }
}

/// Runtime counterpart of `order_spec` with `flip` already applied by
/// the caller.
fn order_exec(l: &Value, r: &Value, or_equal: bool) -> (res: Result<
    Value,
    VmError,
>)
    ensures
        match res {
            Ok(v) => order_spec(vmodel(*l), vmodel(*r), false, or_equal) matches Ok(m)
                && vmodel(v) == m,
            Err(e) => order_spec(vmodel(*l), vmodel(*r), false, or_equal) matches Err(m)
                && emodel(e) == m,
        },
{
    match (l, r) {
        (Value::Int(x), Value::Int(y)) => Ok(Value::Bool(
            if or_equal { *x <= *y } else { *x < *y },
        )),
        (Value::Str(x), Value::Str(y)) => {
            let lt = str_lt(x.as_str(), y.as_str());
            if or_equal {
                Ok(Value::Bool(lt || crate::value::str_eq(x.as_str(), y.as_str())))
            } else {
                Ok(Value::Bool(lt))
            }
        },
        _ => Err(arith_fault_exec(l, r)),
    }
}


/// The constant of a chunk that consists of loading its single
/// constant and returning it.
pub open spec fn lit_chunk_value(cm: crate::chunk::ChunkM) -> Option<ValueM> {
    if cm.instructions == seq![
        crate::instruction::InstrM::LoadConst(0),
        crate::instruction::InstrM::Return,
    ] && cm.constants.len() == 1 {
        Some(cm.constants[0])
    } else {
        None
    }
}

/// A machine about to run a frame whose chunk loads one constant and
/// returns it, with room and budget to do so and no open upvalue that
/// a return would disturb.
pub open spec fn lit_ready(vm: Vm, base: int) -> bool {
    &&& vm.frames@.len() == base + 1
    &&& base >= 0
    &&& vm.frames@.last().ip == 0
    &&& vm.frames@.last().stack_base == vm.stack@.len()
    &&& lit_chunk_value(crate::chunk::cmodel(*vm.frames@.last().closure.chunk)) is Some
    &&& vm.fuel >= 2
    &&& vm.stack@.len() < vm.max_stack
    &&& forall|j: int| 0 <= j < vm.upvalues@.len()
        ==> !(#[trigger] vm.upvalues@[j] matches Upvalue::Open(_))
}

/// The constant such a machine is about to produce.
pub open spec fn lit_result(vm: Vm) -> ValueM {
    lit_chunk_value(crate::chunk::cmodel(*vm.frames@.last().closure.chunk)).unwrap()
}

/// The two-operand kind an instruction performs, if it is one.
pub open spec fn binkind_of(i: crate::instruction::InstrM) -> Option<BinKind> {
    match i {
        crate::instruction::InstrM::Add => Some(BinKind::Add),
        crate::instruction::InstrM::Sub => Some(BinKind::Sub),
        crate::instruction::InstrM::Mul => Some(BinKind::Mul),
        crate::instruction::InstrM::Div => Some(BinKind::Div),
        crate::instruction::InstrM::Mod => Some(BinKind::Mod),
        crate::instruction::InstrM::Eq => Some(BinKind::Eq),
        crate::instruction::InstrM::Neq => Some(BinKind::Neq),
        crate::instruction::InstrM::Lt => Some(BinKind::Lt),
        crate::instruction::InstrM::Lte => Some(BinKind::Lte),
        crate::instruction::InstrM::Gt => Some(BinKind::Gt),
        crate::instruction::InstrM::Gte => Some(BinKind::Gte),
        crate::instruction::InstrM::And => Some(BinKind::And),
        crate::instruction::InstrM::Or => Some(BinKind::Or),
        _ => None,
    }
}

/// One decoded instruction, operands owned, ready to act on the stack.
enum Op {
    Push(Value),
    LoadLocal(usize),
    StoreLocal(usize),
    Pop,
    Dup,
    Cons,
    MakeTuple(usize),
    MakeVariant(String, String, usize),
    MakeClosure(u16, Vec<Capture>),
    LoadUpvalue(usize),
    Binary(BinKind),
    Neg,
    Not,
    Jump(i32),
    JumpIf(i32, bool),
    Call(usize),
    TestVariant(String),
    GetVariantField(usize),
    MatchFail,
    Return,
}

impl Vm {
    /// Run frames above `base` until they have all returned; the last
    /// return leaves exactly one result value on the stack above the
    /// entered frame's base.
    fn run_loop(&mut self, base: usize) -> (r: Result<(), VmError>)
        ensures
            r is Ok ==> final(self).frames@.len() == base,
            final(self).fuel <= old(self).fuel,
            lit_ready(*old(self), base as int) ==> (r is Ok
                && final(self).stack@.len() == old(self).stack@.len() + 1
                && final(self).stack@.take(old(self).stack@.len() as int)
                    == old(self).stack@
                && vmodel(final(self).stack@.last()) == lit_result(*old(self))),
        decreases self.fuel, 3int,
    {
        let ghost lit = lit_ready(*old(self), base as int);
        loop
            invariant
                self.fuel <= old(self).fuel,
                lit == lit_ready(*old(self), base as int),
                lit ==> ({
                    // Still to run the load.
                    &&& self.frames@ == old(self).frames@
                    &&& self.stack@ == old(self).stack@
                    &&& self.fuel >= 2
                    &&& self.upvalues@ == old(self).upvalues@
                    &&& self.max_stack == old(self).max_stack
                } || {
                    // Loaded, still to return.
                    &&& self.frames@.len() == base + 1
                    &&& self.frames@.take(base as int)
                        == old(self).frames@.take(base as int)
                    &&& self.frames@.last().closure
                        == old(self).frames@.last().closure
                    &&& self.frames@.last().ip == 1
                    &&& self.frames@.last().stack_base == old(self).stack@.len()
                    &&& self.stack@.len() == old(self).stack@.len() + 1
                    &&& self.stack@.take(old(self).stack@.len() as int)
                        == old(self).stack@
                    &&& vmodel(self.stack@.last()) == lit_result(*old(self))
                    &&& self.fuel >= 1
                    &&& self.upvalues@ == old(self).upvalues@
                    &&& self.max_stack == old(self).max_stack
                } || {
                    // Returned.
                    &&& self.frames@.len() == base
                    &&& self.stack@.len() == old(self).stack@.len() + 1
                    &&& self.stack@.take(old(self).stack@.len() as int)
                        == old(self).stack@
                    &&& vmodel(self.stack@.last()) == lit_result(*old(self))
                }),
            decreases self.fuel,
        {
            if self.frames.len() == base {
                return Ok(());
            }
            if self.frames.len() < base {
                return Err(VmError::InvalidOpcode);
            }
            if self.fuel == 0 {
                return Err(VmError::FuelExhausted);
            }
            self.fuel = self.fuel - 1;
            let fr = match self.frames.pop() {
                Some(f) => f,
                None => {
                    return Err(VmError::InvalidOpcode);
                },
            };
            proof {
                if lit {
                    crate::value::lemma_models_of(fr.closure.chunk.constants@);
                    assert(fr.closure == old(self).frames@.last().closure);
                    assert(lit_chunk_value(
                        crate::chunk::cmodel(*fr.closure.chunk),
                    ) is Some);
                    assert(crate::chunk::cmodel(*fr.closure.chunk).instructions
                        == seq![
                            crate::instruction::InstrM::LoadConst(0),
                            crate::instruction::InstrM::Return,
                        ]);
                    assert(crate::instruction::imodels_of(
                        fr.closure.chunk.instructions@,
                    ).len() == fr.closure.chunk.instructions@.len());
                    assert(fr.closure.chunk.instructions@.len() == 2);
                    assert(crate::chunk::cmodel(*fr.closure.chunk).instructions[0]
                        == crate::instruction::imodel(
                            fr.closure.chunk.instructions@[0],
                        ));
                    assert(crate::chunk::cmodel(*fr.closure.chunk).instructions[1]
                        == crate::instruction::imodel(
                            fr.closure.chunk.instructions@[1],
                        ));
                }
            }
            let ghost pre_step = *self;
            match self.step(fr) {
                Ok(()) => {},
                Err(e) => {
                    return Err(e);
                },
            }
            proof {
                if lit && self.stack@.len() > old(self).stack@.len() {
                    assert(self.stack@.take(old(self).stack@.len() as int)
                        =~= old(self).stack@);
                }
            }
        }
    }

    /// Execute one instruction of the given frame. The frame has been
    /// taken off the frame stack; the step pushes it back unless it
    /// returns, and pushes a callee frame above it on a call.
    fn step(&mut self, fr: Frame) -> (r: Result<(), VmError>)
        ensures
            final(self).fuel <= old(self).fuel,
            (fr.ip < fr.closure.chunk.instructions@.len()
                && crate::instruction::imodel(
                    fr.closure.chunk.instructions@[fr.ip as int],
                ) == crate::instruction::InstrM::LoadConst(0)
                && fr.closure.chunk.constants@.len() >= 1
                && old(self).stack@.len() < old(self).max_stack) ==> (r is Ok
                && final(self).stack@.len() == old(self).stack@.len() + 1
                && final(self).stack@.take(old(self).stack@.len() as int)
                    == old(self).stack@
                && vmodel(final(self).stack@.last())
                    == crate::value::models_of(fr.closure.chunk.constants@)[0]
                && final(self).frames@.len() == old(self).frames@.len() + 1
                && final(self).frames@.take(old(self).frames@.len() as int)
                    == old(self).frames@
                && final(self).frames@.last().closure == fr.closure
                && final(self).frames@.last().ip == fr.ip + 1
                && final(self).frames@.last().stack_base == fr.stack_base
                && final(self).fuel == old(self).fuel
                && final(self).upvalues@ == old(self).upvalues@
                && final(self).max_stack == old(self).max_stack),
            (fr.ip < fr.closure.chunk.instructions@.len()
                && crate::instruction::imodel(
                    fr.closure.chunk.instructions@[fr.ip as int],
                ) == crate::instruction::InstrM::Return
                && old(self).stack@.len() > fr.stack_base
                && fr.stack_base < old(self).max_stack
                && (forall|j: int| 0 <= j < old(self).upvalues@.len()
                    ==> !(#[trigger] old(self).upvalues@[j] matches Upvalue::Open(_))))
                ==> (r is Ok
                && final(self).frames@ == old(self).frames@
                && final(self).stack@.len() == fr.stack_base + 1
                && final(self).stack@.take(fr.stack_base as int)
                    == old(self).stack@.take(fr.stack_base as int)
                && vmodel(final(self).stack@.last())
                    == vmodel(old(self).stack@.last())
                && final(self).fuel == old(self).fuel
                && final(self).max_stack == old(self).max_stack),
            (fr.ip < fr.closure.chunk.instructions@.len()
                && crate::instruction::imodel(
                    fr.closure.chunk.instructions@[fr.ip as int],
                ) == crate::instruction::InstrM::Nil
                && old(self).stack@.len() < old(self).max_stack) ==> (r is Ok
                && final(self).stack@.len() == old(self).stack@.len() + 1
                && final(self).stack@.take(old(self).stack@.len() as int)
                    == old(self).stack@
                && vmodel(final(self).stack@.last()) == ValueM::Nil
                && final(self).frames@.len() == old(self).frames@.len() + 1
                && final(self).frames@.take(old(self).frames@.len() as int)
                    == old(self).frames@
                && final(self).frames@.last().closure == fr.closure
                && final(self).frames@.last().ip == fr.ip + 1
                && final(self).frames@.last().stack_base == fr.stack_base
                && final(self).fuel == old(self).fuel),
            (fr.ip < fr.closure.chunk.instructions@.len()
                && crate::instruction::imodel(
                    fr.closure.chunk.instructions@[fr.ip as int],
                ) == crate::instruction::InstrM::Pop
                && old(self).stack@.len() > 0) ==> (r is Ok
                && final(self).stack@ == old(self).stack@.take(
                    old(self).stack@.len() - 1,
                )
                && final(self).frames@.len() == old(self).frames@.len() + 1
                && final(self).frames@.take(old(self).frames@.len() as int)
                    == old(self).frames@
                && final(self).frames@.last().closure == fr.closure
                && final(self).frames@.last().ip == fr.ip + 1
                && final(self).frames@.last().stack_base == fr.stack_base
                && final(self).fuel == old(self).fuel),
            (fr.ip < fr.closure.chunk.instructions@.len()
                && crate::instruction::imodel(
                    fr.closure.chunk.instructions@[fr.ip as int],
                ) == crate::instruction::InstrM::Dup
                && old(self).stack@.len() > 0
                && old(self).stack@.len() < old(self).max_stack) ==> (r is Ok
                && final(self).stack@.len() == old(self).stack@.len() + 1
                && final(self).stack@.take(old(self).stack@.len() as int)
                    == old(self).stack@
                && vmodel(final(self).stack@.last())
                    == vmodel(old(self).stack@.last())
                && final(self).frames@.len() == old(self).frames@.len() + 1
                && final(self).frames@.take(old(self).frames@.len() as int)
                    == old(self).frames@
                && final(self).frames@.last().ip == fr.ip + 1
                && final(self).fuel == old(self).fuel),
            (fr.ip < fr.closure.chunk.instructions@.len()
                && crate::instruction::imodel(
                    fr.closure.chunk.instructions@[fr.ip as int],
                ) == crate::instruction::InstrM::Cons
                && old(self).stack@.len() >= 2
                && old(self).stack@.len() <= old(self).max_stack
                && ((vmodel(old(self).stack@[old(self).stack@.len() - 2])
                    matches ValueM::Nil) || (vmodel(
                    old(self).stack@[old(self).stack@.len() - 2],
                ) matches ValueM::Cons(_, _)))) ==> (r is Ok
                && final(self).stack@.len() == old(self).stack@.len() - 1
                && final(self).stack@.take(old(self).stack@.len() - 2)
                    == old(self).stack@.take(old(self).stack@.len() - 2)
                && vmodel(final(self).stack@.last()) == ValueM::Cons(
                    Box::new(vmodel(old(self).stack@.last())),
                    Box::new(vmodel(old(self).stack@[old(self).stack@.len() - 2])),
                )
                && final(self).frames@.len() == old(self).frames@.len() + 1
                && final(self).frames@.take(old(self).frames@.len() as int)
                    == old(self).frames@
                && final(self).frames@.last().ip == fr.ip + 1
                && final(self).fuel == old(self).fuel),
            (fr.ip < fr.closure.chunk.instructions@.len()
                && binkind_of(crate::instruction::imodel(
                    fr.closure.chunk.instructions@[fr.ip as int],
                )) is Some
                && old(self).stack@.len() >= 2
                && old(self).stack@.len() <= old(self).max_stack) ==> match binop_spec(
                binkind_of(crate::instruction::imodel(
                    fr.closure.chunk.instructions@[fr.ip as int],
                )).unwrap(),
                vmodel(old(self).stack@[old(self).stack@.len() - 2]),
                vmodel(old(self).stack@[old(self).stack@.len() - 1]),
            ) {
                Ok(m) => r is Ok
                    && final(self).stack@.len() == old(self).stack@.len() - 1
                    && final(self).stack@.take(old(self).stack@.len() - 2)
                        == old(self).stack@.take(old(self).stack@.len() - 2)
                    && vmodel(final(self).stack@.last()) == m
                    && final(self).frames@.len() == old(self).frames@.len() + 1
                    && final(self).frames@.take(old(self).frames@.len() as int)
                        == old(self).frames@
                    && final(self).frames@.last().ip == fr.ip + 1
                    && final(self).fuel == old(self).fuel,
                Err(m) => (r matches Err(e) && emodel(e) == m)
                    && final(self).fault_span == (if (fr.ip as int)
                        < fr.closure.chunk.spans@.len()
                        && fr.closure.chunk.spans@[fr.ip as int].spec_is_known() {
                        Some(fr.closure.chunk.spans@[fr.ip as int])
                    } else {
                        None::<crate::chunk::SourceSpan>
                    }),
            },
            (fr.ip < fr.closure.chunk.instructions@.len()
                && crate::instruction::imodel(
                    fr.closure.chunk.instructions@[fr.ip as int],
                ) == crate::instruction::InstrM::MatchFail)
                ==> (r matches Err(e) && (e matches VmError::Runtime(m)
                    && m@ == "no pattern matched the value"@))
                && final(self).fault_span == (if (fr.ip as int)
                    < fr.closure.chunk.spans@.len()
                    && fr.closure.chunk.spans@[fr.ip as int].spec_is_known() {
                    Some(fr.closure.chunk.spans@[fr.ip as int])
                } else {
                    None::<crate::chunk::SourceSpan>
                }),
        decreases self.fuel, 2int,
    {
        let mut fr = fr;
        proof {
            crate::value::lemma_models_of(fr.closure.chunk.constants@);
        }
        let ip = fr.ip;
        if ip >= fr.closure.chunk.instructions.len() {
            return Err(VmError::InvalidOpcode);
        }
        fr.ip = ip + 1;
        // Decode the operands up front so the frame can move freely.
        let op: Op = match &fr.closure.chunk.instructions[ip] {
            Instruction::LoadConst(k) => {
                let k = *k as usize;
                if k >= fr.closure.chunk.constants.len() {
                    return Err(VmError::InvalidOpcode);
                }
                Op::Push(fr.closure.chunk.constants[k].duplicate())
            },
            Instruction::Nil => Op::Push(Value::Nil),
            Instruction::LoadLocal(i) => Op::LoadLocal(*i as usize),
            Instruction::StoreLocal(i) => Op::StoreLocal(*i as usize),
            Instruction::Pop => Op::Pop,
            Instruction::Dup => Op::Dup,
            Instruction::Cons => Op::Cons,
            Instruction::MakeTuple(n) => Op::MakeTuple(*n as usize),
            Instruction::MakeVariant { tag, ctor, arity } =>
                Op::MakeVariant(tag.clone(), ctor.clone(), *arity as usize),
            Instruction::MakeClosure { chunk_const, captures } => {
                let mut caps: Vec<Capture> = Vec::new();
                let mut ci: usize = 0;
                while ci < captures.len()
                    invariant
                        ci <= captures@.len(),
                    decreases captures@.len() - ci,
                {
                    caps.push(match &captures[ci] {
                        Capture::Local(sl) => Capture::Local(*sl),
                        Capture::FromEnclosing(j) => Capture::FromEnclosing(*j),
                    });
                    ci = ci + 1;
                }
                Op::MakeClosure(*chunk_const, caps)
            },
            Instruction::LoadUpvalue(i) => Op::LoadUpvalue(*i as usize),
            Instruction::Add => Op::Binary(BinKind::Add),
            Instruction::Sub => Op::Binary(BinKind::Sub),
            Instruction::Mul => Op::Binary(BinKind::Mul),
            Instruction::Div => Op::Binary(BinKind::Div),
            Instruction::Mod => Op::Binary(BinKind::Mod),
            Instruction::Eq => Op::Binary(BinKind::Eq),
            Instruction::Neq => Op::Binary(BinKind::Neq),
            Instruction::Lt => Op::Binary(BinKind::Lt),
            Instruction::Lte => Op::Binary(BinKind::Lte),
            Instruction::Gt => Op::Binary(BinKind::Gt),
            Instruction::Gte => Op::Binary(BinKind::Gte),
            Instruction::And => Op::Binary(BinKind::And),
            Instruction::Or => Op::Binary(BinKind::Or),
            Instruction::Neg => Op::Neg,
            Instruction::Not => Op::Not,
            Instruction::Jump(o) => Op::Jump(*o as i32),
            Instruction::JumpIfFalse(o) => Op::JumpIf(*o as i32, false),
            Instruction::JumpIfTrue(o) => Op::JumpIf(*o as i32, true),
            Instruction::Call(n) => Op::Call(*n as usize),
            Instruction::TestVariant { ctor } => Op::TestVariant(ctor.clone()),
            Instruction::GetVariantField(i) => Op::GetVariantField(*i as usize),
            Instruction::MatchFail => Op::MatchFail,
            Instruction::Return => Op::Return,
        };
        match op {
            Op::Push(v) => {
                self.push_value(v)?;
                self.frames.push(fr);
                Ok(())
            },
            Op::LoadLocal(i) => {
                let slot = match fr.stack_base.checked_add(i) {
                    Some(s) => s,
                    None => {
                        return Err(VmError::InvalidOpcode);
                    },
                };
                if slot >= self.stack.len() {
                    return Err(VmError::InvalidOpcode);
                }
                let v = self.stack[slot].duplicate();
                self.push_value(v)?;
                self.frames.push(fr);
                Ok(())
            },
            Op::StoreLocal(i) => {
                let slot = match fr.stack_base.checked_add(i) {
                    Some(s) => s,
                    None => {
                        return Err(VmError::InvalidOpcode);
                    },
                };
                let v = self.pop_value()?;
                if slot < self.stack.len() {
                    // Writing below the top discards everything above
                    // the slot: the value slides down over it.
                    self.stack.set(slot, v);
                    self.stack.truncate(slot + 1);
                } else if slot == self.stack.len() {
                    self.push_value(v)?;
                } else {
                    return Err(VmError::InvalidOpcode);
                }
                self.frames.push(fr);
                Ok(())
            },
            Op::Pop => {
                self.pop_value()?;
                self.frames.push(fr);
                Ok(())
            },
            Op::Dup => {
                if self.stack.len() == 0 {
                    return Err(VmError::InvalidOpcode);
                }
                let v = self.stack[self.stack.len() - 1].duplicate();
                self.push_value(v)?;
                self.frames.push(fr);
                Ok(())
            },
            Op::Cons => {
                let head = self.pop_value()?;
                let tail = self.pop_value()?;
                match &tail {
                    Value::Nil | Value::Cons { .. } => {},
                    _ => {
                        return Err(VmError::TypeMismatch {
                            expected: "list",
                            got: tail.kind_name(),
                        });
                    },
                }
                self.push_value(Value::Cons {
                    head: Rc::new(head),
                    tail: Rc::new(tail),
                })?;
                self.frames.push(fr);
                Ok(())
            },
            Op::MakeTuple(n) => {
                let items = self.pop_many(n)?;
                self.push_value(Value::Tuple(items))?;
                self.frames.push(fr);
                Ok(())
            },
            Op::MakeVariant(tag, ctor, n) => {
                let fields = self.pop_many(n)?;
                self.push_value(Value::Variant { tag, ctor, fields })?;
                self.frames.push(fr);
                Ok(())
            },
            Op::MakeClosure(chunk_const, caps) => {
                let k = chunk_const as usize;
                if k >= fr.closure.chunk.constants.len() {
                    return Err(VmError::InvalidOpcode);
                }
                let template = match &fr.closure.chunk.constants[k] {
                    Value::Closure(rc) => rc_clone(rc),
                    _ => {
                        return Err(VmError::InvalidOpcode);
                    },
                };
                let mut upvals: Vec<usize> = Vec::new();
                let mut ci: usize = 0;
                let mut bad = false;
                while ci < caps.len()
                    invariant
                        ci <= caps@.len(),
                        self.fuel == old(self).fuel,
                        self.stack@ == old(self).stack@,
                        self.frames@.len() == old(self).frames@.len(),
                        self.max_stack == old(self).max_stack,
                    decreases caps@.len() - ci,
                {
                    match &caps[ci] {
                        Capture::Local(sl) => {
                            match fr.stack_base.checked_add(*sl as usize) {
                                Some(slot) => {
                                    let idx = self.upvalues.len();
                                    self.upvalues.push(Upvalue::Open(slot));
                                    upvals.push(idx);
                                },
                                None => {
                                    bad = true;
                                },
                            }
                        },
                        Capture::FromEnclosing(j) => {
                            let j = *j as usize;
                            if j >= fr.closure.upvalues.len() {
                                bad = true;
                            } else {
                                upvals.push(fr.closure.upvalues[j]);
                            }
                        },
                    }
                    ci = ci + 1;
                }
                if bad {
                    return Err(VmError::InvalidOpcode);
                }
                let closure = Closure {
                    chunk: rc_clone(&template.chunk),
                    arity: template.arity,
                    upvalues: upvals,
                };
                self.push_value(Value::Closure(Rc::new(closure)))?;
                self.frames.push(fr);
                Ok(())
            },
            Op::LoadUpvalue(i) => {
                if i >= fr.closure.upvalues.len() {
                    return Err(VmError::InvalidOpcode);
                }
                let idx = fr.closure.upvalues[i];
                if idx >= self.upvalues.len() {
                    return Err(VmError::InvalidOpcode);
                }
                let v = match &self.upvalues[idx] {
                    Upvalue::Open(slot) => {
                        let slot = *slot;
                        if slot >= self.stack.len() {
                            return Err(VmError::InvalidOpcode);
                        }
                        self.stack[slot].duplicate()
                    },
                    Upvalue::Closed(v) => v.duplicate(),
                };
                self.push_value(v)?;
                self.frames.push(fr);
                Ok(())
            },
            Op::Binary(k) => {
                let b = self.pop_value()?;
                let a = self.pop_value()?;
                match eval_binop(k, &a, &b) {
                    Ok(v) => {
                        self.push_value(v)?;
                        self.frames.push(fr);
                        Ok(())
                    },
                    Err(e) => {
                        self.fault_span = fr.closure.chunk.span_at(ip);
                        Err(e)
                    },
                }
            },
            Op::Neg => {
                let a = self.pop_value()?;
                match &a {
                    Value::Int(x) => {
                        self.push_value(Value::Int((0i64).wrapping_sub(*x)))?;
                        self.frames.push(fr);
                        Ok(())
                    },
                    Value::Float(_) => Err(VmError::Runtime(String::from_str(
                        "float arithmetic is not available",
                    ))),
                    _ => Err(VmError::TypeMismatch {
                        expected: "int",
                        got: a.kind_name(),
                    }),
                }
            },
            Op::Not => {
                let a = self.pop_value()?;
                match &a {
                    Value::Bool(x) => {
                        self.push_value(Value::Bool(!*x))?;
                        self.frames.push(fr);
                        Ok(())
                    },
                    _ => Err(VmError::TypeMismatch {
                        expected: "bool",
                        got: a.kind_name(),
                    }),
                }
            },
            Op::Jump(off) => {
                fr.ip = self.jump_target(ip, off, fr.closure.chunk.instructions.len())?;
                self.frames.push(fr);
                Ok(())
            },
            Op::JumpIf(off, want) => {
                if self.stack.len() == 0 {
                    return Err(VmError::InvalidOpcode);
                }
                let truthy = self.stack[self.stack.len() - 1].is_truthy();
                if truthy == want {
                    fr.ip = self.jump_target(
                        ip,
                        off,
                        fr.closure.chunk.instructions.len(),
                    )?;
                }
                self.frames.push(fr);
                Ok(())
            },
            Op::Call(n) => {
                let args = self.pop_many(n)?;
                let callee = self.pop_value()?;
                let span = fr.closure.chunk.span_at(ip);
                self.frames.push(fr);
                match self.begin_call(callee, args) {
                    Ok(Some(result)) => {
                        self.push_value(result)?;
                        Ok(())
                    },
                    Ok(None) => Ok(()),
                    Err(e) => {
                        self.fault_span = span;
                        Err(e)
                    },
                }
            },
            Op::TestVariant(ctor) => {
                if self.stack.len() == 0 {
                    return Err(VmError::InvalidOpcode);
                }
                let is_it = match &self.stack[self.stack.len() - 1] {
                    Value::Variant { tag: _, ctor: c, fields: _ } =>
                        crate::value::str_eq(c.as_str(), ctor.as_str()),
                    _ => false,
                };
                self.push_value(Value::Bool(is_it))?;
                self.frames.push(fr);
                Ok(())
            },
            Op::GetVariantField(i) => {
                let v = self.pop_value()?;
                match &v {
                    Value::Variant { tag: _, ctor: _, fields } => {
                        if i >= fields.len() {
                            return Err(VmError::InvalidOpcode);
                        }
                        let f = fields[i].duplicate();
                        self.push_value(f)?;
                        self.frames.push(fr);
                        Ok(())
                    },
                    _ => Err(VmError::TypeMismatch {
                        expected: "variant",
                        got: v.kind_name(),
                    }),
                }
            },
            Op::MatchFail => {
                self.fault_span = fr.closure.chunk.span_at(ip);
                Err(VmError::Runtime(String::from_str(
                    "no pattern matched the value",
                )))
            },
            Op::Return => {
                let result = self.pop_value()?;
                self.close_upvalues(fr.stack_base);
                self.stack.truncate(fr.stack_base);
                self.push_value(result)?;
                Ok(())
            },
        }
    }

    /// The instruction index a relative jump lands on.
    fn jump_target(&self, ip: usize, off: i32, len: usize) -> (r: Result<usize, VmError>)
        requires
            ip < len,
        ensures
            r matches Ok(t) ==> t == ip + 1 + off && t <= len,
    {
        let next = ip + 1;
        if off >= 0 {
            let t = next.checked_add(off as usize);
            match t {
                Some(t) if t <= len => Ok(t),
                _ => Err(VmError::InvalidOpcode),
            }
        } else {
            let back = (-(off as i64)) as usize;
            proof {
                assert(back == -(off as int));
            }
            if back > next {
                Err(VmError::InvalidOpcode)
            } else {
                Ok(next - back)
            }
        }
    }

    /// Pop `n` values, returning them in the order they were pushed.
    fn pop_many(&mut self, n: usize) -> (r: Result<Vec<Value>, VmError>)
        ensures
            match r {
                Ok(vs) => vs@.len() == n && old(self).stack@.len() >= n
                    && final(self).stack@ == old(self).stack@.take(
                        old(self).stack@.len() - n,
                    )
                    && vs@ =~= old(self).stack@.skip(old(self).stack@.len() - n),
                Err(_) => final(self).stack == old(self).stack,
            },
            final(self).frames == old(self).frames,
            final(self).fuel == old(self).fuel,
            final(self).upvalues == old(self).upvalues,
    {
        if self.stack.len() < n {
            return Err(VmError::InvalidOpcode);
        }
        let ghost pre = self.stack@;
        let mut out: Vec<Value> = Vec::new();
        let mut k: usize = 0;
        while k < n
            invariant
                k <= n,
                n <= pre.len(),
                self.stack@ == pre.take(pre.len() - k),
                out@ =~= pre.skip(pre.len() - k),
                self.frames == old(self).frames,
                self.fuel == old(self).fuel,
                self.upvalues == old(self).upvalues,
                self.max_stack == old(self).max_stack,
                self.max_frames == old(self).max_frames,
                self.host == old(self).host,
                self.tasks == old(self).tasks,
                self.queue == old(self).queue,
                self.next_task == old(self).next_task,
                self.fault_span == old(self).fault_span,
            decreases n - k,
        {
            let v = match self.stack.pop() {
                Some(v) => v,
                None => {
                    return Err(VmError::InvalidOpcode);
                },
            };
            out.insert(0, v);
            proof {
                assert(self.stack@ =~= pre.take(pre.len() - (k + 1)));
                assert(out@ =~= pre.skip(pre.len() - (k + 1)));
            }
            k = k + 1;
        }
        Ok(out)
    }

    /// Dispatch a call on `callee`. A closure call pushes its frame and
    /// reports `None`: the dispatch loop runs it. A host call or a
    /// partial application finishes at once and reports its value.
    fn begin_call(&mut self, callee: Value, args: Vec<Value>) -> (r: Result<
        Option<Value>,
        VmError,
    >)
        ensures
            final(self).fuel <= old(self).fuel,
            !(callee matches Value::Closure(_)) && !(callee matches Value::NativeFn {
                ..
            }) ==> r == Err::<Option<Value>, VmError>(VmError::NotCallable),
            (callee matches Value::Closure(c) && args@.len() == c.arity
                && old(self).frames@.len() >= old(self).max_frames) ==> r
                == Err::<Option<Value>, VmError>(VmError::StackOverflow)
                && *final(self) == *old(self),
            (callee matches Value::Closure(c) && args@.len() != c.arity) ==> r
                == Err::<Option<Value>, VmError>(VmError::ArityMismatch)
                && *final(self) == *old(self),
            (callee matches Value::Closure(c) && c.arity == 0 && args@.len() == 0
                && old(self).frames@.len() < old(self).max_frames)
                ==> (r matches Ok(st) && st is None)
                && final(self).frames@.len() == old(self).frames@.len() + 1
                && final(self).frames@.take(old(self).frames@.len() as int)
                    == old(self).frames@
                && final(self).frames@.last().ip == 0
                && final(self).frames@.last().stack_base == old(self).stack@.len()
                && *final(self).frames@.last().closure == *(callee->Closure_0)
                && final(self).stack@ == old(self).stack@
                && final(self).fuel == old(self).fuel
                && final(self).upvalues == old(self).upvalues
                && final(self).max_stack == old(self).max_stack
                && final(self).max_frames == old(self).max_frames,
        decreases self.fuel, 1int,
    {
        match callee {
            Value::Closure(rc) => {
                if args.len() != rc.arity {
                    return Err(VmError::ArityMismatch);
                }
                if self.frames.len() >= self.max_frames {
                    return Err(VmError::StackOverflow);
                }
                let frame = Frame {
                    closure: rc,
                    ip: 0,
                    stack_base: self.stack.len(),
                };
                let mut rest = args;
                while rest.len() > 0
                    invariant
                        self.fuel == old(self).fuel,
                        self.frames@ == old(self).frames@,
                        self.upvalues == old(self).upvalues,
                        self.max_stack == old(self).max_stack,
                        self.max_frames == old(self).max_frames,
                        callee matches Value::Closure(c) && args@.len() == c.arity,
                        old(self).frames@.len() < old(self).max_frames,
                        rest@.len() <= args@.len(),
                        args@.len() == 0 ==> self.stack@ == old(self).stack@,
                    decreases rest@.len(),
                {
                    let v = rest.remove(0);
                    self.push_value(v)?;
                }
                self.frames.push(frame);
                proof {
                    assert(self.frames@.take(old(self).frames@.len() as int)
                        =~= old(self).frames@);
                }
                Ok(None)
            },
            Value::NativeFn { name, arity, args: partial } => {
                let mut combined = partial;
                let mut rest = args;
                while rest.len() > 0
                    decreases rest@.len(),
                {
                    let v = rest.remove(0);
                    combined.push(v);
                }
                proof {
                    assert(self.fuel == old(self).fuel);
                }
                if combined.len() < arity {
                    Ok(Some(Value::NativeFn { name, arity, args: combined }))
                } else {
                    match self.host.lookup(name.as_str()) {
                        Some(f) => {
                            if self.fuel == 0 {
                                return Err(VmError::FuelExhausted);
                            }
                            self.fuel = self.fuel - 1;
                            let result = dispatch_host(f, self, combined.as_slice())?;
                            Ok(Some(result))
                        },
                        None => Err(VmError::UndefinedHost(name)),
                    }
                }
            },
            _ => Err(VmError::NotCallable),
        }
    }

    /// Execute a sealed chunk from its first instruction and hand back
    /// the value its `Return` leaves. On a fault, every frame this call
    /// pushed is gone and the stack is back at its entry height.
    ///
    /// Compiling a literal produces a chunk that loads one constant and
    /// returns it; executing such a chunk yields exactly that constant,
    /// whenever the machine has the budget and room for it.
    pub fn execute(&mut self, chunk: Chunk) -> (r: Result<Value, VmError>)
        ensures
            r is Err ==> final(self).frames@.len() <= old(self).frames@.len()
                && final(self).stack@.len() <= old(self).stack@.len(),
            old(self).frames@.len() >= old(self).max_frames ==> r == Err::<
                Value,
                VmError,
            >(VmError::StackOverflow) && *final(self) == *old(self),
            (lit_chunk_value(crate::chunk::cmodel(chunk)) is Some
                && old(self).fuel >= 2
                && old(self).stack@.len() < old(self).max_stack
                && old(self).frames@.len() < old(self).max_frames
                && (forall|j: int| 0 <= j < old(self).upvalues@.len()
                    ==> !(#[trigger] old(self).upvalues@[j] matches Upvalue::Open(_))))
                ==> (r matches Ok(v) && vmodel(v) == lit_chunk_value(
                    crate::chunk::cmodel(chunk),
                ).unwrap()),
    {
        let ghost lit = lit_chunk_value(crate::chunk::cmodel(chunk)) is Some
            && self.fuel >= 2 && self.stack@.len() < self.max_stack
            && self.frames@.len() < self.max_frames
            && (forall|j: int| 0 <= j < self.upvalues@.len()
                ==> !(#[trigger] self.upvalues@[j] matches Upvalue::Open(_)));
        let base = self.frames.len();
        let stack_base = self.stack.len();
        if self.frames.len() >= self.max_frames {
            return Err(VmError::StackOverflow);
        }
        let closure = Closure {
            chunk: Rc::new(chunk),
            arity: 0,
            upvalues: Vec::new(),
        };
        self.frames.push(Frame {
            closure: Rc::new(closure),
            ip: 0,
            stack_base,
        });
        proof {
            if lit {
                assert(self.frames@.last().ip == 0);
                assert(lit_ready(*self, base as int));
            }
        }
        let ghost at_loop = *self;
        match self.run_loop(base) {
            Ok(()) => {},
            Err(e) => {
                self.frames.truncate(base);
                self.stack.truncate(stack_base);
                return Err(e);
            },
        }
        proof {
            if lit {
                assert(self.stack@.len() == stack_base + 1);
                assert(vmodel(self.stack@.last()) == lit_result(at_loop));
            }
        }
        match self.stack.pop() {
            Some(v) => {
                self.stack.truncate(stack_base);
                Ok(v)
            },
            None => {
                self.frames.truncate(base);
                self.stack.truncate(stack_base);
                Err(VmError::InvalidOpcode)
            },
        }
    }

    /// Call any callable value with the given arguments and run it to
    /// completion; host functions use this to re-enter the machine.
    pub fn call_value(&mut self, callee: Value, args: &[Value]) -> (r: Result<
        Value,
        VmError,
    >)
        ensures
            final(self).fuel <= old(self).fuel,
            r is Err ==> final(self).frames@.len() <= old(self).frames@.len()
                && final(self).stack@.len() <= old(self).stack@.len(),
            old(self).fuel == 0 ==> r == Err::<Value, VmError>(VmError::FuelExhausted)
                && *final(self) == *old(self),
            old(self).fuel >= 1 && !(callee matches Value::Closure(_))
                && !(callee matches Value::NativeFn { .. })
                ==> r == Err::<Value, VmError>(VmError::NotCallable),
            old(self).fuel >= 1 && (callee matches Value::Closure(c)
                && args@.len() != c.arity)
                ==> r == Err::<Value, VmError>(VmError::ArityMismatch),
            old(self).fuel >= 1 && (callee matches Value::Closure(c)
                && args@.len() == c.arity)
                && old(self).frames@.len() >= old(self).max_frames
                ==> r == Err::<Value, VmError>(VmError::StackOverflow),
            (callee matches Value::Closure(c) && c.arity == 0 && args@.len() == 0
                && lit_chunk_value(crate::chunk::cmodel(*c.chunk)) is Some
                && old(self).fuel >= 3
                && old(self).stack@.len() < old(self).max_stack
                && old(self).frames@.len() < old(self).max_frames
                && (forall|j: int| 0 <= j < old(self).upvalues@.len()
                    ==> !(#[trigger] old(self).upvalues@[j] matches Upvalue::Open(
                        _,
                    ))))
                ==> (r matches Ok(v) && vmodel(v) == lit_chunk_value(
                    crate::chunk::cmodel(*(callee->Closure_0).chunk),
                ).unwrap()),
        decreases self.fuel, 0int,
    {
        if self.fuel == 0 {
            return Err(VmError::FuelExhausted);
        }
        self.fuel = self.fuel - 1;
        let base = self.frames.len();
        let stack_base = self.stack.len();
        let mut owned: Vec<Value> = Vec::new();
        let mut k: usize = 0;
        while k < args.len()
            invariant
                k <= args@.len(),
                owned@.len() == k,
                self.fuel < old(self).fuel,
                self.fuel >= old(self).fuel - 1,
                self.frames@ == old(self).frames@,
                self.stack@ == old(self).stack@,
                self.upvalues == old(self).upvalues,
                self.max_frames == old(self).max_frames,
                self.max_stack == old(self).max_stack,
            decreases args@.len() - k,
        {
            owned.push(args[k].duplicate());
            k = k + 1;
        }
        let ghost gcallee = callee;
        let outcome = match self.begin_call(callee, owned) {
            Ok(Some(v)) => Ok(v),
            Ok(None) => {
                proof {
                    assert((gcallee matches Value::Closure(_)
                        && (gcallee->Closure_0).arity == 0
                        && args@.len() == 0
                        && lit_chunk_value(crate::chunk::cmodel(
                            *(gcallee->Closure_0).chunk,
                        )) is Some
                        && old(self).fuel >= 3
                        && old(self).stack@.len() < old(self).max_stack
                        && old(self).frames@.len() < old(self).max_frames
                        && (forall|j: int| 0 <= j < old(self).upvalues@.len()
                            ==> !(#[trigger] old(self).upvalues@[j]
                                matches Upvalue::Open(_))))
                        ==> lit_ready(*self, base as int));
                }
                match self.run_loop(base) {
                    Ok(()) => match self.stack.pop() {
                        Some(v) => Ok(v),
                        None => Err(VmError::InvalidOpcode),
                    },
                    Err(e) => Err(e),
                }
            },
            Err(e) => Err(e),
        };
        match outcome {
            Ok(v) => Ok(v),
            Err(e) => {
                self.frames.truncate(base);
                self.stack.truncate(stack_base);
                Err(e)
            },
        }
    }

    /// Call a closure value; anything else is a runtime fault. Used by
    /// hosts that require a closure argument.
    pub fn call_closure(&mut self, callee: Value, args: &[Value]) -> (r: Result<
        Value,
        VmError,
    >)
        ensures
            final(self).fuel <= old(self).fuel,
            r is Err ==> final(self).frames@.len() <= old(self).frames@.len()
                && final(self).stack@.len() <= old(self).stack@.len(),
            !(callee matches Value::Closure(_)) ==> *final(self) == *old(self)
                && (r matches Err(e) && (e matches VmError::Runtime(m)
                    && m@ == "expected a function value"@)),
            (callee matches Value::Closure(_)) && old(self).fuel == 0
                ==> r == Err::<Value, VmError>(VmError::FuelExhausted),
            (callee matches Value::Closure(c) && args@.len() != c.arity)
                && old(self).fuel >= 1
                ==> r == Err::<Value, VmError>(VmError::ArityMismatch),
            (callee matches Value::Closure(c) && args@.len() == c.arity)
                && old(self).fuel >= 1
                && old(self).frames@.len() >= old(self).max_frames
                ==> r == Err::<Value, VmError>(VmError::StackOverflow),
            (callee matches Value::Closure(c) && c.arity == 0 && args@.len() == 0
                && lit_chunk_value(crate::chunk::cmodel(*c.chunk)) is Some
                && old(self).fuel >= 3
                && old(self).stack@.len() < old(self).max_stack
                && old(self).frames@.len() < old(self).max_frames
                && (forall|j: int| 0 <= j < old(self).upvalues@.len()
                    ==> !(#[trigger] old(self).upvalues@[j] matches Upvalue::Open(
                        _,
                    ))))
                ==> (r matches Ok(v) && vmodel(v) == lit_chunk_value(
                    crate::chunk::cmodel(*(callee->Closure_0).chunk),
                ).unwrap()),
        decreases self.fuel, 1int,
    {
        proof {
            reveal_strlit("expected a function value");
        }
        match &callee {
            Value::Closure(_) => self.call_value(callee, args),
            _ => Err(VmError::Runtime(String::from_str(
                "expected a function value",
            ))),
        }
    }
}


impl VmError {
    /// The diagnostic text of this fault.
    pub fn message(&self) -> (r: String)
        ensures
            r@.len() > 0,
            self matches VmError::Runtime(m) ==> r@ == "Runtime error: "@ + m@,
            self matches VmError::TypeMismatch { expected, got }
                ==> r@ == "Type mismatch: expected "@ + expected@ + ", got "@
                    + got@,
            self matches VmError::UndefinedHost(n)
                ==> r@ == "Undefined host function: "@ + n@,
            *self == VmError::ArityMismatch ==> r@ == "Wrong number of arguments"@,
            *self == VmError::DivisionByZero ==> r@ == "Division by zero"@,
            *self == VmError::StackOverflow ==> r@ == "Stack overflow"@,
            *self == VmError::InvalidOpcode ==> r@ == "Invalid opcode"@,
            *self == VmError::FuelExhausted ==> r@ == "Fuel exhausted"@,
            *self == VmError::NotCallable ==> r@ == "Value is not callable"@,
    {
        proof {
            reveal_strlit("Type mismatch: expected ");
            reveal_strlit("Wrong number of arguments");
            reveal_strlit("Division by zero");
            reveal_strlit("Undefined host function: ");
            reveal_strlit("Stack overflow");
            reveal_strlit("Invalid opcode");
            reveal_strlit("Fuel exhausted");
            reveal_strlit("Value is not callable");
        }
        match self {
            VmError::TypeMismatch { expected, got } => {
                let mut s = String::new();
                s.append("Type mismatch: expected ");
                s.append(expected);
                s.append(", got ");
                s.append(got);
                proof {
                    assert(s@.len() >= "Type mismatch: expected "@.len());
                    assert(Seq::<char>::empty() + "Type mismatch: expected "@
                        + expected@ + ", got "@ + got@
                        =~= "Type mismatch: expected "@ + expected@ + ", got "@
                        + got@);
                }
                s
            },
            VmError::ArityMismatch => String::from_str("Wrong number of arguments"),
            VmError::DivisionByZero => String::from_str("Division by zero"),
            VmError::UndefinedHost(n) => {
                let mut s = String::new();
                s.append("Undefined host function: ");
                s.append(n.as_str());
                proof {
                    assert(s@.len() >= "Undefined host function: "@.len());
                    assert(Seq::<char>::empty() + "Undefined host function: "@ + n@
                        =~= "Undefined host function: "@ + n@);
                }
                s
            },
            VmError::StackOverflow => String::from_str("Stack overflow"),
            VmError::InvalidOpcode => String::from_str("Invalid opcode"),
            VmError::FuelExhausted => String::from_str("Fuel exhausted"),
            VmError::NotCallable => String::from_str("Value is not callable"),
            VmError::Runtime(m) => {
                let mut s = String::new();
                s.append("Runtime error: ");
                s.append(m.as_str());
                proof {
                    reveal_strlit("Runtime error: ");
                    assert(s@.len() >= "Runtime error: "@.len());
                    assert(Seq::<char>::empty() + "Runtime error: "@ + m@
                        =~= "Runtime error: "@ + m@);
                }
                s
            },
        }
    }
}

} // verus!
