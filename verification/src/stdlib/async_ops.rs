use vstd::prelude::*;
use vstd::string::StringExecFns;

use crate::asyncrt::{AsyncState, AsyncStateM, SpawnRequest, SpawnSpec, smodel, table_lookup};
use crate::value::{AsyncValue, TaskId, Value, ValueM, vmodel};
use crate::vm::{Vm, VmError};

verus! {

broadcast use vstd::std_specs::vec::group_vec_axioms;

/// The model of an async computation-expression node with the given
/// constructor and fields.
pub open spec fn ce_node(ctor: Seq<char>, fields: Seq<ValueM>) -> ValueM {
    ValueM::Variant { tag: "Async"@, ctor, fields }
}

/// Build a computation-expression node from owned fields.
fn make_ce(ctor_lit: &str, fields: Vec<Value>) -> (r: Value)
    requires
        ctor_lit@ == "Pure"@ || ctor_lit@ == "Bind"@ || ctor_lit@ == "Delay"@
            || ctor_lit@ == "Combine"@,
    ensures
        vmodel(r) == ce_node(ctor_lit@, crate::value::models_of(fields@)),
{
    Value::Variant {
        tag: String::from_str("Async"),
        ctor: String::from_str(ctor_lit),
        fields,
    }
}

/// `Async.Return v`: the computation that immediately yields `v`.
pub fn async_return(_vm: &mut Vm, args: &[Value]) -> (r: Result<Value, VmError>)
    ensures
        *final(_vm) == *old(_vm),
        match r {
            Ok(v) => args@.len() == 1
                && vmodel(v) == ce_node("Pure"@, seq![vmodel(args@[0])]),
            Err(_) => args@.len() != 1,
        },
{
    if args.len() != 1 {
        return Err(VmError::Runtime(String::from_str(
            "Async.Return expects 1 argument",
        )));
    }
    let mut fields: Vec<Value> = Vec::new();
    fields.push(args[0].duplicate());
    proof {
        crate::value::lemma_models_of(fields@);
        assert(crate::value::models_of(fields@) =~= seq![vmodel(args@[0])]);
    }
    Ok(make_ce("Pure", fields))
}

/// `Async.Bind c k`: run `c`, then feed its result to `k`.
pub fn async_bind(_vm: &mut Vm, args: &[Value]) -> (r: Result<Value, VmError>)
    ensures
        *final(_vm) == *old(_vm),
        match r {
            Ok(v) => args@.len() == 2 && vmodel(v) == ce_node(
                "Bind"@,
                seq![vmodel(args@[0]), vmodel(args@[1])],
            ),
            Err(_) => args@.len() != 2,
        },
{
    if args.len() != 2 {
        return Err(VmError::Runtime(String::from_str(
            "Async.Bind expects 2 arguments",
        )));
    }
    let d0 = args[0].duplicate();
    let d1 = args[1].duplicate();
    let ghost m0 = vmodel(d0);
    let ghost m1 = vmodel(d1);
    let mut fields: Vec<Value> = Vec::new();
    fields.push(d0);
    fields.push(d1);
    proof {
        assert(fields@ =~= seq![fields@[0], fields@[1]]);
        crate::value::lemma_models_of(fields@);
        assert(crate::value::models_of(fields@)
            =~= seq![vmodel(args@[0]), vmodel(args@[1])]);
    }
    Ok(make_ce("Bind", fields))
}

/// `Async.Delay g`: run `g ()` when the computation is started.
pub fn async_delay(_vm: &mut Vm, args: &[Value]) -> (r: Result<Value, VmError>)
    ensures
        *final(_vm) == *old(_vm),
        match r {
            Ok(v) => args@.len() == 1
                && vmodel(v) == ce_node("Delay"@, seq![vmodel(args@[0])]),
            Err(_) => args@.len() != 1,
        },
{
    if args.len() != 1 {
        return Err(VmError::Runtime(String::from_str(
            "Async.Delay expects 1 argument",
        )));
    }
    let mut fields: Vec<Value> = Vec::new();
    fields.push(args[0].duplicate());
    proof {
        crate::value::lemma_models_of(fields@);
        assert(crate::value::models_of(fields@) =~= seq![vmodel(args@[0])]);
    }
    Ok(make_ce("Delay", fields))
}

/// `Async.ReturnFrom c`: the computation itself.
pub fn async_return_from(_vm: &mut Vm, args: &[Value]) -> (r: Result<Value, VmError>)
    ensures
        *final(_vm) == *old(_vm),
        match r {
            Ok(v) => args@.len() == 1 && vmodel(v) == vmodel(args@[0]),
            Err(_) => args@.len() != 1,
        },
{
    if args.len() != 1 {
        return Err(VmError::Runtime(String::from_str(
            "Async.ReturnFrom expects 1 argument",
        )));
    }
    Ok(args[0].duplicate())
}

/// `Async.Zero`: the computation that yields unit.
pub fn async_zero(_vm: &mut Vm, args: &[Value]) -> (r: Result<Value, VmError>)
    ensures
        *final(_vm) == *old(_vm),
        r matches Ok(v) && vmodel(v) == ce_node("Pure"@, seq![ValueM::Unit]),
{
    let mut fields: Vec<Value> = Vec::new();
    fields.push(Value::Unit);
    proof {
        crate::value::lemma_models_of(fields@);
        assert(crate::value::models_of(fields@) =~= seq![ValueM::Unit]);
    }
    Ok(make_ce("Pure", fields))
}

/// `Async.Combine a b`: run `a` for its effects, then `b`.
pub fn async_combine(_vm: &mut Vm, args: &[Value]) -> (r: Result<Value, VmError>)
    ensures
        *final(_vm) == *old(_vm),
        match r {
            Ok(v) => args@.len() == 2 && vmodel(v) == ce_node(
                "Combine"@,
                seq![vmodel(args@[0]), vmodel(args@[1])],
            ),
            Err(_) => args@.len() != 2,
        },
{
    if args.len() != 2 {
        return Err(VmError::Runtime(String::from_str(
            "Async.Combine expects 2 arguments",
        )));
    }
    let d0 = args[0].duplicate();
    let d1 = args[1].duplicate();
    let ghost m0 = vmodel(d0);
    let ghost m1 = vmodel(d1);
    let mut fields: Vec<Value> = Vec::new();
    fields.push(d0);
    fields.push(d1);
    proof {
        assert(fields@ =~= seq![fields@[0], fields@[1]]);
        crate::value::lemma_models_of(fields@);
        assert(crate::value::models_of(fields@)
            =~= seq![vmodel(args@[0]), vmodel(args@[1])]);
    }
    Ok(make_ce("Combine", fields))
}

/// The helper `Combine` binds with: it discards the bound value and
/// carries on with its own first argument.
pub fn async_combine_helper(_vm: &mut Vm, args: &[Value]) -> (r: Result<Value, VmError>)
    ensures
        *final(_vm) == *old(_vm),
        match r {
            Ok(v) => args@.len() == 2 && vmodel(v) == vmodel(args@[0]),
            Err(_) => args@.len() != 2,
        },
{
    if args.len() != 2 {
        return Err(VmError::Runtime(String::from_str(
            "CombineHelper expects 2 arguments",
        )));
    }
    Ok(args[0].duplicate())
}

/// The constructors the trampoline interprets.
pub open spec fn ce_known_ctor(ctor: Seq<char>) -> bool {
    ctor == "Pure"@ || ctor == "Bind"@ || ctor == "Combine"@ || ctor == "Delay"@
}

/// The field count each constructor carries.
pub open spec fn ce_arity_ok(ctor: Seq<char>, n: nat) -> bool {
    &&& (ctor == "Pure"@ ==> n == 1)
    &&& (ctor == "Bind"@ ==> n == 2)
    &&& (ctor == "Combine"@ ==> n == 2)
    &&& (ctor == "Delay"@ ==> n == 1)
}

/// A value the trampoline faults on at first sight: not a variant, an
/// unknown constructor, or a wrong field count.
pub open spec fn ce_faulty(m: ValueM) -> bool {
    match m {
        ValueM::Variant { tag: _, ctor, fields } => !ce_known_ctor(ctor)
            || !ce_arity_ok(ctor, fields.len()),
        _ => true,
    }
}

/// A computation-expression value that is a bare `Pure` leaf.
pub open spec fn is_pure_leaf(m: ValueM) -> bool {
    m matches ValueM::Variant { tag: _, ctor, fields } && ctor == "Pure"@
        && fields.len() == 1
}

/// Interpret a computation-expression tree on the machine's own
/// thread, keeping an explicit continuation stack. A bare `Pure v` is
/// answered with exactly `v`; only an exhausted budget can stop it.
pub fn async_run_synchronously(vm: &mut Vm, args: &[Value]) -> (r: Result<Value, VmError>)
    ensures
        args@.len() == 1 && is_pure_leaf(vmodel(args@[0])) ==> match r {
            Ok(v) => vmodel(args@[0])->Variant_fields == seq![vmodel(v)],
            Err(e) => e == VmError::FuelExhausted,
        },
        args@.len() == 1 && is_pure_leaf(vmodel(args@[0])) && old(vm).fuel >= 1
            ==> r is Ok,
        args@.len() != 1 ==> (r matches Err(e) && (e matches VmError::Runtime(m)
            && m@ == "Async.RunSynchronously expects 1 argument"@)),
        args@.len() == 1 && old(vm).fuel >= 1
            && !(vmodel(args@[0]) matches ValueM::Variant { .. })
            ==> (r matches Err(e) && (e matches VmError::TypeMismatch {
                expected,
                got: _,
            } && expected@ == "Async variant"@)),
        args@.len() == 1 && old(vm).fuel >= 1
            && (vmodel(args@[0]) matches ValueM::Variant { tag: _, ctor, fields }
                && !ce_known_ctor(ctor))
            ==> (r matches Err(e) && (e matches VmError::Runtime(m)
                && m@ == "Unknown Async variant"@)),
        args@.len() == 1 && old(vm).fuel >= 1
            && (vmodel(args@[0]) matches ValueM::Variant { tag: _, ctor, fields }
                && ce_known_ctor(ctor) && !ce_arity_ok(ctor, fields.len()))
            ==> (r matches Err(e) && (e matches VmError::Runtime(m)
                && m@ == "malformed Async value"@)),
        final(vm).fuel <= old(vm).fuel,
    decreases vm.fuel, 1int,
{
    if args.len() != 1 {
        return Err(VmError::Runtime(String::from_str(
            "Async.RunSynchronously expects 1 argument",
        )));
    }
    let mut current = args[0].duplicate();
    let mut continuations: Vec<Value> = Vec::new();
    let ghost orig = vmodel(args@[0]);
    loop
        invariant
            args@.len() == 1,
            orig == vmodel(args@[0]),
            vm.fuel <= old(vm).fuel,
            is_pure_leaf(orig) ==> vmodel(current) == orig
                && continuations@.len() == 0,
            is_pure_leaf(orig) && old(vm).fuel >= 1 ==> vm.fuel >= 1,
            ce_faulty(orig) ==> vmodel(current) == orig
                && vm.fuel == old(vm).fuel,
        decreases vm.fuel,
    {
        if vm.fuel == 0 {
            return Err(VmError::FuelExhausted);
        }
        vm.fuel = vm.fuel - 1;
        let step = step_ce(vm, current, &mut continuations)?;
        match step {
            CeStep::Done(v) => {
                return Ok(v);
            },
            CeStep::Next(c) => {
                current = c;
            },
        }
    }
}

/// One trampoline step's outcome.
enum CeStep {
    Done(Value),
    Next(Value),
}

/// One step of the computation-expression trampoline. A `Pure` leaf
/// with no pending continuation finishes with exactly its value.
fn step_ce(vm: &mut Vm, current: Value, continuations: &mut Vec<Value>) -> (r: Result<
    CeStep,
    VmError,
>)
    ensures
        is_pure_leaf(vmodel(current)) && old(continuations)@.len() == 0 ==> match r {
            Ok(step) => step matches CeStep::Done(v)
                && vmodel(current)->Variant_fields == seq![vmodel(v)],
            Err(_) => false,
        },
        final(vm).fuel <= old(vm).fuel,
        !(vmodel(current) matches ValueM::Variant { .. }) ==> *final(vm) == *old(vm)
            && final(continuations)@ == old(continuations)@
            && (r matches Err(e) && (e matches VmError::TypeMismatch {
                expected,
                got: _,
            } && expected@ == "Async variant"@)),
        (vmodel(current) matches ValueM::Variant { tag: _, ctor, fields }
            && !ce_known_ctor(ctor)) ==> *final(vm) == *old(vm)
            && final(continuations)@ == old(continuations)@
            && (r matches Err(e) && (e matches VmError::Runtime(m)
                && m@ == "Unknown Async variant"@)),
        (vmodel(current) matches ValueM::Variant { tag: _, ctor, fields }
            && ce_known_ctor(ctor) && !ce_arity_ok(ctor, fields.len()))
            ==> *final(vm) == *old(vm)
            && final(continuations)@ == old(continuations)@
            && (r matches Err(e) && (e matches VmError::Runtime(m)
                && m@ == "malformed Async value"@)),
        (vmodel(current) matches ValueM::Variant { tag: _, ctor, fields }
            && ctor == "Bind"@ && fields.len() == 2) ==> *final(vm) == *old(vm)
            && (r matches Ok(st) && (st matches CeStep::Next(c)
                && vmodel(c) == vmodel(current)->Variant_fields[0]))
            && crate::value::models_of(final(continuations)@)
                == crate::value::models_of(old(continuations)@).push(
                vmodel(current)->Variant_fields[1],
            ),
        (vmodel(current) matches ValueM::Variant { tag: _, ctor, fields }
            && ctor == "Combine"@ && fields.len() == 2) ==> *final(vm) == *old(vm)
            && final(continuations)@ == old(continuations)@
            && (r matches Ok(st) && (st matches CeStep::Next(c) && vmodel(c)
                == ce_node(
                "Bind"@,
                seq![
                    vmodel(current)->Variant_fields[0],
                    ValueM::NativeFn {
                        name: "Async.Internal.CombineHelper"@,
                        arity: 2,
                        args: seq![vmodel(current)->Variant_fields[1]],
                    },
                ],
            ))),
        (vmodel(current) matches ValueM::Variant { tag: _, ctor, fields }
            && ctor == "Delay"@ && fields.len() == 1)
            ==> final(continuations)@ == old(continuations)@
            && (r matches Ok(st) ==> st is Next),
        (vmodel(current) matches ValueM::Variant { tag: _, ctor, fields }
            && ctor == "Pure"@ && fields.len() == 1
            && old(continuations)@.len() > 0)
            ==> final(continuations)@ == old(continuations)@.drop_last()
            && (r matches Ok(st) ==> st is Next),
    decreases vm.fuel, 1int,
{
    let ghost cm = vmodel(current);
    proof {
        reveal_strlit("Pure");
        reveal_strlit("Bind");
        reveal_strlit("Combine");
        reveal_strlit("Delay");
        assert("Pure"@ != "Bind"@) by {
            assert("Pure"@[0] == 'P' && "Bind"@[0] == 'B');
        }
        assert("Pure"@ != "Combine"@) by {
            assert("Pure"@[0] == 'P' && "Combine"@[0] == 'C');
        }
        assert("Pure"@ != "Delay"@) by {
            assert("Pure"@[0] == 'P' && "Delay"@[0] == 'D');
        }
        assert("Bind"@ != "Combine"@) by {
            assert("Bind"@[0] == 'B' && "Combine"@[0] == 'C');
        }
        assert("Bind"@ != "Delay"@) by {
            assert("Bind"@[0] == 'B' && "Delay"@[0] == 'D');
        }
        assert("Combine"@ != "Delay"@) by {
            assert("Combine"@[0] == 'C' && "Delay"@[0] == 'D');
        }
    }
    match current {
        Value::Variant { tag: _, ctor, fields } => {
            proof {
                crate::value::lemma_models_of(fields@);
            }
            if crate::value::str_eq(ctor.as_str(), "Pure") {
                if fields.len() != 1 {
                    return Err(VmError::Runtime(String::from_str(
                        "malformed Async value",
                    )));
                }
                let mut fields = fields;
                let result = fields.pop().unwrap();
                proof {
                    assert(cm->Variant_fields =~= seq![vmodel(result)]);
                }
                match continuations.pop() {
                    Some(k) => {
                        let one = [result];
                        let next = vm.call_value(k, one.as_slice())?;
                        Ok(CeStep::Next(next))
                    },
                    None => Ok(CeStep::Done(result)),
                }
            } else if crate::value::str_eq(ctor.as_str(), "Bind") {
                if fields.len() != 2 {
                    return Err(VmError::Runtime(String::from_str(
                        "malformed Async value",
                    )));
                }
                let mut fields = fields;
                let ghost fm = crate::value::models_of(fields@);
                let binder = fields.pop().unwrap();
                let computation = fields.pop().unwrap();
                proof {
                    assert(vmodel(binder) == fm[1]);
                    assert(vmodel(computation) == fm[0]);
                    crate::value::lemma_models_of_push(continuations@, binder);
                }
                continuations.push(binder);
                Ok(CeStep::Next(computation))
            } else if crate::value::str_eq(ctor.as_str(), "Combine") {
                if fields.len() != 2 {
                    return Err(VmError::Runtime(String::from_str(
                        "malformed Async value",
                    )));
                }
                let mut fields = fields;
                let ghost fm = crate::value::models_of(fields@);
                let second = fields.pop().unwrap();
                let first = fields.pop().unwrap();
                proof {
                    assert(vmodel(second) == fm[1]);
                    assert(vmodel(first) == fm[0]);
                }
                let mut helper_args: Vec<Value> = Vec::new();
                helper_args.push(second);
                proof {
                    crate::value::lemma_models_of(helper_args@);
                    assert(crate::value::models_of(helper_args@) =~= seq![fm[1]]);
                }
                let helper = Value::NativeFn {
                    name: String::from_str("Async.Internal.CombineHelper"),
                    arity: 2,
                    args: helper_args,
                };
                let ghost gh = vmodel(helper);
                let mut bind_fields: Vec<Value> = Vec::new();
                proof {
                    crate::value::lemma_models_of_push(bind_fields@, first);
                    assert(crate::value::models_of(Seq::<Value>::empty())
                        =~= Seq::<ValueM>::empty());
                }
                bind_fields.push(first);
                proof {
                    crate::value::lemma_models_of_push(bind_fields@, helper);
                }
                bind_fields.push(helper);
                proof {
                    assert(crate::value::models_of(bind_fields@)
                        =~= seq![fm[0], gh]);
                }
                Ok(CeStep::Next(Value::Variant {
                    tag: String::from_str("Async"),
                    ctor: String::from_str("Bind"),
                    fields: bind_fields,
                }))
            } else if crate::value::str_eq(ctor.as_str(), "Delay") {
                if fields.len() != 1 {
                    return Err(VmError::Runtime(String::from_str(
                        "malformed Async value",
                    )));
                }
                let mut fields = fields;
                let generator = fields.pop().unwrap();
                let one = [Value::Unit];
                let next = vm.call_value(generator, one.as_slice())?;
                Ok(CeStep::Next(next))
            } else {
                Err(VmError::Runtime(String::from_str("Unknown Async variant")))
            }
        },
        other => Err(VmError::TypeMismatch {
            expected: "Async variant",
            got: other.kind_name(),
        }),
    }
}

/// Allocate a fresh task identifier.
fn fresh_task(vm: &mut Vm) -> (r: Result<u64, VmError>)
    ensures
        match r {
            Ok(id) => id == old(vm).next_task && final(vm).next_task == id + 1
                && final(vm).tasks == old(vm).tasks
                && final(vm).queue == old(vm).queue
                && final(vm).fuel == old(vm).fuel,
            Err(_) => *final(vm) == *old(vm) && old(vm).next_task == u64::MAX,
        },
        old(vm).next_task < u64::MAX ==> r is Ok,
{
    if self_overflowing(vm.next_task) {
        return Err(VmError::Runtime(String::from_str(
            "task identifiers exhausted",
        )));
    }
    let id = vm.next_task;
    vm.next_task = vm.next_task + 1;
    Ok(id)
}

/// Whether one more task identifier would overflow.
fn self_overflowing(n: u64) -> (r: bool)
    ensures
        r == (n == u64::MAX),
{
    n == 0xffff_ffff_ffff_ffffu64
}

/// `Async.sleep ms`: schedule a pause on the worker and hand back its
/// task, recorded pending.
pub fn async_sleep(vm: &mut Vm, args: &[Value]) -> (r: Result<Value, VmError>)
    ensures
        final(vm).fuel == old(vm).fuel,
        args@.len() == 1 && (vmodel(args@[0]) matches ValueM::Int(n) && n >= 0)
            && old(vm).next_task < u64::MAX ==> r is Ok,
        match r {
            Ok(v) => vmodel(v) matches ValueM::AsyncTask(id) && table_lookup(
                final(vm).tasks.entries@,
                id,
            ) == Some(AsyncStateM::Pending)
                && final(vm).queue@.len() == old(vm).queue@.len() + 1
                && final(vm).queue@.take(old(vm).queue@.len() as int)
                    == old(vm).queue@
                && final(vm).queue@.last().id.0 == id
                && (final(vm).queue@.last().work matches SpawnSpec::Sleep(m)
                    && (vmodel(args@[0]) matches ValueM::Int(n) && m == n as u64)),
            Err(_) => final(vm).queue@ == old(vm).queue@,
        },
{
    if args.len() != 1 {
        return Err(VmError::Runtime(String::from_str(
            "Async.sleep expects 1 argument",
        )));
    }
    let ms = match args[0].as_int() {
        Some(n) => n,
        None => {
            return Err(VmError::Runtime(String::from_str(
                "Async.sleep expects an int argument",
            )));
        },
    };
    if ms < 0 {
        return Err(VmError::Runtime(String::from_str(
            "Async.sleep expects a non-negative time",
        )));
    }
    let id = fresh_task(vm)?;
    vm.tasks.set(id, AsyncState::Pending);
    vm.queue.push(SpawnRequest { id: TaskId(id), work: SpawnSpec::Sleep(ms as u64) });
    proof {
        assert(vm.queue@.take(old(vm).queue@.len() as int) =~= old(vm).queue@);
    }
    Ok(Value::Async(AsyncValue::Task(TaskId(id))))
}

/// `Async.parallel tasks`: wait for every listed task and collect the
/// results in input order. An empty list is finished at once: its task
/// Every element of a list-shaped argument is a task handle: the shape
/// of argument on which `Async.parallel` is owed success.
pub open spec fn parallel_arg_ok(m: ValueM) -> bool {
    match crate::value::list_model(m) {
        Some(items) => forall|i: int| 0 <= i < items.len()
            ==> (#[trigger] items[i]) matches ValueM::AsyncTask(_),
        None => false,
    }
}

/// is recorded ready with the empty list.
pub fn async_parallel(vm: &mut Vm, args: &[Value]) -> (r: Result<Value, VmError>)
    ensures
        final(vm).fuel == old(vm).fuel,
        args@.len() == 1 && parallel_arg_ok(vmodel(args@[0]))
            && old(vm).next_task < u64::MAX ==> r is Ok,
        match r {
            Ok(v) => vmodel(v) matches ValueM::AsyncTask(id)
                && (crate::value::list_model(vmodel(args@[0])) == Some(
                    Seq::<ValueM>::empty(),
                ) ==> table_lookup(final(vm).tasks.entries@, id) == Some(
                    AsyncStateM::Ready(ValueM::Nil),
                ) && final(vm).queue@ == old(vm).queue@)
                && (crate::value::list_model(vmodel(args@[0])) matches Some(ms)
                    && (ms.len() > 0
                        ==> final(vm).queue@.len() == old(vm).queue@.len() + 1
                        && final(vm).queue@.take(old(vm).queue@.len() as int)
                            == old(vm).queue@
                        && final(vm).queue@.last().id.0 == id
                        && (final(vm).queue@.last().work
                            matches SpawnSpec::Parallel(q)
                            && q@.len() == ms.len()
                            && (forall|j: int| 0 <= j < ms.len()
                                ==> (#[trigger] q@[j]).0 == ms[j]->AsyncTask_0)))),
            Err(_) => final(vm).queue@ == old(vm).queue@,
        },
{
    if args.len() != 1 {
        return Err(VmError::Runtime(String::from_str(
            "Async.parallel expects 1 argument",
        )));
    }
    let items = match Value::cons_to_vec(&args[0]) {
        Some(xs) => xs,
        None => {
            return Err(VmError::Runtime(String::from_str(
                "Async.parallel expects a list argument",
            )));
        },
    };
    proof {
        crate::value::lemma_models_of(items@);
    }
    let mut ids: Vec<TaskId> = Vec::new();
    let mut i: usize = 0;
    while i < items.len()
        invariant
            i <= items@.len(),
            ids@.len() == i,
            crate::value::list_model(vmodel(args@[0]))
                == Some(crate::value::models_of(items@)),
            forall|j: int| 0 <= j < i ==> (#[trigger] ids@[j]).0
                == crate::value::models_of(items@)[j]->AsyncTask_0,
        decreases items@.len() - i,
    {
        match &items[i] {
            Value::Async(AsyncValue::Task(id)) => {
                proof {
                    crate::value::lemma_models_of(items@);
                    assert(crate::value::models_of(items@)[i as int]
                        == vmodel(items@[i as int]));
                }
                ids.push(*id);
            },
            _ => {
                proof {
                    crate::value::lemma_models_of(items@);
                    let ms = crate::value::models_of(items@);
                    assert(ms[i as int] == vmodel(items@[i as int]));
                    assert(!(ms[i as int] matches ValueM::AsyncTask(_)));
                    assert(!parallel_arg_ok(vmodel(args@[0])));
                }
                return Err(VmError::Runtime(String::from_str(
                    "Async.parallel expects a list of Async values",
                )));
            },
        }
        i = i + 1;
    }
    proof {
        crate::value::lemma_models_of(items@);
    }
    let id = fresh_task(vm)?;
    if items.len() == 0 {
        // Nothing to wait for: the result is ready at once.
        vm.tasks.set(id, AsyncState::Ready(Value::Nil));
    } else {
        vm.tasks.set(id, AsyncState::Pending);
        vm.queue.push(SpawnRequest { id: TaskId(id), work: SpawnSpec::Parallel(ids) });
        proof {
            assert(vm.queue@.take(old(vm).queue@.len() as int) =~= old(vm).queue@);
        }
    }
    Ok(Value::Async(AsyncValue::Task(TaskId(id))))
}

/// `Async.withTimeout ms task`: poll the task until it finishes or the
/// deadline passes; on the deadline it is cancelled and the result is
/// `None`.
pub fn async_with_timeout(vm: &mut Vm, args: &[Value]) -> (r: Result<Value, VmError>)
    ensures
        final(vm).fuel == old(vm).fuel,
        args@.len() == 2 && (vmodel(args@[0]) matches ValueM::Int(n) && n >= 0)
            && (vmodel(args@[1]) matches ValueM::AsyncTask(_))
            && old(vm).next_task < u64::MAX ==> r is Ok,
        match r {
            Ok(v) => vmodel(v) matches ValueM::AsyncTask(id) && table_lookup(
                final(vm).tasks.entries@,
                id,
            ) == Some(AsyncStateM::Pending)
                && final(vm).queue@.len() == old(vm).queue@.len() + 1
                && final(vm).queue@.take(old(vm).queue@.len() as int)
                    == old(vm).queue@
                && final(vm).queue@.last().id.0 == id
                && (final(vm).queue@.last().work matches SpawnSpec::Timeout(m, t)
                    && (vmodel(args@[0]) matches ValueM::Int(n) && m == n as u64)
                    && (vmodel(args@[1]) matches ValueM::AsyncTask(x) && t.0 == x)),
            Err(_) => final(vm).queue@ == old(vm).queue@,
        },
{
    if args.len() != 2 {
        return Err(VmError::Runtime(String::from_str(
            "Async.withTimeout expects 2 arguments",
        )));
    }
    let ms = match args[0].as_int() {
        Some(n) => n,
        None => {
            return Err(VmError::Runtime(String::from_str(
                "Async.withTimeout expects an int as its first argument",
            )));
        },
    };
    if ms < 0 {
        return Err(VmError::Runtime(String::from_str(
            "Async.withTimeout expects a non-negative time",
        )));
    }
    let inner = match &args[1] {
        Value::Async(AsyncValue::Task(id)) => *id,
        _ => {
            return Err(VmError::Runtime(String::from_str(
                "Async.withTimeout expects an Async value as its second argument",
            )));
        },
    };
    let id = fresh_task(vm)?;
    vm.tasks.set(id, AsyncState::Pending);
    vm.queue.push(SpawnRequest {
        id: TaskId(id),
        work: SpawnSpec::Timeout(ms as u64, inner),
    });
    proof {
        assert(vm.queue@.take(old(vm).queue@.len() as int) =~= old(vm).queue@);
    }
    Ok(Value::Async(AsyncValue::Task(TaskId(id))))
}

/// `Async.catch task`: wait for the task and reify its outcome as an
/// `Ok` or `Error` result value.
pub fn async_catch(vm: &mut Vm, args: &[Value]) -> (r: Result<Value, VmError>)
    ensures
        final(vm).fuel == old(vm).fuel,
        args@.len() == 1 && (vmodel(args@[0]) matches ValueM::AsyncTask(_))
            && old(vm).next_task < u64::MAX ==> r is Ok,
        match r {
            Ok(v) => vmodel(v) matches ValueM::AsyncTask(id) && table_lookup(
                final(vm).tasks.entries@,
                id,
            ) == Some(AsyncStateM::Pending)
                && final(vm).queue@.len() == old(vm).queue@.len() + 1
                && final(vm).queue@.take(old(vm).queue@.len() as int)
                    == old(vm).queue@
                && final(vm).queue@.last().id.0 == id
                && (final(vm).queue@.last().work matches SpawnSpec::Catch(t)
                    && (vmodel(args@[0]) matches ValueM::AsyncTask(x) && t.0 == x)),
            Err(_) => final(vm).queue@ == old(vm).queue@,
        },
{
    if args.len() != 1 {
        return Err(VmError::Runtime(String::from_str(
            "Async.catch expects 1 argument",
        )));
    }
    let inner = match &args[0] {
        Value::Async(AsyncValue::Task(id)) => *id,
        _ => {
            return Err(VmError::Runtime(String::from_str(
                "Async.catch expects an Async value",
            )));
        },
    };
    let id = fresh_task(vm)?;
    vm.tasks.set(id, AsyncState::Pending);
    vm.queue.push(SpawnRequest { id: TaskId(id), work: SpawnSpec::Catch(inner) });
    proof {
        assert(vm.queue@.take(old(vm).queue@.len() as int) =~= old(vm).queue@);
    }
    Ok(Value::Async(AsyncValue::Task(TaskId(id))))
}

/// `Async.cancel task`: request the task's abort; it is recorded
/// cancelled and the worker is told to stop it.
pub fn async_cancel(vm: &mut Vm, args: &[Value]) -> (r: Result<Value, VmError>)
    ensures
        final(vm).fuel == old(vm).fuel,
        args@.len() == 1 && (vmodel(args@[0]) matches ValueM::AsyncTask(_)) ==> r is Ok,
        match r {
            Ok(v) => vmodel(v) == ValueM::Unit && (vmodel(args@[0]) matches
                ValueM::AsyncTask(id) && table_lookup(final(vm).tasks.entries@, id)
                == Some(AsyncStateM::Cancelled)
                && final(vm).queue@.len() == old(vm).queue@.len() + 1
                && final(vm).queue@.take(old(vm).queue@.len() as int)
                    == old(vm).queue@
                && final(vm).queue@.last().id.0 == id
                && final(vm).queue@.last().work matches SpawnSpec::Cancel),
            Err(_) => final(vm).queue@ == old(vm).queue@,
        },
{
    if args.len() != 1 {
        return Err(VmError::Runtime(String::from_str(
            "Async.cancel expects 1 argument",
        )));
    }
    let inner = match &args[0] {
        Value::Async(AsyncValue::Task(id)) => *id,
        _ => {
            return Err(VmError::Runtime(String::from_str(
                "Async.cancel expects an Async value",
            )));
        },
    };
    vm.tasks.set(inner.0, AsyncState::Cancelled);
    vm.queue.push(SpawnRequest { id: inner, work: SpawnSpec::Cancel });
    proof {
        assert(vm.queue@.take(old(vm).queue@.len() as int) =~= old(vm).queue@);
    }
    Ok(Value::Unit)
}

} // verus!
