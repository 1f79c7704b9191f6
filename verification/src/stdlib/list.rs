use vstd::prelude::*;
use vstd::string::StringExecFns;

use crate::value::{Value, ValueM, vmodel, models_of, list_model};
use crate::vm::{Vm, VmError};

verus! {

broadcast use vstd::std_specs::vec::group_vec_axioms;

/// Apply a function value to every element of a list, front to back,
/// and collect the results in order. The arguments are the list and the
/// function; a non-list or a non-function is a runtime fault.
pub fn list_map(vm: &mut Vm, args: &[Value]) -> (r: Result<Value, VmError>)
    ensures
        args@.len() != 2 ==> *final(vm) == *old(vm) && (r matches Err(e)
            && (e matches VmError::Runtime(m)
                && m@ == "List.map expects 2 arguments"@)),
        args@.len() == 2 && list_model(vmodel(args@[0])) is None
            ==> *final(vm) == *old(vm) && (r matches Err(e)
            && (e matches VmError::Runtime(m) && m@ == "List.map expects a list"@)),
        args@.len() == 2 && list_model(vmodel(args@[0])) is Some
            && !(vmodel(args@[1]) matches ValueM::Closure(_))
            && !(vmodel(args@[1]) matches ValueM::NativeFn { .. })
            ==> *final(vm) == *old(vm) && (r matches Err(e)
            && (e matches VmError::Runtime(m)
                && m@ == "List.map expects a function"@)),
        r matches Ok(v) ==> list_model(vmodel(v)) is Some
            && list_model(vmodel(args@[0])) is Some
            && list_model(vmodel(v)).unwrap().len()
                == list_model(vmodel(args@[0])).unwrap().len(),
        final(vm).fuel <= old(vm).fuel,
    decreases vm.fuel, 1int,
{
    if args.len() != 2 {
        return Err(VmError::Runtime(String::from_str(
            "List.map expects 2 arguments",
        )));
    }
    let items = match Value::cons_to_vec(&args[0]) {
        Some(xs) => xs,
        None => {
            return Err(VmError::Runtime(String::from_str(
                "List.map expects a list",
            )));
        },
    };
    match &args[1] {
        Value::Closure(_) => {},
        Value::NativeFn { .. } => {},
        _ => {
            return Err(VmError::Runtime(String::from_str(
                "List.map expects a function",
            )));
        },
    }
    let mut out: Vec<Value> = Vec::new();
    let mut i: usize = 0;
    while i < items.len()
        invariant
            args@.len() == 2,
            i <= items@.len(),
            out@.len() == i,
            vm.fuel <= old(vm).fuel,
            list_model(vmodel(args@[0])) is Some,
            (vmodel(args@[1]) matches ValueM::Closure(_)) || (vmodel(args@[1])
                matches ValueM::NativeFn { .. }),
        decreases items@.len() - i,
    {
        let one = [items[i].duplicate()];
        let mapped = vm.call_value(args[1].duplicate(), one.as_slice())?;
        out.push(mapped);
        i = i + 1;
    }
    let ghost outv = out@;
    let result = Value::vec_to_cons(out);
    proof {
        crate::value::lemma_models_of(items@);
        crate::value::lemma_models_of(outv);
    }
    Ok(result)
}

} // verus!
