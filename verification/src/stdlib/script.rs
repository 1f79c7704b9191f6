use vstd::prelude::*;
use vstd::string::StringExecFns;

use crate::value::{Value, ValueM, vmodel};
use crate::vm::{Vm, VmError};

verus! {

/// Evaluate source text at runtime. The engine's core has no access to
/// the surface-language pipeline, so evaluation is never available
/// here and every well-formed request is answered with a runtime
/// fault; an embedder with the full pipeline registers its own
/// evaluator over this name instead.
pub fn script_eval(_vm: &mut Vm, args: &[Value]) -> (r: Result<Value, VmError>)
    ensures
        *final(_vm) == *old(_vm),
        r is Err,
        args@.len() == 0 ==> (r matches Err(e) && e matches VmError::Runtime(m)
            && m@ == "Script.eval requires 1 argument"@),
        args@.len() >= 1 && !(vmodel(args@[0]) matches ValueM::Str(_))
            ==> (r matches Err(e) && e matches VmError::TypeMismatch { expected, got }
                && expected@ == "string"@),
        args@.len() >= 1 && (vmodel(args@[0]) matches ValueM::Str(_))
            ==> (r matches Err(e) && e matches VmError::Runtime(m)
                && m@ == "Script.eval is not available in this context. \
Dynamic code evaluation requires the surface-language pipeline. \
Use the embedding engine instead."@),
{
    if args.len() == 0 {
        return Err(VmError::Runtime(String::from_str(
            "Script.eval requires 1 argument",
        )));
    }
    match &args[0] {
        Value::Str(_) => {},
        other => {
            return Err(VmError::TypeMismatch {
                expected: "string",
                got: other.kind_name(),
            });
        },
    }
    Err(VmError::Runtime(String::from_str(
        "Script.eval is not available in this context. \
Dynamic code evaluation requires the surface-language pipeline. \
Use the embedding engine instead.",
    )))
}

/// Evaluate source text and render the outcome as a string: a fault
/// becomes its message prefixed with `Error: `.
pub fn script_eval_to_string(vm: &mut Vm, args: &[Value]) -> (r: Result<Value, VmError>)
    ensures
        *final(vm) == *old(vm),
        args@.len() >= 1 && (vmodel(args@[0]) matches ValueM::Str(_)) ==> (r matches Ok(v)
            && vmodel(v) matches ValueM::Str(s)
            && s.take(7) == "Error: "@
            && s == "Error: "@ + "Runtime error: "@
                + "Script.eval is not available in this context. \
Dynamic code evaluation requires the surface-language pipeline. \
Use the embedding engine instead."@),
        args@.len() == 0 ==> r is Err,
{
    match script_eval(vm, args) {
        Ok(v) => Ok(v),
        Err(e) => {
            if args.len() == 0 {
                return Err(e);
            }
            match &args[0] {
                Value::Str(_) => {},
                _ => {
                    return Err(e);
                },
            }
            let mut s = String::new();
            s.append("Error: ");
            let m = e.message();
            s.append(m.as_str());
            proof {
                reveal_strlit("Error: ");
                assert(s@.take(7) =~= "Error: "@);
            }
            Ok(Value::Str(s))
        },
    }
}

} // verus!
