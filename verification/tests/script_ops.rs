//! The dynamic-evaluation host functions, which in the core always
//! report that no surface-language pipeline is present.

use fusabi::stdlib::script::{script_eval, script_eval_to_string};
use fusabi::value::Value;
use fusabi::vm::{Vm, VmError};

#[test]
fn test_script_eval_requires_argument() {
    let mut vm = Vm::new();
    let result = script_eval(&mut vm, &[]);
    assert!(result.is_err());
    if let Err(VmError::Runtime(msg)) = result {
        assert!(msg.contains("requires 1 argument"));
    }
}

#[test]
fn test_script_eval_requires_string() {
    let mut vm = Vm::new();
    let result = script_eval(&mut vm, &[Value::Int(42)]);
    assert!(result.is_err());
    if let Err(VmError::TypeMismatch { expected, got }) = result {
        assert_eq!(expected, "string");
        assert_eq!(got, "int");
    }
}

#[test]
fn test_script_eval_returns_not_available_error() {
    let mut vm = Vm::new();
    let result = script_eval(&mut vm, &[Value::Str("1 + 1".to_string())]);
    assert!(result.is_err());
    if let Err(VmError::Runtime(msg)) = result {
        assert!(msg.contains("not available in this context"));
    }
}

#[test]
fn test_script_eval_to_string_error_handling() {
    let mut vm = Vm::new();
    let result = script_eval_to_string(&mut vm, &[Value::Str("1 + 1".to_string())]);
    assert!(result.is_ok());
    if let Ok(Value::Str(msg)) = result {
        assert!(msg.starts_with("Error:"));
    }
}
