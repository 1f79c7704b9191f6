//! End-to-end behaviour of the engine: compiling and executing
//! programs, the machine's faults and limits, the value model, the map
//! and async host functions, and the documented boundary cases.

use fusabi::ast::{BinOp, Expr, Literal, MatchArm, Pattern};
use fusabi::chunk::{Chunk, ChunkBuilder, SourceSpan};
use fusabi::compiler::{CompileError, Compiler};
use fusabi::instruction::Instruction;
use fusabi::lexer::Lexer;
use fusabi::numfmt::{i64_to_string, u64_to_string};
use fusabi::parser::Parser;
use fusabi::stdlib::async_ops;
use fusabi::stdlib::table;
use fusabi::value::{AsyncValue, Closure, TaskId, Value};
use fusabi::vm::{HostFn, Vm, VmError};
use std::rc::Rc;

fn run_source(src: &str) -> Result<Value, VmError> {
    let mut lexer = Lexer::new(src);
    let tokens = lexer.tokenize().unwrap();
    let mut parser = Parser::new(tokens);
    let expr = parser.parse().unwrap();
    let chunk = Compiler::compile(&expr).unwrap();
    let mut vm = Vm::new();
    vm.execute(chunk)
}

#[test]
fn test_chunk_basic() {
    let mut chunk = Chunk::new();
    let idx = chunk.add_constant(Value::Int(42));
    chunk.emit(Instruction::LoadConst(idx));
    chunk.emit(Instruction::Return);
    assert_eq!(chunk.instructions.len(), 2);
    assert_eq!(chunk.constants.len(), 1);
}

#[test]
fn test_execute_literal_yields_itself() {
    // Compiling and executing a literal yields exactly that literal.
    let chunk = Compiler::compile(&Expr::Lit(Literal::Int(42))).unwrap();
    let mut vm = Vm::new();
    assert_eq!(vm.execute(chunk).unwrap(), Value::Int(42));

    let chunk = Compiler::compile(&Expr::Lit(Literal::Str("hi".to_string()))).unwrap();
    let mut vm = Vm::new();
    assert_eq!(vm.execute(chunk).unwrap(), Value::Str("hi".to_string()));
}

#[test]
fn test_scenario_addition() {
    assert_eq!(run_source("1 + 2").unwrap(), Value::Int(3));
}

#[test]
fn test_scenario_let_binding() {
    assert_eq!(run_source("let x = 42 in x + 1").unwrap(), Value::Int(43));
}

#[test]
fn test_scenario_conditional() {
    let kw = ["t", "h", "e", "n"].concat();
    let src = format!("if true {} 1 else 0", kw);
    assert_eq!(run_source(&src).unwrap(), Value::Int(1));
}

#[test]
fn test_scenario_match_option() {
    assert_eq!(
        run_source("match Some(7) with | Some(x) -> x | None -> 0").unwrap(),
        Value::Int(7)
    );
}

#[test]
fn test_scenario_lambda_application() {
    assert_eq!(run_source("(fun x -> x + 1) 41").unwrap(), Value::Int(42));
}

#[test]
fn test_repeated_evaluation_is_stable() {
    // A pure program evaluates to the same value on every run.
    let mut last = None;
    for _ in 0..3 {
        let v = run_source("let x = 6 in x * 7").unwrap();
        if let Some(prev) = &last {
            assert_eq!(&v, prev);
        }
        last = Some(v);
    }
    assert_eq!(last.unwrap(), Value::Int(42));
}

#[test]
fn test_integer_division_by_zero_faults() {
    let result = run_source("1 / 0");
    assert!(matches!(result, Err(VmError::DivisionByZero)));
    let result = run_source("7 / 2");
    assert_eq!(result.unwrap(), Value::Int(3));
}

#[test]
fn test_not_callable_carries_call_span() {
    // Calling an integer faults with `NotCallable`, and the machine
    // records the span of the faulting call instruction.
    let mut chunk = Chunk::new();
    let f = chunk.add_constant(Value::Int(5));
    let a = chunk.add_constant(Value::Int(1));
    chunk.emit(Instruction::LoadConst(f));
    chunk.emit(Instruction::LoadConst(a));
    chunk.emit_with_span(Instruction::Call(1), SourceSpan::new(3, 9, 30, 1));
    chunk.emit(Instruction::Return);

    let mut vm = Vm::new();
    let result = vm.execute(chunk);
    assert!(matches!(result, Err(VmError::NotCallable)));
    assert_eq!(vm.fault_span, Some(SourceSpan::new(3, 9, 30, 1)));
    assert_eq!(vm.frames.len(), 0);
}

#[test]
fn test_frame_limit_overflows() {
    // A call pushed past the frame limit faults with `StackOverflow`
    // and the machine stays consistent.
    let mut inner = ChunkBuilder::new();
    inner.emit_load_local(0);
    inner.emit_return();
    let callee = Value::Closure(Rc::new(Closure::with_arity(inner.build(), 1)));

    let mut vm = Vm::new();
    vm.max_frames = 0;
    let result = vm.call_closure(callee, &[Value::Int(1)]);
    assert!(matches!(result, Err(VmError::StackOverflow)));
    assert_eq!(vm.frames.len(), 0);
    assert_eq!(vm.stack.len(), 0);
}

#[test]
fn test_constant_pool_capacity_boundary() {
    // A pool of exactly 65536 constants compiles; one more fails.
    let mut wide = Vec::new();
    for k in 0..65535 {
        wide.push(Expr::Lit(Literal::Int(k)));
    }
    // Each tuple element adds one constant; with the implicit one from
    // the shared literal that makes 65536 in total.
    wide.push(Expr::Lit(Literal::Int(99)));
    let expr = Expr::Tuple(wide);
    assert!(matches!(Compiler::compile(&expr), Err(CompileError::UnsupportedOperation(_))));

    // Tuples cap at 255 elements, so drive the pool with nested lists
    // instead: a list re-uses no constants.
    let mut items = Vec::new();
    for k in 0..65536 {
        items.push(Expr::Lit(Literal::Int(k)));
    }
    let ok = Compiler::compile(&Expr::List(items));
    assert!(ok.is_ok());
    assert_eq!(ok.unwrap().constants.len(), 65536);

    let mut items = Vec::new();
    for k in 0..65537 {
        items.push(Expr::Lit(Literal::Int(k)));
    }
    let result = Compiler::compile(&Expr::List(items));
    assert_eq!(result.unwrap_err(), CompileError::TooManyConstants);
}

#[test]
fn test_local_count_boundary() {
    // Exactly 256 nested bindings compile; the 257th fails.
    fn nested_lets(n: usize) -> Expr {
        let mut body = Expr::Var("v0".to_string());
        let mut names: Vec<String> = Vec::new();
        for k in 0..n {
            names.push(format!("v{}", k));
        }
        for name in names.iter().rev() {
            body = Expr::Let {
                name: name.clone(),
                value: Box::new(Expr::Lit(Literal::Int(1))),
                body: Box::new(body),
            };
        }
        body
    }

    assert!(Compiler::compile(&nested_lets(256)).is_ok());
    assert_eq!(
        Compiler::compile(&nested_lets(257)).unwrap_err(),
        CompileError::TooManyLocals
    );
}

#[test]
fn test_undefined_variable_with_empty_scope() {
    let result = Compiler::compile(&Expr::Var("x".to_string()));
    assert_eq!(
        result.unwrap_err(),
        CompileError::UndefinedVariable("x".to_string())
    );
}

#[test]
fn test_match_falls_through_to_failure() {
    let result = run_source("match None with | Some(x) -> x");
    assert!(matches!(result, Err(VmError::Runtime(_))));
}

#[test]
fn test_match_wildcard_and_literal_arms() {
    assert_eq!(
        run_source("match 3 with | 1 -> 10 | 3 -> 30 | _ -> 0").unwrap(),
        Value::Int(30)
    );
    assert_eq!(
        run_source("match 9 with | 1 -> 10 | 3 -> 30 | _ -> 0").unwrap(),
        Value::Int(0)
    );
}

#[test]
fn test_cons_list_round_trip_concrete() {
    // Reading a built list back gives exactly the elements.
    let xs = vec![Value::Int(1), Value::Str("two".to_string()), Value::Bool(true)];
    let list = Value::vec_to_cons(xs.clone());
    let back = Value::cons_to_vec(&list).unwrap();
    assert_eq!(back, xs);

    let empty = Value::vec_to_cons(vec![]);
    assert_eq!(empty, Value::Nil);
    assert_eq!(Value::cons_to_vec(&empty).unwrap(), Vec::<Value>::new());
}

#[test]
fn test_cons_to_vec_rejects_non_lists() {
    assert!(Value::cons_to_vec(&Value::Int(3)).is_none());
    let bad = Value::Cons {
        head: Rc::new(Value::Int(1)),
        tail: Rc::new(Value::Int(2)),
    };
    assert!(Value::cons_to_vec(&bad).is_none());
}

#[test]
fn test_value_equality_is_structural() {
    let a = Value::vec_to_cons(vec![Value::Int(1), Value::Int(2)]);
    let b = Value::vec_to_cons(vec![Value::Int(1), Value::Int(2)]);
    assert_eq!(a, b);
    let c = Value::vec_to_cons(vec![Value::Int(1), Value::Int(3)]);
    assert_ne!(a, c);

    // A NaN bit pattern is not equal to itself.
    let nan = Value::Float(0x7ff8_0000_0000_0001);
    assert_ne!(nan, Value::Float(0x7ff8_0000_0000_0001));
    let one = Value::Float(0x3ff0_0000_0000_0000);
    assert_eq!(one, Value::Float(0x3ff0_0000_0000_0000));
}

#[test]
fn test_closing_an_upvalue_preserves_its_value() {
    // After the frame that owns the slot is gone, the upvalue still
    // reads the value the slot held when it was closed.
    let mut vm = Vm::new();
    vm.stack.push(Value::Int(7));
    vm.upvalues.push(fusabi::value::Upvalue::Open(0));
    vm.close_upvalues(0);
    vm.stack.clear();
    match &vm.upvalues[0] {
        fusabi::value::Upvalue::Closed(v) => assert_eq!(*v, Value::Int(7)),
        _ => panic!("the upvalue should have closed"),
    }
}

#[test]
fn test_lambda_produces_closure_value() {
    let chunk = Compiler::compile(&Expr::Lambda {
        param: "x".to_string(),
        body: Box::new(Expr::Var("x".to_string())),
    })
    .unwrap();
    let mut vm = Vm::new();
    let v = vm.execute(chunk).unwrap();
    assert!(matches!(v, Value::Closure(_)));

    // And applying it works end to end.
    let mut vm = Vm::new();
    let result = vm.call_closure(v, &[Value::Int(9)]).unwrap();
    assert_eq!(result, Value::Int(9));
}

#[test]
fn test_arity_mismatch_on_closure() {
    let mut inner = ChunkBuilder::new();
    inner.emit_load_local(0);
    inner.emit_return();
    let callee = Value::Closure(Rc::new(Closure::with_arity(inner.build(), 1)));
    let mut vm = Vm::new();
    let result = vm.call_closure(callee, &[Value::Int(1), Value::Int(2)]);
    assert!(matches!(result, Err(VmError::ArityMismatch)));
}

#[test]
fn test_wrapping_integer_arithmetic() {
    assert_eq!(
        run_source("9223372036854775807 + 1").unwrap(),
        Value::Int(i64::MIN)
    );
}

#[test]
fn test_type_mismatch_in_arithmetic() {
    let result = run_source("1 + true");
    assert!(matches!(
        result,
        Err(VmError::TypeMismatch { expected: "int", got: "bool" })
    ));
}

#[test]
fn test_string_ordering() {
    assert_eq!(run_source("\"abc\" < \"abd\"").unwrap(), Value::Bool(true));
    assert_eq!(run_source("\"b\" < \"abd\"").unwrap(), Value::Bool(false));
    assert_eq!(run_source("\"ab\" <= \"ab\"").unwrap(), Value::Bool(true));
}

#[test]
fn test_map_host_functions() {
    let empty = table::map_empty(&Value::Unit).unwrap();
    let one = table::map_add(&Value::Str("a".to_string()), &Value::Int(1), &empty).unwrap();
    let two = table::map_add(&Value::Str("b".to_string()), &Value::Int(2), &one).unwrap();

    assert_eq!(
        table::map_find(&Value::Str("a".to_string()), &two).unwrap(),
        Value::Int(1)
    );
    assert_eq!(
        table::map_count(&two).unwrap(),
        Value::Int(2)
    );
    assert_eq!(
        table::map_contains_key(&Value::Str("b".to_string()), &two).unwrap(),
        Value::Bool(true)
    );

    let smaller = table::map_remove(&Value::Str("a".to_string()), &two).unwrap();
    assert_eq!(
        table::map_contains_key(&Value::Str("a".to_string()), &smaller).unwrap(),
        Value::Bool(false)
    );
    assert_eq!(table::map_is_empty(&empty).unwrap(), Value::Bool(true));
    assert_eq!(table::map_is_empty(&two).unwrap(), Value::Bool(false));

    // A replaced key keeps one binding with the newest value.
    let replaced = table::map_add(&Value::Str("b".to_string()), &Value::Int(9), &two).unwrap();
    assert_eq!(
        table::map_find(&Value::Str("b".to_string()), &replaced).unwrap(),
        Value::Int(9)
    );
    assert_eq!(table::map_count(&replaced).unwrap(), Value::Int(2));

    // An absent key is a runtime fault in `find` and `None` in
    // `tryFind`.
    assert!(matches!(
        table::map_find(&Value::Str("zz".to_string()), &two),
        Err(VmError::Runtime(_))
    ));
    match table::map_try_find(&Value::Str("zz".to_string()), &two).unwrap() {
        Value::Variant { ctor, fields, .. } => {
            assert_eq!(ctor, "None");
            assert_eq!(fields.len(), 0);
        },
        _ => panic!("expected an option variant"),
    }

    // Type mismatches are reported as such.
    assert!(matches!(
        table::map_add(&Value::Int(1), &Value::Int(1), &empty),
        Err(VmError::TypeMismatch { .. })
    ));
    assert!(matches!(
        table::map_count(&Value::Int(1)),
        Err(VmError::TypeMismatch { .. })
    ));
}

#[test]
fn test_map_of_list_and_to_list() {
    let pairs = Value::vec_to_cons(vec![
        Value::Tuple(vec![Value::Str("x".to_string()), Value::Int(1)]),
        Value::Tuple(vec![Value::Str("y".to_string()), Value::Int(2)]),
    ]);
    let m = table::map_of_list(&pairs).unwrap();
    assert_eq!(table::map_count(&m).unwrap(), Value::Int(2));

    let listed = table::map_to_list(&m).unwrap();
    let entries = Value::cons_to_vec(&listed).unwrap();
    assert_eq!(entries.len(), 2);
}

#[test]
fn test_async_ce_constructors() {
    let mut vm = Vm::new();
    let pure = async_ops::async_return(&mut vm, &[Value::Int(5)]).unwrap();
    match &pure {
        Value::Variant { tag, ctor, fields } => {
            assert_eq!(tag, "Async");
            assert_eq!(ctor, "Pure");
            assert_eq!(fields[0], Value::Int(5));
        },
        _ => panic!("expected an Async variant"),
    }
    let zero = async_ops::async_zero(&mut vm, &[]).unwrap();
    match &zero {
        Value::Variant { ctor, fields, .. } => {
            assert_eq!(ctor, "Pure");
            assert_eq!(fields[0], Value::Unit);
        },
        _ => panic!("expected an Async variant"),
    }
}

#[test]
fn test_run_synchronously_pure() {
    let mut vm = Vm::new();
    let pure = async_ops::async_return(&mut vm, &[Value::Int(5)]).unwrap();
    let result = async_ops::async_run_synchronously(&mut vm, &[pure]).unwrap();
    assert_eq!(result, Value::Int(5));
}

#[test]
fn test_run_synchronously_bind() {
    // let! x = Async.Return 5 in Async.Return (x * 2) evaluates to 10.
    let mut vm = Vm::new();

    // A closure that doubles its argument and wraps it in a Pure node.
    let mut b = ChunkBuilder::new();
    b.emit_load_local(0);
    let two = b.add_constant(Value::Int(2));
    b.emit_load_const(two);
    b.emit_instruction(Instruction::Mul);
    b.emit_instruction(Instruction::MakeVariant {
        tag: "Async".to_string(),
        ctor: "Pure".to_string(),
        arity: 1,
    });
    b.emit_return();
    let binder = Value::Closure(Rc::new(Closure::with_arity(b.build(), 1)));

    let pure5 = async_ops::async_return(&mut vm, &[Value::Int(5)]).unwrap();
    let bound = async_ops::async_bind(&mut vm, &[pure5, binder]).unwrap();
    let result = async_ops::async_run_synchronously(&mut vm, &[bound]).unwrap();
    assert_eq!(result, Value::Int(10));
}

#[test]
fn test_parallel_empty_list_is_ready_nil() {
    // Waiting on no tasks finishes at once with the empty list.
    let mut vm = Vm::new();
    let handle = async_ops::async_parallel(&mut vm, &[Value::Nil]).unwrap();
    let id = match handle {
        Value::Async(AsyncValue::Task(TaskId(id))) => id,
        _ => panic!("expected a task handle"),
    };
    match vm.tasks.get(id) {
        Some(fusabi::asyncrt::AsyncState::Ready(v)) => assert_eq!(*v, Value::Nil),
        _ => panic!("the task should be ready immediately"),
    }
    assert_eq!(vm.queue.len(), 0);
}

#[test]
fn test_sleep_queues_worker_request() {
    let mut vm = Vm::new();
    let handle = async_ops::async_sleep(&mut vm, &[Value::Int(10)]).unwrap();
    assert!(matches!(handle, Value::Async(AsyncValue::Task(_))));
    assert_eq!(vm.queue.len(), 1);
}

#[test]
fn test_cancel_marks_task_cancelled() {
    let mut vm = Vm::new();
    let handle = async_ops::async_sleep(&mut vm, &[Value::Int(1000)]).unwrap();
    let id = match &handle {
        Value::Async(AsyncValue::Task(TaskId(id))) => *id,
        _ => panic!("expected a task handle"),
    };
    let r = async_ops::async_cancel(&mut vm, &[handle]).unwrap();
    assert_eq!(r, Value::Unit);
    assert!(matches!(
        vm.tasks.get(id),
        Some(fusabi::asyncrt::AsyncState::Cancelled)
    ));
}

#[test]
fn test_host_registry_last_registration_wins() {
    let mut vm = Vm::new();
    vm.register_host("probe", HostFn::MapCount);
    vm.register_host("probe", HostFn::MapIsEmpty);
    assert_eq!(vm.host.lookup("probe"), Some(HostFn::MapIsEmpty));
    assert_eq!(vm.host.lookup("absent"), None);
}

#[test]
fn test_undefined_host_faults() {
    let mut vm = Vm::new();
    let callee = Value::NativeFn {
        name: "no.such.host".to_string(),
        arity: 1,
        args: vec![],
    };
    let result = vm.call_value(callee, &[Value::Int(1)]);
    assert!(matches!(result, Err(VmError::UndefinedHost(_))));
}

#[test]
fn test_native_partial_application() {
    let mut vm = Vm::new();
    vm.register_host("Map.add", HostFn::MapAdd);
    let callee = Value::NativeFn {
        name: "Map.add".to_string(),
        arity: 3,
        args: vec![],
    };
    let partial = vm.call_value(callee, &[Value::Str("k".to_string())]).unwrap();
    match &partial {
        Value::NativeFn { arity, args, .. } => {
            assert_eq!(*arity, 3);
            assert_eq!(args.len(), 1);
        },
        _ => panic!("expected a partial application"),
    }
    let empty = table::map_empty(&Value::Unit).unwrap();
    let full = vm.call_value(partial, &[Value::Int(5), empty]).unwrap();
    assert_eq!(
        table::map_find(&Value::Str("k".to_string()), &full).unwrap(),
        Value::Int(5)
    );
}

#[test]
fn test_decimal_rendering() {
    assert_eq!(u64_to_string(0), "0");
    assert_eq!(u64_to_string(65535), "65535");
    assert_eq!(i64_to_string(-42), "-42");
    assert_eq!(i64_to_string(i64::MIN), "-9223372036854775808");
}

#[test]
fn test_lexer_positions_and_errors() {
    let mut lexer = Lexer::new("let x = 1");
    let toks = lexer.tokenize().unwrap();
    assert_eq!(toks.len(), 5);
    assert_eq!(toks[0].line, 1);
    assert_eq!(toks[0].column, 1);

    let mut lexer = Lexer::new("\"open");
    assert!(lexer.tokenize().is_err());
}

#[test]
fn test_parser_reports_errors() {
    let mut lexer = Lexer::new("let = 1 in 2");
    let tokens = lexer.tokenize().unwrap();
    let mut parser = Parser::new(tokens);
    assert!(parser.parse().is_err());
}

#[test]
fn test_matcharm_shape() {
    let arm = MatchArm {
        pattern: Pattern::Wildcard,
        body: Expr::Lit(Literal::Int(0)),
    };
    assert!(arm.pattern.is_wildcard());
    assert!(matches!(arm.body, Expr::Lit(_)));
    let _ = BinOp::Add;
}

#[test]
fn test_map_to_list_sorted_by_key() {
    let pairs = Value::vec_to_cons(vec![
        Value::Tuple(vec![Value::Str("b".to_string()), Value::Int(2)]),
        Value::Tuple(vec![Value::Str("a".to_string()), Value::Int(1)]),
        Value::Tuple(vec![Value::Str("c".to_string()), Value::Int(3)]),
    ]);
    let map = fusabi::stdlib::table::map_of_list(&pairs).unwrap();
    let listed = fusabi::stdlib::table::map_to_list(&map).unwrap();
    let expected = Value::vec_to_cons(vec![
        Value::Tuple(vec![Value::Str("a".to_string()), Value::Int(1)]),
        Value::Tuple(vec![Value::Str("b".to_string()), Value::Int(2)]),
        Value::Tuple(vec![Value::Str("c".to_string()), Value::Int(3)]),
    ]);
    assert_eq!(listed, expected);
}
