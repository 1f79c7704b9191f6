//! Lowering expressions to bytecode: literals, variables, operators,
//! bindings, conditionals, and the compiler's error taxonomy.

use fusabi::ast::{BinOp, Expr, Literal};
use fusabi::compiler::{CompileError, Compiler};
use fusabi::instruction::Instruction;
use fusabi::value::Value;

#[test]
fn test_compile_literal_int() {
    let expr = Expr::Lit(Literal::Int(42));
    let chunk = Compiler::compile(&expr).unwrap();

    assert_eq!(chunk.constants.len(), 1);
    assert_eq!(chunk.constants[0], Value::Int(42));
    assert_eq!(chunk.instructions.len(), 2);
    assert_eq!(chunk.instructions[0], Instruction::LoadConst(0));
    assert_eq!(chunk.instructions[1], Instruction::Return);
}

#[test]
fn test_compile_literal_bool_true() {
    let expr = Expr::Lit(Literal::Bool(true));
    let chunk = Compiler::compile(&expr).unwrap();

    assert_eq!(chunk.constants.len(), 1);
    assert_eq!(chunk.constants[0], Value::Bool(true));
    assert_eq!(chunk.instructions[0], Instruction::LoadConst(0));
}

#[test]
fn test_compile_literal_bool_false() {
    let expr = Expr::Lit(Literal::Bool(false));
    let chunk = Compiler::compile(&expr).unwrap();

    assert_eq!(chunk.constants.len(), 1);
    assert_eq!(chunk.constants[0], Value::Bool(false));
}

#[test]
fn test_compile_literal_string() {
    let expr = Expr::Lit(Literal::Str("hello".to_string()));
    let chunk = Compiler::compile(&expr).unwrap();

    assert_eq!(chunk.constants.len(), 1);
    assert_eq!(chunk.constants[0], Value::Str("hello".to_string()));
}

#[test]
fn test_compile_literal_unit() {
    let expr = Expr::Lit(Literal::Unit);
    let chunk = Compiler::compile(&expr).unwrap();

    assert_eq!(chunk.constants.len(), 1);
    assert_eq!(chunk.constants[0], Value::Unit);
}

#[test]
fn test_compile_literal_float_unsupported() {
    let expr = Expr::Lit(Literal::Float("2.5".to_string()));
    let result = Compiler::compile(&expr);

    assert!(result.is_err());
    assert_eq!(result.unwrap_err(), CompileError::UnsupportedFloat);
}

#[test]
fn test_compile_var_undefined() {
    let expr = Expr::Var("x".to_string());
    let result = Compiler::compile(&expr);

    assert!(result.is_err());
    assert_eq!(
        result.unwrap_err(),
        CompileError::UndefinedVariable("x".to_string())
    );
}

#[test]
fn test_compile_binop_add() {
    let expr = Expr::BinOp {
        op: BinOp::Add,
        left: Box::new(Expr::Lit(Literal::Int(1))),
        right: Box::new(Expr::Lit(Literal::Int(2))),
    };
    let chunk = Compiler::compile(&expr).unwrap();

    assert_eq!(chunk.constants.len(), 2);
    assert_eq!(chunk.constants[0], Value::Int(1));
    assert_eq!(chunk.constants[1], Value::Int(2));

    assert_eq!(chunk.instructions[0], Instruction::LoadConst(0));
    assert_eq!(chunk.instructions[1], Instruction::LoadConst(1));
    assert_eq!(chunk.instructions[2], Instruction::Add);
    assert_eq!(chunk.instructions[3], Instruction::Return);
}

#[test]
fn test_compile_binop_sub() {
    let expr = Expr::BinOp {
        op: BinOp::Sub,
        left: Box::new(Expr::Lit(Literal::Int(10))),
        right: Box::new(Expr::Lit(Literal::Int(5))),
    };
    let chunk = Compiler::compile(&expr).unwrap();

    assert_eq!(chunk.instructions[2], Instruction::Sub);
}

#[test]
fn test_compile_binop_mul() {
    let expr = Expr::BinOp {
        op: BinOp::Mul,
        left: Box::new(Expr::Lit(Literal::Int(3))),
        right: Box::new(Expr::Lit(Literal::Int(4))),
    };
    let chunk = Compiler::compile(&expr).unwrap();

    assert_eq!(chunk.instructions[2], Instruction::Mul);
}

#[test]
fn test_compile_binop_div() {
    let expr = Expr::BinOp {
        op: BinOp::Div,
        left: Box::new(Expr::Lit(Literal::Int(10))),
        right: Box::new(Expr::Lit(Literal::Int(2))),
    };
    let chunk = Compiler::compile(&expr).unwrap();

    assert_eq!(chunk.instructions[2], Instruction::Div);
}

#[test]
fn test_compile_binop_comparison() {
    let test_cases = vec![
        (BinOp::Eq, Instruction::Eq),
        (BinOp::Neq, Instruction::Neq),
        (BinOp::Lt, Instruction::Lt),
        (BinOp::Lte, Instruction::Lte),
        (BinOp::Gt, Instruction::Gt),
        (BinOp::Gte, Instruction::Gte),
    ];

    for (op, expected_instr) in test_cases {
        let expr = Expr::BinOp {
            op,
            left: Box::new(Expr::Lit(Literal::Int(1))),
            right: Box::new(Expr::Lit(Literal::Int(2))),
        };
        let chunk = Compiler::compile(&expr).unwrap();
        assert_eq!(chunk.instructions[2], expected_instr);
    }
}

#[test]
fn test_compile_binop_logical() {
    let test_cases = vec![(BinOp::And, Instruction::And), (BinOp::Or, Instruction::Or)];

    for (op, expected_instr) in test_cases {
        let expr = Expr::BinOp {
            op,
            left: Box::new(Expr::Lit(Literal::Bool(true))),
            right: Box::new(Expr::Lit(Literal::Bool(false))),
        };
        let chunk = Compiler::compile(&expr).unwrap();
        assert_eq!(chunk.instructions[2], expected_instr);
    }
}

#[test]
fn test_compile_binop_nested() {
    let expr = Expr::BinOp {
        op: BinOp::Mul,
        left: Box::new(Expr::BinOp {
            op: BinOp::Add,
            left: Box::new(Expr::Lit(Literal::Int(1))),
            right: Box::new(Expr::Lit(Literal::Int(2))),
        }),
        right: Box::new(Expr::Lit(Literal::Int(3))),
    };
    let chunk = Compiler::compile(&expr).unwrap();

    assert_eq!(chunk.instructions[0], Instruction::LoadConst(0));
    assert_eq!(chunk.instructions[1], Instruction::LoadConst(1));
    assert_eq!(chunk.instructions[2], Instruction::Add);
    assert_eq!(chunk.instructions[3], Instruction::LoadConst(2));
    assert_eq!(chunk.instructions[4], Instruction::Mul);
    assert_eq!(chunk.instructions[5], Instruction::Return);
}

#[test]
fn test_compile_let_simple() {
    // Closing the scope slides the body's value over the binding's
    // slot, so the stored local is replaced rather than popped.
    let expr = Expr::Let {
        name: "x".to_string(),
        value: Box::new(Expr::Lit(Literal::Int(42))),
        body: Box::new(Expr::Var("x".to_string())),
    };
    let chunk = Compiler::compile(&expr).unwrap();

    assert_eq!(chunk.constants.len(), 1);
    assert_eq!(chunk.constants[0], Value::Int(42));

    assert_eq!(chunk.instructions[0], Instruction::LoadConst(0));
    assert_eq!(chunk.instructions[1], Instruction::StoreLocal(0));
    assert_eq!(chunk.instructions[2], Instruction::LoadLocal(0));
    assert_eq!(chunk.instructions[3], Instruction::StoreLocal(0));
    assert_eq!(chunk.instructions[4], Instruction::Return);
}

#[test]
fn test_compile_let_with_binop() {
    let expr = Expr::Let {
        name: "x".to_string(),
        value: Box::new(Expr::Lit(Literal::Int(42))),
        body: Box::new(Expr::BinOp {
            op: BinOp::Add,
            left: Box::new(Expr::Var("x".to_string())),
            right: Box::new(Expr::Lit(Literal::Int(1))),
        }),
    };
    let chunk = Compiler::compile(&expr).unwrap();

    assert_eq!(chunk.constants.len(), 2);

    assert_eq!(chunk.instructions[0], Instruction::LoadConst(0));
    assert_eq!(chunk.instructions[1], Instruction::StoreLocal(0));
    assert_eq!(chunk.instructions[2], Instruction::LoadLocal(0));
    assert_eq!(chunk.instructions[3], Instruction::LoadConst(1));
    assert_eq!(chunk.instructions[4], Instruction::Add);
    assert_eq!(chunk.instructions[5], Instruction::StoreLocal(0));
    assert_eq!(chunk.instructions[6], Instruction::Return);
}

#[test]
fn test_compile_let_nested() {
    let expr = Expr::Let {
        name: "x".to_string(),
        value: Box::new(Expr::Lit(Literal::Int(1))),
        body: Box::new(Expr::Let {
            name: "y".to_string(),
            value: Box::new(Expr::Lit(Literal::Int(2))),
            body: Box::new(Expr::BinOp {
                op: BinOp::Add,
                left: Box::new(Expr::Var("x".to_string())),
                right: Box::new(Expr::Var("y".to_string())),
            }),
        }),
    };
    let chunk = Compiler::compile(&expr).unwrap();

    assert!(chunk
        .instructions
        .iter()
        .any(|i| matches!(i, Instruction::LoadLocal(0))));
    assert!(chunk
        .instructions
        .iter()
        .any(|i| matches!(i, Instruction::LoadLocal(1))));
    assert!(chunk
        .instructions
        .iter()
        .any(|i| matches!(i, Instruction::Add)));
}

#[test]
fn test_compile_lambda_simple() {
    let expr = Expr::Lambda {
        param: "x".to_string(),
        body: Box::new(Expr::BinOp {
            op: BinOp::Add,
            left: Box::new(Expr::Var("x".to_string())),
            right: Box::new(Expr::Lit(Literal::Int(1))),
        }),
    };

    let result = Compiler::compile(&expr);
    assert!(result.is_ok());
}

#[test]
fn test_compile_app_simple() {
    let expr = Expr::App {
        func: Box::new(Expr::Lambda {
            param: "x".to_string(),
            body: Box::new(Expr::BinOp {
                op: BinOp::Add,
                left: Box::new(Expr::Var("x".to_string())),
                right: Box::new(Expr::Lit(Literal::Int(1))),
            }),
        }),
        arg: Box::new(Expr::Lit(Literal::Int(42))),
    };

    let result = Compiler::compile(&expr);
    assert!(result.is_ok());

    let chunk = result.unwrap();
    assert!(chunk
        .instructions
        .iter()
        .any(|i| matches!(i, Instruction::Call(1))));
}

#[test]
fn test_compile_if_simple() {
    let expr = Expr::If {
        cond: Box::new(Expr::Lit(Literal::Bool(true))),
        then_branch: Box::new(Expr::Lit(Literal::Int(1))),
        else_branch: Box::new(Expr::Lit(Literal::Int(0))),
    };
    let chunk = Compiler::compile(&expr).unwrap();

    assert_eq!(chunk.constants.len(), 3);

    assert!(chunk
        .instructions
        .iter()
        .any(|i| matches!(i, Instruction::JumpIfFalse(_))));
    assert!(chunk
        .instructions
        .iter()
        .any(|i| matches!(i, Instruction::Jump(_))));
    assert!(chunk
        .instructions
        .iter()
        .any(|i| matches!(i, Instruction::Pop)));
}

#[test]
fn test_compile_if_with_comparison() {
    let expr = Expr::Let {
        name: "x".to_string(),
        value: Box::new(Expr::Lit(Literal::Int(5))),
        body: Box::new(Expr::If {
            cond: Box::new(Expr::BinOp {
                op: BinOp::Gt,
                left: Box::new(Expr::Var("x".to_string())),
                right: Box::new(Expr::Lit(Literal::Int(0))),
            }),
            then_branch: Box::new(Expr::Lit(Literal::Int(1))),
            else_branch: Box::new(Expr::Lit(Literal::Int(-1))),
        }),
    };

    let chunk = Compiler::compile(&expr).unwrap();

    assert!(chunk
        .instructions
        .iter()
        .any(|i| matches!(i, Instruction::Gt)));
    assert!(chunk
        .instructions
        .iter()
        .any(|i| matches!(i, Instruction::JumpIfFalse(_))));
    assert!(chunk
        .instructions
        .iter()
        .any(|i| matches!(i, Instruction::Jump(_))));
}

#[test]
fn test_compile_if_nested() {
    let expr = Expr::If {
        cond: Box::new(Expr::Lit(Literal::Bool(true))),
        then_branch: Box::new(Expr::If {
            cond: Box::new(Expr::Lit(Literal::Bool(false))),
            then_branch: Box::new(Expr::Lit(Literal::Int(1))),
            else_branch: Box::new(Expr::Lit(Literal::Int(2))),
        }),
        else_branch: Box::new(Expr::Lit(Literal::Int(3))),
    };

    let chunk = Compiler::compile(&expr).unwrap();

    let jump_count = chunk
        .instructions
        .iter()
        .filter(|i| matches!(i, Instruction::JumpIfFalse(_) | Instruction::Jump(_)))
        .count();

    assert!(jump_count >= 4);
}

#[test]
fn test_error_display() {
    let err1 = CompileError::UndefinedVariable("foo".to_string());
    assert_eq!(err1.message(), "Undefined variable: foo");

    let err2 = CompileError::TooManyConstants;
    assert_eq!(err2.message(), format!("Too many constants (max {})", u16::MAX));

    let err3 = CompileError::TooManyLocals;
    assert_eq!(
        err3.message(),
        format!("Too many local variables (max {})", u8::MAX)
    );

    let err4 = CompileError::InvalidJumpOffset;
    assert_eq!(err4.message(), "Jump offset too large");

    let err5 = CompileError::UnsupportedFloat;
    assert_eq!(err5.message(), "Float operations not supported in Phase 1");
}

#[test]
fn test_complex_expression_fibonacci_like() {
    let expr = Expr::Let {
        name: "a".to_string(),
        value: Box::new(Expr::Lit(Literal::Int(1))),
        body: Box::new(Expr::Let {
            name: "b".to_string(),
            value: Box::new(Expr::Lit(Literal::Int(2))),
            body: Box::new(Expr::BinOp {
                op: BinOp::Add,
                left: Box::new(Expr::Var("a".to_string())),
                right: Box::new(Expr::Var("b".to_string())),
            }),
        }),
    };

    let result = Compiler::compile(&expr);
    assert!(result.is_ok());
}

#[test]
fn test_complex_expression_conditional_arithmetic() {
    let expr = Expr::Let {
        name: "x".to_string(),
        value: Box::new(Expr::Lit(Literal::Int(10))),
        body: Box::new(Expr::If {
            cond: Box::new(Expr::BinOp {
                op: BinOp::Gt,
                left: Box::new(Expr::Var("x".to_string())),
                right: Box::new(Expr::Lit(Literal::Int(5))),
            }),
            then_branch: Box::new(Expr::BinOp {
                op: BinOp::Mul,
                left: Box::new(Expr::Var("x".to_string())),
                right: Box::new(Expr::Lit(Literal::Int(2))),
            }),
            else_branch: Box::new(Expr::BinOp {
                op: BinOp::Add,
                left: Box::new(Expr::Var("x".to_string())),
                right: Box::new(Expr::Lit(Literal::Int(1))),
            }),
        }),
    };

    let result = Compiler::compile(&expr);
    assert!(result.is_ok());
}

#[test]
fn test_constant_pool_deduplication() {
    // The pool keeps stable indices; duplicates are allowed and each
    // literal gets its own slot.
    let expr = Expr::BinOp {
        op: BinOp::Add,
        left: Box::new(Expr::Lit(Literal::Int(42))),
        right: Box::new(Expr::Lit(Literal::Int(42))),
    };
    let chunk = Compiler::compile(&expr).unwrap();

    assert_eq!(chunk.constants[0], Value::Int(42));
}
