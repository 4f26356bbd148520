use task_shell::arithmetic::{
    apply_binary_op, apply_conditional_binary_op, apply_unary_op, evaluate_arithmetic,
    execute_arithmetic_expression, ArithmeticError, ArithmeticResult, ArithmeticValue,
};
use task_shell::state::ShellState;
use task_shell::syntax::{
    Arithmetic, ArithmeticPart, AssignmentOp, BinaryArithmeticOp, BinaryOp, PostArithmeticOp,
    UnaryArithmeticOp,
};
use task_shell::types::EnvChange;

fn value(n: i64) -> ArithmeticResult {
    ArithmeticResult::new(ArithmeticValue::Integer(n))
}

fn binary(l: i64, op: BinaryArithmeticOp, r: i64) -> Result<i64, String> {
    match apply_binary_op(value(l), op, value(r)) {
        Ok(v) => Ok(v.number()),
        Err(e) => Err(e.message()),
    }
}

fn state() -> ShellState {
    ShellState::new(
        vec![("n".to_string(), "6".to_string()), ("word".to_string(), "abc".to_string())],
        "/".to_string(),
        false,
        false,
    )
}

fn number(n: i64) -> Box<ArithmeticPart> {
    Box::new(ArithmeticPart::Number(n.to_string()))
}

fn variable(name: &str) -> Box<ArithmeticPart> {
    Box::new(ArithmeticPart::Variable(name.to_string()))
}

fn evaluate(part: ArithmeticPart, state: &mut ShellState) -> Result<i64, String> {
    match execute_arithmetic_expression(&Arithmetic { parts: vec![part] }, state) {
        Ok(v) => Ok(v.number()),
        Err(e) => Err(e.message()),
    }
}

#[test]
fn binary_operators_compute() {
    assert_eq!(binary(7, BinaryArithmeticOp::Add, -2), Ok(5));
    assert_eq!(binary(7, BinaryArithmeticOp::Subtract, 9), Ok(-2));
    assert_eq!(binary(-7, BinaryArithmeticOp::Multiply, 6), Ok(-42));
    assert_eq!(binary(-7, BinaryArithmeticOp::Divide, 2), Ok(-3));
    assert_eq!(binary(-7, BinaryArithmeticOp::Modulo, 2), Ok(-1));
    assert_eq!(binary(7, BinaryArithmeticOp::Modulo, -2), Ok(1));
    assert_eq!(binary(-2, BinaryArithmeticOp::Power, 3), Ok(-8));
    assert_eq!(binary(2, BinaryArithmeticOp::Power, 0), Ok(1));
    assert_eq!(binary(1, BinaryArithmeticOp::LeftShift, 5), Ok(32));
    assert_eq!(binary(-8, BinaryArithmeticOp::RightShift, 1), Ok(-4));
    assert_eq!(binary(12, BinaryArithmeticOp::BitwiseAnd, 10), Ok(8));
    assert_eq!(binary(12, BinaryArithmeticOp::BitwiseXor, 10), Ok(6));
    assert_eq!(binary(12, BinaryArithmeticOp::BitwiseOr, 10), Ok(14));
}

#[test]
fn quotient_and_remainder_belong_together() {
    for a in [-7, 0, 7, 13] {
        for b in [-3, -1, 2, 5] {
            let q = binary(a, BinaryArithmeticOp::Divide, b).unwrap();
            let r = binary(a, BinaryArithmeticOp::Modulo, b).unwrap();
            assert_eq!(a, b * q + r);
        }
    }
}

#[test]
fn logical_operators_give_truth_values() {
    for l in [0, 3] {
        for r in [0, -2] {
            let any = i64::from(l != 0 || r != 0);
            assert_eq!(binary(l, BinaryArithmeticOp::LogicalAnd, r), Ok(any));
            assert_eq!(binary(l, BinaryArithmeticOp::LogicalOr, r), Ok(any));
        }
    }
    assert_eq!(apply_unary_op(UnaryArithmeticOp::LogicalNot, value(0)).unwrap().number(), 1);
    assert_eq!(apply_unary_op(UnaryArithmeticOp::LogicalNot, value(4)).unwrap().number(), 0);
}

#[test]
fn binary_operators_refuse() {
    assert_eq!(
        binary(i64::MAX, BinaryArithmeticOp::Add, 1),
        Err("Integer overflow".to_string())
    );
    assert_eq!(
        binary(i64::MIN, BinaryArithmeticOp::Subtract, 1),
        Err("Integer overflow".to_string())
    );
    assert_eq!(
        binary(i64::MAX, BinaryArithmeticOp::Multiply, 2),
        Err("Integer overflow".to_string())
    );
    assert_eq!(
        binary(10, BinaryArithmeticOp::Power, 19),
        Err("Integer overflow".to_string())
    );
    assert_eq!(
        binary(1, BinaryArithmeticOp::Divide, 0),
        Err("Division by zero".to_string())
    );
    assert_eq!(
        binary(1, BinaryArithmeticOp::Modulo, 0),
        Err("Division by zero".to_string())
    );
    assert_eq!(
        binary(2, BinaryArithmeticOp::Power, -1),
        Err("Negative exponent".to_string())
    );
    assert_eq!(
        binary(1, BinaryArithmeticOp::LeftShift, 64),
        Err("Shift amount out of range".to_string())
    );
    assert_eq!(
        binary(1, BinaryArithmeticOp::RightShift, -1),
        Err("Shift amount out of range".to_string())
    );
}

#[test]
fn unary_operators_compute() {
    assert_eq!(apply_unary_op(UnaryArithmeticOp::Plus, value(5)).unwrap().number(), 5);
    assert_eq!(apply_unary_op(UnaryArithmeticOp::Minus, value(5)).unwrap().number(), -5);
    assert_eq!(apply_unary_op(UnaryArithmeticOp::BitwiseNot, value(5)).unwrap().number(), -6);
    assert!(matches!(
        apply_unary_op(UnaryArithmeticOp::Minus, value(i64::MIN)),
        Err(ArithmeticError::Overflow)
    ));
}

#[test]
fn comparisons_give_truth_values() {
    let holds = |l: i64, op: BinaryOp, r: i64| {
        apply_conditional_binary_op(value(l), &op, value(r)).unwrap().number()
    };
    assert_eq!(holds(1, BinaryOp::Equal, 1), 1);
    assert_eq!(holds(1, BinaryOp::NotEqual, 1), 0);
    assert_eq!(holds(1, BinaryOp::LessThan, 2), 1);
    assert_eq!(holds(2, BinaryOp::LessThanOrEqual, 2), 1);
    assert_eq!(holds(1, BinaryOp::GreaterThan, 2), 0);
    assert_eq!(holds(1, BinaryOp::GreaterThanOrEqual, 2), 0);
}

#[test]
fn assigned_variable_reads_back() {
    let mut state = state();
    let assign = ArithmeticPart::VariableAssignment {
        name: "a".to_string(),
        op: AssignmentOp::Assign,
        value: number(41),
    };
    let result =
        evaluate_arithmetic(&Arithmetic { parts: vec![assign] }, &mut state).unwrap();
    assert_eq!(result.number(), 41);
    assert_eq!(
        result.changes,
        vec![EnvChange::SetShellVar("a".to_string(), "41".to_string())]
    );
    assert_eq!(evaluate(*variable("a"), &mut state), Ok(41));
}

#[test]
fn assignments_compute_in_place() {
    let mut state = state();
    let add = ArithmeticPart::VariableAssignment {
        name: "n".to_string(),
        op: AssignmentOp::AddAssign,
        value: number(4),
    };
    assert_eq!(evaluate(add, &mut state), Ok(10));
    assert_eq!(state.get_var("n").unwrap(), "10");
    let subtract = ArithmeticPart::VariableAssignment {
        name: "n".to_string(),
        op: AssignmentOp::SubtractAssign,
        value: number(3),
    };
    assert_eq!(evaluate(subtract, &mut state), Ok(-7));
}

#[test]
fn expressions_evaluate() {
    let mut state = state();
    let sum = ArithmeticPart::ParenthesesExpr(Box::new(Arithmetic {
        parts: vec![ArithmeticPart::BinaryArithmeticExpr {
            left: variable("n"),
            operator: BinaryArithmeticOp::Add,
            right: Box::new(ArithmeticPart::UnaryArithmeticExpr {
                operator: UnaryArithmeticOp::Minus,
                operand: number(2),
            }),
        }],
    }));
    assert_eq!(evaluate(sum, &mut state), Ok(4));
    let compare = ArithmeticPart::BinaryConditionalExpr {
        left: variable("n"),
        operator: BinaryOp::GreaterThan,
        right: number(5),
    };
    assert_eq!(evaluate(compare, &mut state), Ok(1));
    let choice = |condition: i64| ArithmeticPart::TripleConditionalExpr {
        condition: number(condition),
        true_expr: number(1),
        false_expr: number(2),
    };
    assert_eq!(evaluate(choice(0), &mut state), Ok(1));
    assert_eq!(evaluate(choice(5), &mut state), Ok(2));
    let several = execute_arithmetic_expression(
        &Arithmetic { parts: vec![*number(1), *number(2), *number(3)] },
        &mut state,
    );
    assert_eq!(several.unwrap().number(), 3);
}

#[test]
fn postfix_operators_give_the_variable() {
    let mut state = state();
    for operator in [PostArithmeticOp::Increment, PostArithmeticOp::Decrement] {
        let step = ArithmeticPart::PostArithmeticExpr { operand: variable("n"), operator };
        assert_eq!(evaluate(step, &mut state), Ok(6));
        assert_eq!(evaluate(*variable("n"), &mut state), Ok(6));
    }
}

#[test]
fn expressions_name_what_is_wrong() {
    let mut state = state();
    assert_eq!(
        evaluate(*variable("word"), &mut state),
        Err("Undefined or non-integer variable: word".to_string())
    );
    assert_eq!(
        evaluate(ArithmeticPart::Number("x1".to_string()), &mut state),
        Err("Invalid number: x1".to_string())
    );
    let in_place = |name: &str| ArithmeticPart::VariableAssignment {
        name: name.to_string(),
        op: AssignmentOp::AddAssign,
        value: number(1),
    };
    assert_eq!(
        evaluate(in_place("missing"), &mut state),
        Err("Undefined variable: missing".to_string())
    );
    assert_eq!(
        evaluate(in_place("word"), &mut state),
        Err("Failed to parse variable 'word': Invalid number: abc".to_string())
    );
}
