//! The constant folder on concrete inputs: arithmetic, truncation,
//! 0/1-normalized logic, idempotence, and the rejected cases.

use sysyc::ast::{Expr, MultiOp, UnaryOp, Value};
use sysyc::ir::Constructor;
use sysyc::CompileError;

fn num(n: i32) -> Expr {
    Expr::Value(Value::Num(n))
}

fn lval(name: &str) -> Expr {
    Expr::Value(Value::LVal(name.to_string()))
}

fn bin(op: MultiOp, l: Expr, r: Expr) -> Expr {
    Expr::Binary(op, Box::new(l), Box::new(r))
}

fn un(op: UnaryOp, e: Expr) -> Expr {
    Expr::Unary(op, Box::new(e))
}

fn fold(e: &Expr) -> Result<Expr, CompileError> {
    let c = Constructor::new();
    e.reduce(&c)
}

fn fold_num(e: &Expr) -> i32 {
    match fold(e) {
        Ok(Expr::Value(Value::Num(n))) => n,
        other => panic!("expected a literal, got {:?}", other),
    }
}

fn fold_err(e: &Expr) -> CompileError {
    match fold(e) {
        Err(err) => err,
        other => panic!("expected an error, got {:?}", other),
    }
}

#[test]
fn fold_arithmetic_literals() {
    assert_eq!(fold_num(&bin(MultiOp::Add, num(2), num(3))), 5);
    assert_eq!(fold_num(&bin(MultiOp::Sub, num(2), num(5))), -3);
    assert_eq!(fold_num(&bin(MultiOp::Mul, num(-4), num(6))), -24);
    assert_eq!(fold_num(&bin(MultiOp::Div, num(20), num(4))), 5);
    assert_eq!(fold_num(&bin(MultiOp::Mod, num(20), num(6))), 2);
}

#[test]
fn fold_division_truncates_toward_zero() {
    assert_eq!(fold_num(&bin(MultiOp::Div, num(7), num(-2))), -3);
    assert_eq!(fold_num(&bin(MultiOp::Div, num(-7), num(2))), -3);
    assert_eq!(fold_num(&bin(MultiOp::Div, num(-7), num(-2))), 3);
    assert_eq!(fold_num(&bin(MultiOp::Mod, num(-7), num(2))), -1);
    assert_eq!(fold_num(&bin(MultiOp::Mod, num(7), num(-2))), 1);
    assert_eq!(fold_num(&bin(MultiOp::Mod, num(-7), num(-2))), -1);
}

#[test]
fn fold_logic_is_zero_one_normalized() {
    assert_eq!(fold_num(&bin(MultiOp::And, num(3), num(-2))), 1);
    assert_eq!(fold_num(&bin(MultiOp::And, num(3), num(0))), 0);
    assert_eq!(fold_num(&bin(MultiOp::Or, num(0), num(9))), 1);
    assert_eq!(fold_num(&bin(MultiOp::Or, num(0), num(0))), 0);
}

#[test]
fn fold_relational_results() {
    assert_eq!(fold_num(&bin(MultiOp::Eq, num(4), num(4))), 1);
    assert_eq!(fold_num(&bin(MultiOp::Ne, num(4), num(4))), 0);
    assert_eq!(fold_num(&bin(MultiOp::Lt, num(3), num(4))), 1);
    assert_eq!(fold_num(&bin(MultiOp::Gt, num(3), num(4))), 0);
    assert_eq!(fold_num(&bin(MultiOp::Le, num(4), num(4))), 1);
    assert_eq!(fold_num(&bin(MultiOp::Ge, num(3), num(4))), 0);
}

#[test]
fn fold_unary_semantics() {
    assert_eq!(fold_num(&un(UnaryOp::Neg, num(5))), -5);
    assert_eq!(fold_num(&un(UnaryOp::Not, num(0))), 1);
    assert_eq!(fold_num(&un(UnaryOp::Not, num(7))), 0);
    assert_eq!(fold_num(&un(UnaryOp::Pos, num(5))), 5);
}

#[test]
fn fold_division_by_zero_is_rejected() {
    assert_eq!(
        fold_err(&bin(MultiOp::Div, num(17), num(0))),
        CompileError::DivisionByZero
    );
    assert_eq!(
        fold_err(&bin(MultiOp::Mod, num(17), num(0))),
        CompileError::DivisionByZero
    );
    assert_eq!(
        fold_err(&bin(MultiOp::Div, num(0), num(0))),
        CompileError::DivisionByZero
    );
}

#[test]
fn fold_overflow_is_rejected() {
    assert_eq!(
        fold_err(&bin(MultiOp::Add, num(i32::MAX), num(1))),
        CompileError::Overflow
    );
    assert_eq!(
        fold_err(&bin(MultiOp::Sub, num(i32::MIN), num(1))),
        CompileError::Overflow
    );
    assert_eq!(
        fold_err(&bin(MultiOp::Mul, num(1 << 20), num(1 << 20))),
        CompileError::Overflow
    );
    assert_eq!(
        fold_err(&bin(MultiOp::Div, num(i32::MIN), num(-1))),
        CompileError::Overflow
    );
    assert_eq!(fold_err(&un(UnaryOp::Neg, num(i32::MIN))), CompileError::Overflow);
}

#[test]
fn fold_min_mod_minus_one_is_zero() {
    assert_eq!(fold_num(&bin(MultiOp::Mod, num(i32::MIN), num(-1))), 0);
}

#[test]
fn fold_nested_expression() {
    // (2 + 3) * -(4) == -20
    let e = bin(
        MultiOp::Mul,
        bin(MultiOp::Add, num(2), num(3)),
        un(UnaryOp::Neg, num(4)),
    );
    assert_eq!(fold_num(&e), -20);
}

#[test]
fn fold_is_idempotent_on_literals() {
    let once = fold(&bin(MultiOp::Add, num(2), num(3))).unwrap();
    assert_eq!(fold_num(&once), 5);
}

#[test]
fn fold_leaves_unknown_reference_alone() {
    let once = fold(&lval("x")).unwrap();
    match &once {
        Expr::Value(Value::LVal(name)) => assert_eq!(name, "x"),
        other => panic!("expected the reference back, got {:?}", other),
    }
    // folding the already folded expression changes nothing
    let twice = fold(&once).unwrap();
    match twice {
        Expr::Value(Value::LVal(name)) => assert_eq!(name, "x"),
        other => panic!("expected the reference back, got {:?}", other),
    }
}

#[test]
fn fold_partially_reduces_mixed_expression() {
    // x + (1 + 2) keeps the reference but folds the right operand
    let e = bin(MultiOp::Add, lval("x"), bin(MultiOp::Add, num(1), num(2)));
    match fold(&e).unwrap() {
        Expr::Binary(MultiOp::Add, l, r) => {
            assert!(matches!(*l, Expr::Value(Value::LVal(_))));
            assert!(matches!(*r, Expr::Value(Value::Num(3))));
        },
        other => panic!("expected a partially folded tree, got {:?}", other),
    }
}

#[test]
fn is_num_recognizes_literals_only() {
    assert!(num(3).is_num());
    assert!(!lval("x").is_num());
    assert!(!bin(MultiOp::Add, num(1), num(2)).is_num());
}
