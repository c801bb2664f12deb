//! The whole pipeline on concrete units: lowering, constant propagation,
//! the emitted assembly text, and every rejection the builder owes.

use sysyc::ast::{Ast, Block, Decl, Expr, Func, GlobalObj, Init, MultiOp, Param, Stmt, Type,
    UnaryOp, Value};
use sysyc::codegen::assemble;
use sysyc::ir::{construct, BasicBlockData, Constructor, FunctionData, Program, ValueData};
use sysyc::CompileError;

fn num(n: i32) -> Expr {
    Expr::Value(Value::Num(n))
}

fn lval(name: &str) -> Expr {
    Expr::Value(Value::LVal(name.to_string()))
}

fn bin(op: MultiOp, l: Expr, r: Expr) -> Expr {
    Expr::Binary(op, Box::new(l), Box::new(r))
}

fn int_func(name: &str, params: Vec<Param>, body: Vec<Stmt>) -> GlobalObj {
    GlobalObj::Func(Func {
        name: name.to_string(),
        params,
        body: Block { stmts: body },
        ty: Type::Int,
    })
}

fn const_decl(name: &str, value: Expr) -> GlobalObj {
    GlobalObj::Decl(Decl::Const(
        Type::Int,
        vec![Init { name: name.to_string(), value: Some(value) }],
    ))
}

#[test]
fn return_zero_compiles_end_to_end() {
    // int main() { return 0; }
    let ast = Ast { obj: vec![int_func("main", vec![], vec![Stmt::Return(num(0))])] };
    let program = construct(&ast).unwrap();
    let text = assemble(&program).unwrap();
    assert_eq!(text, ".text\n.globl main\nmain:\n    li a0, 0\n    ret\n");
}

#[test]
fn const_propagation_reaches_the_assembly() {
    // const x = 2 + 3; int main() { return x * 4; }
    let ast = Ast {
        obj: vec![
            const_decl("x", bin(MultiOp::Add, num(2), num(3))),
            int_func(
                "main",
                vec![],
                vec![Stmt::Return(bin(MultiOp::Mul, lval("x"), num(4)))],
            ),
        ],
    };
    let program = construct(&ast).unwrap();
    let text = assemble(&program).unwrap();
    assert_eq!(text, ".text\n.globl main\nmain:\n    li a0, 20\n    ret\n");
}

#[test]
fn chained_constants_fold_through_the_table() {
    // const a = 1, b = a + 1; int main() { return b * b; }
    let ast = Ast {
        obj: vec![
            GlobalObj::Decl(Decl::Const(
                Type::Int,
                vec![
                    Init { name: "a".to_string(), value: Some(num(1)) },
                    Init {
                        name: "b".to_string(),
                        value: Some(bin(MultiOp::Add, lval("a"), num(1))),
                    },
                ],
            )),
            int_func(
                "main",
                vec![],
                vec![Stmt::Return(bin(MultiOp::Mul, lval("b"), lval("b")))],
            ),
        ],
    };
    let program = construct(&ast).unwrap();
    let text = assemble(&program).unwrap();
    assert_eq!(text, ".text\n.globl main\nmain:\n    li a0, 4\n    ret\n");
}

#[test]
fn functions_are_emitted_in_layout_order() {
    let ast = Ast {
        obj: vec![
            int_func("first", vec![], vec![Stmt::Return(num(1))]),
            int_func("second", vec![], vec![Stmt::Return(num(2))]),
        ],
    };
    let program = construct(&ast).unwrap();
    let text = assemble(&program).unwrap();
    assert_eq!(
        text,
        ".text\n.globl first\nfirst:\n    li a0, 1\n    ret\n.globl second\nsecond:\n    li a0, 2\n    ret\n"
    );
}

#[test]
fn negative_return_value_is_rendered_in_decimal() {
    let ast = Ast {
        obj: vec![int_func(
            "main",
            vec![],
            vec![Stmt::Return(Expr::Unary(UnaryOp::Neg, Box::new(num(2147483647))))],
        )],
    };
    let program = construct(&ast).unwrap();
    let text = assemble(&program).unwrap();
    assert_eq!(text, ".text\n.globl main\nmain:\n    li a0, -2147483647\n    ret\n");
}

#[test]
fn empty_unit_emits_only_the_text_header() {
    let ast = Ast { obj: vec![] };
    let program = construct(&ast).unwrap();
    assert_eq!(program.funcs.len(), 0);
    let text = assemble(&program).unwrap();
    assert_eq!(text, ".text\n");
}

#[test]
fn returning_a_parameter_is_an_expected_failure() {
    // int id(int x) { return x; } must fail, not emit wrong code
    let ast = Ast {
        obj: vec![int_func(
            "id",
            vec![Param { name: "x".to_string(), ty: Type::Int }],
            vec![Stmt::Return(lval("x"))],
        )],
    };
    assert!(matches!(construct(&ast), Err(CompileError::NonConstReference)));
}

#[test]
fn division_by_zero_aborts_construction() {
    let ast = Ast {
        obj: vec![int_func(
            "main",
            vec![],
            vec![Stmt::Return(bin(MultiOp::Div, num(1), num(0)))],
        )],
    };
    assert!(matches!(construct(&ast), Err(CompileError::DivisionByZero)));
}

#[test]
fn overflowing_const_initializer_aborts_construction() {
    let ast = Ast {
        obj: vec![
            const_decl("x", bin(MultiOp::Add, num(i32::MAX), num(1))),
            int_func("main", vec![], vec![Stmt::Return(lval("x"))]),
        ],
    };
    assert!(matches!(construct(&ast), Err(CompileError::Overflow)));
}

#[test]
fn non_constant_const_initializer_is_ill_formed() {
    let ast = Ast { obj: vec![const_decl("x", lval("y"))] };
    assert!(matches!(construct(&ast), Err(CompileError::IllFormedConst)));
}

#[test]
fn missing_const_initializer_is_ill_formed() {
    let ast = Ast {
        obj: vec![GlobalObj::Decl(Decl::Const(
            Type::Int,
            vec![Init { name: "x".to_string(), value: None }],
        ))],
    };
    assert!(matches!(construct(&ast), Err(CompileError::IllFormedConst)));
}

#[test]
fn global_variable_initializer_needs_a_function_context() {
    // var x = 5; appears before any function exists to own the value
    let ast = Ast {
        obj: vec![GlobalObj::Decl(Decl::Var(
            Type::Int,
            vec![Init { name: "x".to_string(), value: Some(num(5)) }],
        ))],
    };
    assert!(matches!(construct(&ast), Err(CompileError::NoFunctionContext)));
}

#[test]
fn uninitialized_variable_declaration_is_recorded() {
    let ast = Ast {
        obj: vec![
            GlobalObj::Decl(Decl::Var(
                Type::Int,
                vec![Init { name: "x".to_string(), value: None }],
            )),
            int_func("main", vec![], vec![Stmt::Return(num(0))]),
        ],
    };
    let program = construct(&ast).unwrap();
    assert_eq!(program.funcs.len(), 1);
}

#[test]
fn every_constructed_function_has_an_entry_block() {
    let ast = Ast {
        obj: vec![
            int_func("a", vec![], vec![Stmt::Return(num(1))]),
            int_func("b", vec![], vec![Stmt::Return(num(2))]),
        ],
    };
    let program = construct(&ast).unwrap();
    for f in &program.funcs {
        assert!(f.bbs.len() >= 1);
        let entry = &f.bbs[0];
        assert!(entry.insts.len() >= 1);
        let last = entry.insts[entry.insts.len() - 1];
        assert!(matches!(f.values[last], ValueData::Return(_)));
        for &i in &entry.insts[..entry.insts.len() - 1] {
            assert!(!matches!(f.values[i], ValueData::Return(_)));
        }
    }
}

#[test]
fn constant_table_lookup_follows_declarations() {
    let mut c = Constructor::new();
    let d = Decl::Const(
        Type::Int,
        vec![
            Init { name: "x".to_string(), value: Some(num(7)) },
            Init { name: "x".to_string(), value: Some(num(9)) },
        ],
    );
    d.construct(&mut c).unwrap();
    assert_eq!(c.get_const_val(&"x".to_string()), Some(9));
    assert_eq!(c.get_const_val(&"y".to_string()), None);
}

#[test]
fn bare_return_emits_only_ret() {
    let program = Program {
        funcs: vec![FunctionData {
            name: "@f".to_string(),
            params: vec![],
            ty: Type::Void,
            values: vec![ValueData::Return(None)],
            bbs: vec![BasicBlockData { name: "%entry".to_string(), insts: vec![0] }],
        }],
    };
    let text = assemble(&program).unwrap();
    assert_eq!(text, ".text\n.globl f\nf:\n    ret\n");
}

#[test]
fn non_literal_return_operand_is_rejected_by_codegen() {
    let program = Program {
        funcs: vec![FunctionData {
            name: "@f".to_string(),
            params: vec![],
            ty: Type::Int,
            values: vec![
                ValueData::Binary(MultiOp::Add, 0, 0),
                ValueData::Return(Some(0)),
            ],
            bbs: vec![BasicBlockData { name: "%entry".to_string(), insts: vec![1] }],
        }],
    };
    assert!(matches!(assemble(&program), Err(CompileError::NonLiteralReturn)));
}

#[test]
fn non_return_instruction_is_rejected_by_codegen() {
    let program = Program {
        funcs: vec![FunctionData {
            name: "@f".to_string(),
            params: vec![],
            ty: Type::Int,
            values: vec![ValueData::Integer(1)],
            bbs: vec![BasicBlockData { name: "%entry".to_string(), insts: vec![0] }],
        }],
    };
    assert!(matches!(assemble(&program), Err(CompileError::UnsupportedInstruction)));
}

#[test]
fn dangling_handle_is_rejected_by_codegen() {
    let program = Program {
        funcs: vec![FunctionData {
            name: "@f".to_string(),
            params: vec![],
            ty: Type::Int,
            values: vec![],
            bbs: vec![BasicBlockData { name: "%entry".to_string(), insts: vec![3] }],
        }],
    };
    assert!(matches!(assemble(&program), Err(CompileError::MalformedProgram)));
}

#[test]
fn unprefixed_function_name_is_rejected_by_codegen() {
    let program = Program {
        funcs: vec![FunctionData {
            name: "".to_string(),
            params: vec![],
            ty: Type::Int,
            values: vec![],
            bbs: vec![],
        }],
    };
    assert!(matches!(assemble(&program), Err(CompileError::MalformedProgram)));
}

#[test]
fn extreme_literals_render_exactly() {
    let program = Program {
        funcs: vec![FunctionData {
            name: "@f".to_string(),
            params: vec![],
            ty: Type::Int,
            values: vec![ValueData::Integer(i32::MIN), ValueData::Return(Some(0))],
            bbs: vec![BasicBlockData { name: "%entry".to_string(), insts: vec![1] }],
        }],
    };
    let text = assemble(&program).unwrap();
    assert_eq!(text, ".text\n.globl f\nf:\n    li a0, -2147483648\n    ret\n");
}
