//! Syntax model: the abstract syntax tree handed over by an external parser,
//! and the constant folder that rewrites expression trees before lowering.

use crate::ir::Constructor;
use crate::CompileError;
use vstd::prelude::*;

verus! {

/// A compiled unit: an ordered list of global symbols.
#[derive(Debug)]
pub struct Ast {
    pub obj: Vec<GlobalObj>,
}

/// A global symbol: a value declaration or a function.
#[derive(Debug)]
pub enum GlobalObj {
    Decl(Decl),
    Func(Func),
}

/// A declaration of one or more constants or variables.
#[derive(Debug)]
pub enum Decl {
    Const(Type, Vec<Init>),
    Var(Type, Vec<Init>),
}

/// One named initializer of a declaration.
#[derive(Debug)]
pub struct Init {
    pub name: String,
    pub value: Option<Expr>,
}

/// A function definition. All functions are global.
#[derive(Debug)]
pub struct Func {
    pub name: String,
    pub params: Vec<Param>,
    pub body: Block,
    pub ty: Type,
}

/// A typed, named parameter.
#[derive(Debug)]
pub struct Param {
    pub name: String,
    pub ty: Type,
}

/// An ordered statement list forming a function body.
#[derive(Debug)]
pub struct Block {
    pub stmts: Vec<Stmt>,
}

/// The declared type of a value or of a function result.
#[derive(Clone, Copy, Debug, PartialEq, Eq, Structural)]
pub enum Type {
    Int,
    Void,
}

/// A statement. Only `return` exists in the current feature set.
#[derive(Debug)]
pub enum Stmt {
    Return(Expr),
}

/// A leaf expression: an integer literal or a named reference.
#[derive(Debug)]
pub enum Value {
    Num(i32),
    LVal(String),
}

/// An expression tree.
#[derive(Debug)]
pub enum Expr {
    Value(Value),
    Binary(MultiOp, Box<Expr>, Box<Expr>),
    Unary(UnaryOp, Box<Expr>),
}

/// The binary operators. Folding evaluates all of them; lowering supports
/// only the five arithmetic ones.
#[derive(Clone, Copy, Debug, PartialEq, Eq, Structural)]
pub enum MultiOp {
    Add,
    Sub,
    Mul,
    Div,
    Mod,
    And,
    Or,
    Eq,
    Ne,
    Lt,
    Gt,
    Le,
    Ge,
}

/// The unary operators.
#[derive(Clone, Copy, Debug, PartialEq, Eq, Structural)]
pub enum UnaryOp {
    Not,
    Neg,
    Pos,
}

impl Clone for Param {
    fn clone(&self) -> (r: Param)
        ensures
            r == *self,
    {
        Param { name: self.name.clone(), ty: self.ty }
    }
}

/// Whether `x` is representable as a 32-bit signed integer.
pub open spec fn in_i32(x: int) -> bool {
    i32::MIN <= x <= i32::MAX
}

/// Clamp a mathematical result into the value domain: out-of-range folding
/// results are an arithmetic error, never a wrapped number.
pub open spec fn chk(x: int) -> Result<i32, CompileError> {
    if in_i32(x) {
        Ok(x as i32)
    } else {
        Err(CompileError::Overflow)
    }
}

pub open spec fn abs_int(x: int) -> int {
    if x < 0 {
        -x
    } else {
        x
    }
}

/// Truncating (toward zero) division, the C semantics of `/`.
pub open spec fn tdiv(a: int, b: int) -> int
    recommends
        b != 0,
{
    if (a < 0) == (b < 0) {
        abs_int(a) / abs_int(b)
    } else {
        -(abs_int(a) / abs_int(b))
    }
}

/// Truncating remainder, the C semantics of `%`: it takes the dividend's
/// sign and satisfies `b * tdiv(a, b) + tmod(a, b) == a`.
pub open spec fn tmod(a: int, b: int) -> int
    recommends
        b != 0,
{
    if a < 0 {
        -(abs_int(a) % abs_int(b))
    } else {
        abs_int(a) % abs_int(b)
    }
}

/// C-style truthiness: logical and relational results are normalized to 0/1.
pub open spec fn bool_to_i32(b: bool) -> i32 {
    if b {
        1i32
    } else {
        0i32
    }
}

/// Compile-time evaluation of one binary operator on two literals, with
/// exact 32-bit signed semantics.
pub open spec fn spec_eval_binary(op: MultiOp, a: i32, b: i32) -> Result<i32, CompileError> {
    match op {
        MultiOp::Add => chk(a + b),
        MultiOp::Sub => chk(a - b),
        MultiOp::Mul => chk(a * b),
        MultiOp::Div => if b == 0 {
            Err(CompileError::DivisionByZero)
        } else {
            chk(tdiv(a as int, b as int))
        },
        MultiOp::Mod => if b == 0 {
            Err(CompileError::DivisionByZero)
        } else {
            chk(tmod(a as int, b as int))
        },
        MultiOp::And => Ok(bool_to_i32(a != 0 && b != 0)),
        MultiOp::Or => Ok(bool_to_i32(a != 0 || b != 0)),
        MultiOp::Eq => Ok(bool_to_i32(a == b)),
        MultiOp::Ne => Ok(bool_to_i32(a != b)),
        MultiOp::Lt => Ok(bool_to_i32(a < b)),
        MultiOp::Gt => Ok(bool_to_i32(a > b)),
        MultiOp::Le => Ok(bool_to_i32(a <= b)),
        MultiOp::Ge => Ok(bool_to_i32(a >= b)),
    }
}

/// Compile-time evaluation of one unary operator on a literal.
pub open spec fn spec_eval_unary(op: UnaryOp, a: i32) -> Result<i32, CompileError> {
    match op {
        UnaryOp::Neg => chk(-(a as int)),
        UnaryOp::Not => Ok(bool_to_i32(a == 0)),
        UnaryOp::Pos => Ok(a),
    }
}

/// Whether an expression is a fully folded integer literal.
pub open spec fn is_literal(e: Expr) -> bool {
    e matches Expr::Value(Value::Num(_))
}

/// The folding semantics: what `Expr::reduce` returns for every expression,
/// given the table of known constants. A literal reduces to itself; a named
/// reference reduces to a literal exactly when the name is a known constant;
/// an operator node whose reduced operands are all literals is evaluated at
/// compile time; anything else is returned partially reduced.
pub open spec fn spec_reduce(e: Expr, consts: Map<Seq<char>, i32>) -> Result<Expr, CompileError>
    decreases e,
{
    match e {
        Expr::Value(Value::Num(_)) => Ok(e),
        Expr::Value(Value::LVal(name)) => if consts.contains_key(name@) {
            Ok(Expr::Value(Value::Num(consts[name@])))
        } else {
            Ok(e)
        },
        Expr::Binary(op, lhs, rhs) => match spec_reduce(*lhs, consts) {
            Err(er) => Err(er),
            Ok(l2) => match spec_reduce(*rhs, consts) {
                Err(er) => Err(er),
                Ok(r2) => match (l2, r2) {
                    (Expr::Value(Value::Num(a)), Expr::Value(Value::Num(b))) => match spec_eval_binary(op, a, b) {
                        Ok(v) => Ok(Expr::Value(Value::Num(v))),
                        Err(er) => Err(er),
                    },
                    (l3, r3) => Ok(Expr::Binary(op, Box::new(l3), Box::new(r3))),
                },
            },
        },
        Expr::Unary(op, inner) => match spec_reduce(*inner, consts) {
            Err(er) => Err(er),
            Ok(i2) => match i2 {
                Expr::Value(Value::Num(a)) => match spec_eval_unary(op, a) {
                    Ok(v) => Ok(Expr::Value(Value::Num(v))),
                    Err(er) => Err(er),
                },
                other => Ok(Expr::Unary(op, Box::new(other))),
            },
        },
    }
}

/// Evaluate one binary operator on two literal operands.
pub fn eval_binary(op: MultiOp, a: i32, b: i32) -> (r: Result<i32, CompileError>)
    ensures
        r == spec_eval_binary(op, a, b),
{
    match op {
        MultiOp::Add => clamp_i64(a as i64 + b as i64),
        MultiOp::Sub => clamp_i64(a as i64 - b as i64),
        MultiOp::Mul => {
            proof {
                assert((a as int) * (b as int) <= 0x8000_0000 * 0x8000_0000
                    && (a as int) * (b as int) >= -(0x8000_0000 * 0x8000_0000)) by (nonlinear_arith)
                    requires
                        -0x8000_0000 <= a as int <= 0x7fff_ffff,
                        -0x8000_0000 <= b as int <= 0x7fff_ffff,
                ;
            }
            clamp_i64((a as i64) * (b as i64))
        },
        MultiOp::Div => {
            if b == 0 {
                Err(CompileError::DivisionByZero)
            } else {
                div_trunc(a, b)
            }
        },
        MultiOp::Mod => {
            if b == 0 {
                Err(CompileError::DivisionByZero)
            } else {
                mod_trunc(a, b)
            }
        },
        MultiOp::And => Ok(if a != 0 && b != 0 { 1i32 } else { 0i32 }),
        MultiOp::Or => Ok(if a != 0 || b != 0 { 1i32 } else { 0i32 }),
        MultiOp::Eq => Ok(if a == b { 1i32 } else { 0i32 }),
        MultiOp::Ne => Ok(if a != b { 1i32 } else { 0i32 }),
        MultiOp::Lt => Ok(if a < b { 1i32 } else { 0i32 }),
        MultiOp::Gt => Ok(if a > b { 1i32 } else { 0i32 }),
        MultiOp::Le => Ok(if a <= b { 1i32 } else { 0i32 }),
        MultiOp::Ge => Ok(if a >= b { 1i32 } else { 0i32 }),
    }
}

/// Evaluate one unary operator on a literal operand.
pub fn eval_unary(op: UnaryOp, a: i32) -> (r: Result<i32, CompileError>)
    ensures
        r == spec_eval_unary(op, a),
{
    match op {
        UnaryOp::Neg => clamp_i64(-(a as i64)),
        UnaryOp::Not => Ok(if a == 0 { 1i32 } else { 0i32 }),
        UnaryOp::Pos => Ok(a),
    }
}

/// Narrow an exact 64-bit intermediate back into the 32-bit value domain.
fn clamp_i64(x: i64) -> (r: Result<i32, CompileError>)
    ensures
        r == chk(x as int),
{
    if i32::MIN as i64 <= x && x <= i32::MAX as i64 {
        Ok(x as i32)
    } else {
        Err(CompileError::Overflow)
    }
}

/// The magnitude of a 32-bit value, exact even for `i32::MIN`.
fn magnitude(a: i32) -> (m: u64)
    ensures
        m as int == abs_int(a as int),
{
    if a < 0 {
        (-(a as i64)) as u64
    } else {
        a as u64
    }
}

/// Truncating division on magnitudes, with the sign applied afterwards.
fn div_trunc(a: i32, b: i32) -> (r: Result<i32, CompileError>)
    requires
        b != 0,
    ensures
        r == chk(tdiv(a as int, b as int)),
{
    let ma: u64 = magnitude(a);
    let mb: u64 = magnitude(b);
    let q: u64 = ma / mb;
    proof {
        assert(q as int <= ma as int) by (nonlinear_arith)
            requires
                q as int == ma as int / mb as int,
                mb as int >= 1,
                ma as int >= 0,
        ;
    }
    if (a < 0) == (b < 0) {
        if q <= i32::MAX as u64 {
            Ok(q as i32)
        } else {
            Err(CompileError::Overflow)
        }
    } else {
        Ok((-(q as i64)) as i32)
    }
}

/// Truncating remainder on magnitudes, with the dividend's sign applied.
fn mod_trunc(a: i32, b: i32) -> (r: Result<i32, CompileError>)
    requires
        b != 0,
    ensures
        r == chk(tmod(a as int, b as int)),
{
    let ma: u64 = magnitude(a);
    let mb: u64 = magnitude(b);
    let m: u64 = ma % mb;
    if a < 0 {
        Ok((-(m as i64)) as i32)
    } else {
        Ok(m as i32)
    }
}

impl Expr {
    /// Whether this expression is a fully folded integer literal.
    pub fn is_num(&self) -> (r: bool)
        ensures
            r == is_literal(*self),
    {
        match self {
            Expr::Value(Value::Num(_)) => true,
            _ => false,
        }
    }

    /// Fold this expression as far as the constant table allows. Pure: the
    /// result is a fresh tree and the constructor is only read.
    pub fn reduce(&self, constructor: &Constructor) -> (r: Result<Expr, CompileError>)
        ensures
            r == spec_reduce(*self, constructor@.consts),
        decreases *self,
    {
        match self {
            Expr::Value(Value::Num(n)) => Ok(Expr::Value(Value::Num(*n))),
            Expr::Value(Value::LVal(name)) => match constructor.get_const_val(name) {
                Some(v) => Ok(Expr::Value(Value::Num(v))),
                None => Ok(Expr::Value(Value::LVal(name.clone()))),
            },
            Expr::Binary(op, lhs, rhs) => {
                let l2 = match lhs.reduce(constructor) {
                    Ok(x) => x,
                    Err(er) => {
                        return Err(er);
                    },
                };
                let r2 = match rhs.reduce(constructor) {
                    Ok(x) => x,
                    Err(er) => {
                        return Err(er);
                    },
                };
                match (l2, r2) {
                    (Expr::Value(Value::Num(a)), Expr::Value(Value::Num(b))) => match eval_binary(
                        *op,
                        a,
                        b,
                    ) {
                        Ok(v) => Ok(Expr::Value(Value::Num(v))),
                        Err(er) => Err(er),
                    },
                    (l3, r3) => Ok(Expr::Binary(*op, Box::new(l3), Box::new(r3))),
                }
            },
            Expr::Unary(op, inner) => {
                let i2 = match inner.reduce(constructor) {
                    Ok(x) => x,
                    Err(er) => {
                        return Err(er);
                    },
                };
                match i2 {
                    Expr::Value(Value::Num(a)) => match eval_unary(*op, a) {
                        Ok(v) => Ok(Expr::Value(Value::Num(v))),
                        Err(er) => Err(er),
                    },
                    other => Ok(Expr::Unary(*op, Box::new(other))),
                }
            },
        }
    }
}


/// A literal expression.
pub open spec fn lit(n: i32) -> Expr {
    Expr::Value(Value::Num(n))
}

/// A binary operator applied to two literals.
pub open spec fn bin(op: MultiOp, a: i32, b: i32) -> Expr {
    Expr::Binary(op, Box::new(lit(a)), Box::new(lit(b)))
}

/// Law: folding is idempotent. Whatever `reduce` returns successfully is a
/// fixpoint: folding it again, under the same constant table, changes
/// nothing.
pub proof fn lemma_reduce_idempotent(e: Expr, consts: Map<Seq<char>, i32>)
    ensures
        spec_reduce(e, consts) matches Ok(e2) ==> spec_reduce(e2, consts) == Ok::<
            Expr,
            CompileError,
        >(e2),
    decreases e,
{
    match e {
        Expr::Value(_) => {
        },
        Expr::Binary(_, lhs, rhs) => {
            lemma_reduce_idempotent(*lhs, consts);
            lemma_reduce_idempotent(*rhs, consts);
        },
        Expr::Unary(_, inner) => {
            lemma_reduce_idempotent(*inner, consts);
        },
    }
}

/// Law: folding is sound for literals. For literal operands the folder
/// returns exactly the 32-bit result of the operator: wrapping-free
/// arithmetic (out-of-range sums, differences and products are rejected as
/// overflow), truncating division and remainder with a zero divisor
/// rejected, and 0/1-normalized logical and relational results.
pub proof fn lemma_reduce_literal_binary(op: MultiOp, a: i32, b: i32, consts: Map<Seq<char>, i32>)
    ensures
        op == MultiOp::Add ==> spec_reduce(bin(op, a, b), consts) == (if in_i32(a + b) {
            Ok::<Expr, CompileError>(lit((a + b) as i32))
        } else {
            Err::<Expr, CompileError>(CompileError::Overflow)
        }),
        op == MultiOp::Sub ==> spec_reduce(bin(op, a, b), consts) == (if in_i32(a - b) {
            Ok::<Expr, CompileError>(lit((a - b) as i32))
        } else {
            Err::<Expr, CompileError>(CompileError::Overflow)
        }),
        op == MultiOp::Mul ==> spec_reduce(bin(op, a, b), consts) == (if in_i32(a * b) {
            Ok::<Expr, CompileError>(lit((a * b) as i32))
        } else {
            Err::<Expr, CompileError>(CompileError::Overflow)
        }),
        op == MultiOp::Div && b != 0 ==> spec_reduce(bin(op, a, b), consts) == (if in_i32(
            tdiv(a as int, b as int),
        ) {
            Ok::<Expr, CompileError>(lit(tdiv(a as int, b as int) as i32))
        } else {
            Err::<Expr, CompileError>(CompileError::Overflow)
        }),
        op == MultiOp::Mod && b != 0 ==> spec_reduce(bin(op, a, b), consts) == Ok::<
            Expr,
            CompileError,
        >(lit(tmod(a as int, b as int) as i32)),
        op == MultiOp::And ==> spec_reduce(bin(op, a, b), consts) == Ok::<Expr, CompileError>(
            lit(bool_to_i32(a != 0 && b != 0)),
        ),
        op == MultiOp::Or ==> spec_reduce(bin(op, a, b), consts) == Ok::<Expr, CompileError>(
            lit(bool_to_i32(a != 0 || b != 0)),
        ),
        op == MultiOp::Eq ==> spec_reduce(bin(op, a, b), consts) == Ok::<Expr, CompileError>(
            lit(bool_to_i32(a == b)),
        ),
        op == MultiOp::Ne ==> spec_reduce(bin(op, a, b), consts) == Ok::<Expr, CompileError>(
            lit(bool_to_i32(a != b)),
        ),
        op == MultiOp::Lt ==> spec_reduce(bin(op, a, b), consts) == Ok::<Expr, CompileError>(
            lit(bool_to_i32(a < b)),
        ),
        op == MultiOp::Gt ==> spec_reduce(bin(op, a, b), consts) == Ok::<Expr, CompileError>(
            lit(bool_to_i32(a > b)),
        ),
        op == MultiOp::Le ==> spec_reduce(bin(op, a, b), consts) == Ok::<Expr, CompileError>(
            lit(bool_to_i32(a <= b)),
        ),
        op == MultiOp::Ge ==> spec_reduce(bin(op, a, b), consts) == Ok::<Expr, CompileError>(
            lit(bool_to_i32(a >= b)),
        ),
{
    reveal_with_fuel(spec_reduce, 3);
    if op == MultiOp::Mod && b != 0 {
        lemma_tmod_in_range(a as int, b as int);
    }
}

/// Law: the unary operators on a literal fold to negation (rejected only
/// when it leaves the 32-bit range), 0/1-normalized logical not, and
/// identity.
pub proof fn lemma_reduce_literal_unary(op: UnaryOp, a: i32, consts: Map<Seq<char>, i32>)
    ensures
        op == UnaryOp::Neg ==> spec_reduce(Expr::Unary(op, Box::new(lit(a))), consts) == (
        if in_i32(-(a as int)) {
            Ok::<Expr, CompileError>(lit((-(a as int)) as i32))
        } else {
            Err::<Expr, CompileError>(CompileError::Overflow)
        }),
        op == UnaryOp::Not ==> spec_reduce(Expr::Unary(op, Box::new(lit(a))), consts) == Ok::<
            Expr,
            CompileError,
        >(lit(bool_to_i32(a == 0))),
        op == UnaryOp::Pos ==> spec_reduce(Expr::Unary(op, Box::new(lit(a))), consts) == Ok::<
            Expr,
            CompileError,
        >(lit(a)),
{
    reveal_with_fuel(spec_reduce, 3);
}

/// Law: division and modulo by a zero divisor are rejected with the
/// arithmetic error, for every dividend; the folder never makes up a value
/// for them.
pub proof fn lemma_div_mod_by_zero_rejected(a: i32, consts: Map<Seq<char>, i32>)
    ensures
        spec_reduce(bin(MultiOp::Div, a, 0), consts) == Err::<Expr, CompileError>(
            CompileError::DivisionByZero,
        ),
        spec_reduce(bin(MultiOp::Mod, a, 0), consts) == Err::<Expr, CompileError>(
            CompileError::DivisionByZero,
        ),
{
    reveal_with_fuel(spec_reduce, 3);
}


/// Law: truncating division and remainder satisfy the defining identity of
/// the C operators: `b * (a / b) + a % b == a`.
pub proof fn lemma_tdiv_tmod_identity(a: int, b: int)
    requires
        b != 0,
    ensures
        b * tdiv(a, b) + tmod(a, b) == a,
{
    let ma = abs_int(a);
    let mb = abs_int(b);
    let q = ma / mb;
    let r = ma % mb;
    vstd::arithmetic::div_mod::lemma_fundamental_div_mod(ma, mb);
    assert(ma == mb * q + r);
    if a >= 0 && b > 0 {
        assert(b * tdiv(a, b) + tmod(a, b) == a);
    } else if a >= 0 && b < 0 {
        assert(b * (-q) == mb * q) by (nonlinear_arith)
            requires
                b == -mb,
        ;
    } else if a < 0 && b > 0 {
        assert(b * (-q) == -(mb * q)) by (nonlinear_arith)
            requires
                b == mb,
        ;
    } else {
        assert(b * q == -(mb * q)) by (nonlinear_arith)
            requires
                b == -mb,
        ;
    }
}

/// The truncating remainder of 32-bit values always fits: its magnitude is
/// below the divisor's.
proof fn lemma_tmod_in_range(a: int, b: int)
    requires
        in_i32(a),
        in_i32(b),
        b != 0,
    ensures
        in_i32(tmod(a, b)),
{
    let ma = abs_int(a);
    let mb = abs_int(b);
    assert(0 <= ma % mb < mb) by (nonlinear_arith)
        requires
            mb > 0,
            ma >= 0,
    ;
}

} // verus!
