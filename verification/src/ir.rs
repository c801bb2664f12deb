//! Intermediate representation and its builder: a handle-based SSA-style
//! program arena, populated from the syntax model in one pass.
//!
//! Handles are plain indices: a function's index in the program layout, a
//! value's index in its owning function's arena, a block's index in its
//! function's layout. Arenas only grow, so a handle is never reused and a
//! value's defining data, once allocated, is never changed.

use crate::ast::{is_literal, spec_reduce, Ast, Block, Decl, Expr, Func, GlobalObj, Init, MultiOp,
    Param, Stmt, Type, UnaryOp, Value};
use crate::CompileError;
use vstd::prelude::*;
use vstd::string::StringExecFns;

verus! {

/// A value of the IR: an integer literal, a binary instruction result, or a
/// return instruction. Blocks refer to instruction values by handle.
#[derive(Clone, Copy, Debug)]
pub enum ValueData {
    Integer(i32),
    Binary(MultiOp, usize, usize),
    Return(Option<usize>),
}

/// A basic block: a named, ordered list of instruction handles. Insertion
/// order is preservation order.
#[derive(Debug)]
pub struct BasicBlockData {
    pub name: String,
    pub insts: Vec<usize>,
}

/// One function: its mangled name (source name behind the `@` marker), its
/// parameters, return type, value arena and block layout.
#[derive(Debug)]
pub struct FunctionData {
    pub name: String,
    pub params: Vec<Param>,
    pub ty: Type,
    pub values: Vec<ValueData>,
    pub bbs: Vec<BasicBlockData>,
}

/// A whole program: its functions in declaration order.
#[derive(Debug)]
pub struct Program {
    pub funcs: Vec<FunctionData>,
}

/// Mathematical model of a parameter.
#[verifier::ext_equal]
pub struct ParamV {
    pub name: Seq<char>,
    pub ty: Type,
}

/// Mathematical model of a basic block.
#[verifier::ext_equal]
pub struct BlockV {
    pub name: Seq<char>,
    pub insts: Seq<usize>,
}

/// Mathematical model of a function.
#[verifier::ext_equal]
pub struct FunctionV {
    pub name: Seq<char>,
    pub params: Seq<ParamV>,
    pub ty: Type,
    pub values: Seq<ValueData>,
    pub bbs: Seq<BlockV>,
}

/// Mathematical model of a program.
#[verifier::ext_equal]
pub struct ProgramV {
    pub funcs: Seq<FunctionV>,
}

/// Mathematical model of the builder state: the program built so far, the
/// construction cursor, and the two symbol tables.
#[verifier::ext_equal]
pub struct CtorV {
    pub program: ProgramV,
    pub current_func: Option<usize>,
    pub current_bb: Option<usize>,
    pub consts: Map<Seq<char>, i32>,
    pub vars: Map<Seq<char>, Option<usize>>,
}

impl View for Param {
    type V = ParamV;

    open spec fn view(&self) -> ParamV {
        ParamV { name: self.name@, ty: self.ty }
    }
}

impl View for BasicBlockData {
    type V = BlockV;

    open spec fn view(&self) -> BlockV {
        BlockV { name: self.name@, insts: self.insts@ }
    }
}

impl View for FunctionData {
    type V = FunctionV;

    open spec fn view(&self) -> FunctionV {
        FunctionV {
            name: self.name@,
            params: self.params@.map_values(|p: Param| p@),
            ty: self.ty,
            values: self.values@,
            bbs: self.bbs@.map_values(|b: BasicBlockData| b@),
        }
    }
}

impl View for Program {
    type V = ProgramV;

    open spec fn view(&self) -> ProgramV {
        ProgramV { funcs: self.funcs@.map_values(|f: FunctionData| f@) }
    }
}

/// The map denoted by an association list, later entries overriding earlier.
pub open spec fn assoc_map<V>(s: Seq<(String, V)>) -> Map<Seq<char>, V>
    decreases s.len(),
{
    if s.len() == 0 {
        Map::empty()
    } else {
        assoc_map(s.drop_last()).insert(s.last().0@, s.last().1)
    }
}

proof fn lemma_assoc_found<V>(s: Seq<(String, V)>, k: Seq<char>, i: int)
    requires
        0 <= i < s.len(),
        s[i].0@ == k,
        forall|j: int| i < j < s.len() ==> s[j].0@ != k,
    ensures
        assoc_map(s).contains_key(k),
        assoc_map(s)[k] == s[i].1,
    decreases s.len(),
{
    if i == s.len() - 1 {
    } else {
        lemma_assoc_found(s.drop_last(), k, i);
    }
}

proof fn lemma_assoc_absent<V>(s: Seq<(String, V)>, k: Seq<char>)
    requires
        forall|j: int| 0 <= j < s.len() ==> s[j].0@ != k,
    ensures
        !assoc_map(s).contains_key(k),
    decreases s.len(),
{
    if s.len() > 0 {
        lemma_assoc_absent(s.drop_last(), k);
    }
}

/// The IR builder. It owns the growing program, a cursor to the function and
/// block under construction, and the constant and variable symbol tables.
pub struct Constructor {
    program: Program,
    current_func: Option<usize>,
    current_bb: Option<usize>,
    const_symbols: Vec<(String, i32)>,
    var_symbols: Vec<(String, Option<usize>)>,
}

impl View for Constructor {
    type V = CtorV;

    closed spec fn view(&self) -> CtorV {
        CtorV {
            program: self.program@,
            current_func: self.current_func,
            current_bb: self.current_bb,
            consts: assoc_map(self.const_symbols@),
            vars: assoc_map(self.var_symbols@),
        }
    }
}

/// Well-formedness of the builder state: the cursor always points at the
/// last function and, within it, the last block.
pub open spec fn ctor_wf(st: CtorV) -> bool {
    &&& match st.current_func {
        Some(fi) => fi + 1 == st.program.funcs.len(),
        None => true,
    }
    &&& match st.current_bb {
        Some(bi) => match st.current_func {
            Some(fi) => bi + 1 == st.program.funcs[fi as int].bbs.len(),
            None => false,
        },
        None => true,
    }
}

/// The builder state a fresh `Constructor` starts from.
pub open spec fn init_ctor() -> CtorV {
    CtorV {
        program: ProgramV { funcs: Seq::empty() },
        current_func: None,
        current_bb: None,
        consts: Map::empty(),
        vars: Map::empty(),
    }
}

pub open spec fn with_program(st: CtorV, p: ProgramV) -> CtorV {
    CtorV {
        program: p,
        current_func: st.current_func,
        current_bb: st.current_bb,
        consts: st.consts,
        vars: st.vars,
    }
}

pub open spec fn with_consts(st: CtorV, m: Map<Seq<char>, i32>) -> CtorV {
    CtorV {
        program: st.program,
        current_func: st.current_func,
        current_bb: st.current_bb,
        consts: m,
        vars: st.vars,
    }
}

pub open spec fn with_vars(st: CtorV, m: Map<Seq<char>, Option<usize>>) -> CtorV {
    CtorV {
        program: st.program,
        current_func: st.current_func,
        current_bb: st.current_bb,
        consts: st.consts,
        vars: m,
    }
}

pub open spec fn with_values(f: FunctionV, values: Seq<ValueData>) -> FunctionV {
    FunctionV { name: f.name, params: f.params, ty: f.ty, values: values, bbs: f.bbs }
}

pub open spec fn with_bbs(f: FunctionV, bbs: Seq<BlockV>) -> FunctionV {
    FunctionV { name: f.name, params: f.params, ty: f.ty, values: f.values, bbs: bbs }
}

/// Replace function `fi` of the state's program.
pub open spec fn upd_func(st: CtorV, fi: usize, f: FunctionV) -> CtorV {
    with_program(st, ProgramV { funcs: st.program.funcs.update(fi as int, f) })
}

/// Allocate a value in the current function's arena; its handle is the next
/// free index. Fails when no function is under construction.
pub open spec fn spec_new_value(st: CtorV, v: ValueData) -> Result<(CtorV, usize), CompileError> {
    match st.current_func {
        None => Err(CompileError::NoFunctionContext),
        Some(fi) => {
            let f = st.program.funcs[fi as int];
            let id = f.values.len() as usize;
            Ok((upd_func(st, fi, with_values(f, f.values.push(v))), id))
        },
    }
}

/// Append an instruction handle to the current basic block.
pub open spec fn spec_push_inst(st: CtorV, id: usize) -> Result<CtorV, CompileError> {
    match st.current_func {
        None => Err(CompileError::NoFunctionContext),
        Some(fi) => match st.current_bb {
            None => Err(CompileError::NoFunctionContext),
            Some(bi) => {
                let f = st.program.funcs[fi as int];
                let b = f.bbs[bi as int];
                let b2 = BlockV { name: b.name, insts: b.insts.push(id) };
                Ok(upd_func(st, fi, with_bbs(f, f.bbs.update(bi as int, b2))))
            },
        },
    }
}

/// Allocate one binary instruction and append it to the current block.
pub open spec fn spec_emit_binary(st: CtorV, op: MultiOp, l: usize, r: usize) -> Result<
    (CtorV, usize),
    CompileError,
> {
    match spec_new_value(st, ValueData::Binary(op, l, r)) {
        Err(e) => Err(e),
        Ok((st1, id)) => match spec_push_inst(st1, id) {
            Err(e) => Err(e),
            Ok(st2) => Ok((st2, id)),
        },
    }
}

/// The operators whose lowering is implemented.
pub open spec fn binary_op_supported(op: MultiOp) -> bool {
    match op {
        MultiOp::Add | MultiOp::Sub | MultiOp::Mul | MultiOp::Div | MultiOp::Mod => true,
        _ => false,
    }
}

/// Lowering a leaf: a literal allocates an integer value (no instruction);
/// loading a named reference is not supported yet and fails explicitly.
pub open spec fn spec_construct_value(st: CtorV, v: Value) -> Result<(CtorV, usize), CompileError> {
    match v {
        Value::Num(n) => spec_new_value(st, ValueData::Integer(n)),
        Value::LVal(_) => Err(CompileError::NonConstReference),
    }
}

/// Lowering an expression into the current block: operands left before
/// right, one binary instruction per operator node, unary operators
/// synthesized from a zero literal.
pub open spec fn spec_construct_expr(st: CtorV, e: Expr) -> Result<(CtorV, usize), CompileError>
    decreases e,
{
    match e {
        Expr::Value(v) => spec_construct_value(st, v),
        Expr::Binary(op, lhs, rhs) => match spec_construct_expr(st, *lhs) {
            Err(er) => Err(er),
            Ok((st1, l)) => match spec_construct_expr(st1, *rhs) {
                Err(er) => Err(er),
                Ok((st2, r)) => if binary_op_supported(op) {
                    spec_emit_binary(st2, op, l, r)
                } else {
                    Err(CompileError::UnsupportedOperator)
                },
            },
        },
        Expr::Unary(op, inner) => match spec_construct_expr(st, *inner) {
            Err(er) => Err(er),
            Ok((st1, x)) => match spec_new_value(st1, ValueData::Integer(0)) {
                Err(er) => Err(er),
                Ok((st2, z)) => match op {
                    UnaryOp::Neg => spec_emit_binary(st2, MultiOp::Sub, z, x),
                    UnaryOp::Not => spec_emit_binary(st2, MultiOp::Eq, z, x),
                    UnaryOp::Pos => Ok((st2, x)),
                },
            },
        },
    }
}

/// Lowering a statement: fold the expression, lower what remains, then
/// append the terminating return instruction.
pub open spec fn spec_construct_stmt(st: CtorV, s: Stmt) -> Result<CtorV, CompileError> {
    match s {
        Stmt::Return(e) => match spec_reduce(e, st.consts) {
            Err(er) => Err(er),
            Ok(e2) => match spec_construct_expr(st, e2) {
                Err(er) => Err(er),
                Ok((st1, res)) => match spec_new_value(st1, ValueData::Return(Some(res))) {
                    Err(er) => Err(er),
                    Ok((st2, rid)) => spec_push_inst(st2, rid),
                },
            },
        },
    }
}

pub open spec fn spec_construct_stmts(st: CtorV, stmts: Seq<Stmt>) -> Result<CtorV, CompileError>
    decreases stmts.len(),
{
    if stmts.len() == 0 {
        Ok(st)
    } else {
        match spec_construct_stmt(st, stmts[0]) {
            Err(e) => Err(e),
            Ok(st1) => spec_construct_stmts(st1, stmts.drop_first()),
        }
    }
}

/// Allocate a new function: mangled name, parameters copied one to one, the
/// cursor moved onto it with no current block yet.
pub open spec fn spec_new_func(st: CtorV, f: Func) -> CtorV {
    CtorV {
        program: ProgramV {
            funcs: st.program.funcs.push(
                FunctionV {
                    name: "@"@ + f.name@,
                    params: f.params@.map_values(|p: Param| p@),
                    ty: f.ty,
                    values: Seq::empty(),
                    bbs: Seq::empty(),
                },
            ),
        },
        current_func: Some(st.program.funcs.len() as usize),
        current_bb: None,
        consts: st.consts,
        vars: st.vars,
    }
}

/// Open a new basic block in the current function and make it current.
pub open spec fn spec_new_bb(st: CtorV, name: Seq<char>) -> Result<CtorV, CompileError> {
    match st.current_func {
        None => Err(CompileError::NoFunctionContext),
        Some(fi) => {
            let f = st.program.funcs[fi as int];
            let f2 = with_bbs(f, f.bbs.push(BlockV { name: name, insts: Seq::empty() }));
            Ok(
                CtorV {
                    program: ProgramV { funcs: st.program.funcs.update(fi as int, f2) },
                    current_func: st.current_func,
                    current_bb: Some(f.bbs.len() as usize),
                    consts: st.consts,
                    vars: st.vars,
                },
            )
        },
    }
}

/// Lowering a function: allocate it, open its entry block, then lower the
/// body statement by statement in order.
pub open spec fn spec_construct_func(st: CtorV, f: Func) -> Result<CtorV, CompileError> {
    let st1 = spec_new_func(st, f);
    match spec_new_bb(st1, "%entry"@) {
        Err(e) => Err(e),
        Ok(st2) => spec_construct_stmts(st2, f.body.stmts@),
    }
}

/// Constant declarations: each initializer must fold to a literal, which is
/// recorded in the constant table and never materialized as IR.
pub open spec fn spec_construct_const_inits(st: CtorV, inits: Seq<Init>) -> Result<
    CtorV,
    CompileError,
>
    decreases inits.len(),
{
    if inits.len() == 0 {
        Ok(st)
    } else {
        let init = inits[0];
        match init.value {
            None => Err(CompileError::IllFormedConst),
            Some(e) => match spec_reduce(e, st.consts) {
                Err(er) => Err(er),
                Ok(e2) => match e2 {
                    Expr::Value(Value::Num(n)) => spec_construct_const_inits(
                        with_consts(st, st.consts.insert(init.name@, n)),
                        inits.drop_first(),
                    ),
                    _ => Err(CompileError::IllFormedConst),
                },
            },
        }
    }
}

/// Variable declarations: the name is recorded with either the constructed
/// initial value or as declared-but-uninitialized; storage for variables is
/// not materialized yet.
pub open spec fn spec_construct_var_inits(st: CtorV, inits: Seq<Init>) -> Result<
    CtorV,
    CompileError,
>
    decreases inits.len(),
{
    if inits.len() == 0 {
        Ok(st)
    } else {
        let init = inits[0];
        match init.value {
            None => spec_construct_var_inits(
                with_vars(st, st.vars.insert(init.name@, None)),
                inits.drop_first(),
            ),
            Some(e) => match spec_reduce(e, st.consts) {
                Err(er) => Err(er),
                Ok(e2) => match spec_construct_expr(st, e2) {
                    Err(er) => Err(er),
                    Ok((st1, id)) => spec_construct_var_inits(
                        with_vars(st1, st1.vars.insert(init.name@, Some(id))),
                        inits.drop_first(),
                    ),
                },
            },
        }
    }
}

pub open spec fn spec_construct_decl(st: CtorV, d: Decl) -> Result<CtorV, CompileError> {
    match d {
        Decl::Const(_, inits) => spec_construct_const_inits(st, inits@),
        Decl::Var(_, inits) => spec_construct_var_inits(st, inits@),
    }
}

pub open spec fn spec_construct_obj(st: CtorV, o: GlobalObj) -> Result<CtorV, CompileError> {
    match o {
        GlobalObj::Decl(d) => spec_construct_decl(st, d),
        GlobalObj::Func(f) => spec_construct_func(st, f),
    }
}

pub open spec fn spec_construct_objs(st: CtorV, objs: Seq<GlobalObj>) -> Result<
    CtorV,
    CompileError,
>
    decreases objs.len(),
{
    if objs.len() == 0 {
        Ok(st)
    } else {
        match spec_construct_obj(st, objs[0]) {
            Err(e) => Err(e),
            Ok(st1) => spec_construct_objs(st1, objs.drop_first()),
        }
    }
}

/// What `construct` returns: the program built from a fresh state by
/// processing the unit's global symbols in declaration order.
pub open spec fn spec_construct(ast: Ast) -> Result<ProgramV, CompileError> {
    match spec_construct_objs(init_ctor(), ast.obj@) {
        Err(e) => Err(e),
        Ok(st) => Ok(st.program),
    }
}


/// A block only grows: same name, instruction handles only appended.
pub open spec fn bb_extends(b1: BlockV, b2: BlockV) -> bool {
    &&& b2.name == b1.name
    &&& b1.insts.len() <= b2.insts.len()
    &&& forall|ii: int| 0 <= ii < b1.insts.len() ==> #[trigger] b2.insts[ii] == b1.insts[ii]
}

/// A function only grows: values are only appended (a handle is never
/// reused and a value's defining data, once set, is never changed), and its
/// blocks only extend.
pub open spec fn func_extends(f1: FunctionV, f2: FunctionV) -> bool {
    &&& f2.name == f1.name
    &&& f2.params == f1.params
    &&& f2.ty == f1.ty
    &&& f1.values.len() <= f2.values.len()
    &&& forall|vi: int| 0 <= vi < f1.values.len() ==> #[trigger] f2.values[vi] == f1.values[vi]
    &&& f1.bbs.len() <= f2.bbs.len()
    &&& forall|bi: int| 0 <= bi < f1.bbs.len() ==> bb_extends(
        f1.bbs[bi],
        #[trigger] f2.bbs[bi],
    )
}

/// Expression- and statement-level steps keep the program's shape: no
/// function comes or goes, and every function only extends.
pub open spec fn arena_extends(st1: CtorV, st2: CtorV) -> bool {
    &&& st2.program.funcs.len() == st1.program.funcs.len()
    &&& forall|fi: int| 0 <= fi < st1.program.funcs.len() ==> func_extends(
        st1.program.funcs[fi],
        #[trigger] st2.program.funcs[fi],
    )
}

/// Across whole declarations, functions are only appended, and the ones
/// already present only extend.
pub open spec fn ctor_extends(st1: CtorV, st2: CtorV) -> bool {
    &&& st1.program.funcs.len() <= st2.program.funcs.len()
    &&& forall|fi: int| 0 <= fi < st1.program.funcs.len() ==> func_extends(
        st1.program.funcs[fi],
        #[trigger] st2.program.funcs[fi],
    )
}

/// Every function of the program owns at least one basic block.
pub open spec fn funcs_have_entry(p: ProgramV) -> bool {
    forall|fi: int| 0 <= fi < p.funcs.len() ==> #[trigger] p.funcs[fi].bbs.len() >= 1
}

proof fn lemma_func_extends_refl(f: FunctionV)
    ensures
        func_extends(f, f),
{
}

proof fn lemma_func_extends_trans(a: FunctionV, b: FunctionV, c: FunctionV)
    requires
        func_extends(a, b),
        func_extends(b, c),
    ensures
        func_extends(a, c),
{
    assert forall|bi: int| 0 <= bi < a.bbs.len() implies bb_extends(a.bbs[bi], c.bbs[bi]) by {
        assert(bb_extends(a.bbs[bi], b.bbs[bi]));
        assert(bb_extends(b.bbs[bi], c.bbs[bi]));
    }
}

proof fn lemma_arena_extends_refl(st: CtorV)
    ensures
        arena_extends(st, st),
{
    assert forall|fi: int| 0 <= fi < st.program.funcs.len() implies func_extends(
        st.program.funcs[fi],
        st.program.funcs[fi],
    ) by {
        lemma_func_extends_refl(st.program.funcs[fi]);
    }
}

proof fn lemma_arena_extends_trans(a: CtorV, b: CtorV, c: CtorV)
    requires
        arena_extends(a, b),
        arena_extends(b, c),
    ensures
        arena_extends(a, c),
{
    assert forall|fi: int| 0 <= fi < a.program.funcs.len() implies func_extends(
        a.program.funcs[fi],
        c.program.funcs[fi],
    ) by {
        lemma_func_extends_trans(a.program.funcs[fi], b.program.funcs[fi], c.program.funcs[fi]);
    }
}

proof fn lemma_ctor_extends_trans(a: CtorV, b: CtorV, c: CtorV)
    requires
        ctor_extends(a, b),
        ctor_extends(b, c),
    ensures
        ctor_extends(a, c),
{
    assert forall|fi: int| 0 <= fi < a.program.funcs.len() implies func_extends(
        a.program.funcs[fi],
        c.program.funcs[fi],
    ) by {
        lemma_func_extends_trans(a.program.funcs[fi], b.program.funcs[fi], c.program.funcs[fi]);
    }
}

proof fn lemma_new_value_shape(st: CtorV, v: ValueData)
    requires
        ctor_wf(st),
    ensures
        spec_new_value(st, v) matches Ok(r) ==> arena_extends(st, r.0) && ctor_wf(r.0),
{
    if let Ok((st2, _)) = spec_new_value(st, v) {
        let fi = st.current_func.unwrap() as int;
        assert forall|j: int| 0 <= j < st.program.funcs.len() implies func_extends(
            st.program.funcs[j],
            st2.program.funcs[j],
        ) by {
            if j != fi {
                lemma_func_extends_refl(st.program.funcs[j]);
            } else {
                lemma_func_extends_refl(st.program.funcs[j]);
                assert(st2.program.funcs[j].values == st.program.funcs[j].values.push(v));
            }
        }
    }
}

proof fn lemma_push_inst_shape(st: CtorV, id: usize)
    requires
        ctor_wf(st),
    ensures
        spec_push_inst(st, id) matches Ok(st2) ==> arena_extends(st, st2) && ctor_wf(st2),
{
    if let Ok(st2) = spec_push_inst(st, id) {
        let fi = st.current_func.unwrap() as int;
        let bi = st.current_bb.unwrap() as int;
        assert forall|j: int| 0 <= j < st.program.funcs.len() implies func_extends(
            st.program.funcs[j],
            st2.program.funcs[j],
        ) by {
            if j != fi {
                lemma_func_extends_refl(st.program.funcs[j]);
            } else {
                let f1 = st.program.funcs[j];
                let f2 = st2.program.funcs[j];
                assert forall|k: int| 0 <= k < f1.bbs.len() implies bb_extends(
                    f1.bbs[k],
                    f2.bbs[k],
                ) by {
                    if k != bi {
                    } else {
                        assert(f2.bbs[k].insts == f1.bbs[k].insts.push(id));
                    }
                }
            }
        }
    }
}

proof fn lemma_emit_binary_shape(st: CtorV, op: MultiOp, l: usize, r: usize)
    requires
        ctor_wf(st),
    ensures
        spec_emit_binary(st, op, l, r) matches Ok(res) ==> arena_extends(st, res.0) && ctor_wf(
            res.0,
        ),
{
    lemma_new_value_shape(st, ValueData::Binary(op, l, r));
    if let Ok((st1, id)) = spec_new_value(st, ValueData::Binary(op, l, r)) {
        lemma_push_inst_shape(st1, id);
        if let Ok(st2) = spec_push_inst(st1, id) {
            lemma_arena_extends_trans(st, st1, st2);
        }
    }
}

proof fn lemma_construct_expr_shape(st: CtorV, e: Expr)
    requires
        ctor_wf(st),
    ensures
        spec_construct_expr(st, e) matches Ok(r) ==> arena_extends(st, r.0) && ctor_wf(r.0),
    decreases e,
{
    match e {
        Expr::Value(v) => {
            match v {
                Value::Num(n) => {
                    lemma_new_value_shape(st, ValueData::Integer(n));
                },
                Value::LVal(_) => {
                },
            }
        },
        Expr::Binary(op, lhs, rhs) => {
            lemma_construct_expr_shape(st, *lhs);
            if let Ok((st1, l)) = spec_construct_expr(st, *lhs) {
                lemma_construct_expr_shape(st1, *rhs);
                if let Ok((st2, r)) = spec_construct_expr(st1, *rhs) {
                    lemma_arena_extends_trans(st, st1, st2);
                    lemma_emit_binary_shape(st2, op, l, r);
                    if let Ok((st3, _)) = spec_emit_binary(st2, op, l, r) {
                        lemma_arena_extends_trans(st, st2, st3);
                    }
                }
            }
        },
        Expr::Unary(op, inner) => {
            lemma_construct_expr_shape(st, *inner);
            if let Ok((st1, x)) = spec_construct_expr(st, *inner) {
                lemma_new_value_shape(st1, ValueData::Integer(0));
                if let Ok((st2, z)) = spec_new_value(st1, ValueData::Integer(0)) {
                    lemma_arena_extends_trans(st, st1, st2);
                    match op {
                        UnaryOp::Neg => {
                            lemma_emit_binary_shape(st2, MultiOp::Sub, z, x);
                            if let Ok((st3, _)) = spec_emit_binary(st2, MultiOp::Sub, z, x) {
                                lemma_arena_extends_trans(st, st2, st3);
                            }
                        },
                        UnaryOp::Not => {
                            lemma_emit_binary_shape(st2, MultiOp::Eq, z, x);
                            if let Ok((st3, _)) = spec_emit_binary(st2, MultiOp::Eq, z, x) {
                                lemma_arena_extends_trans(st, st2, st3);
                            }
                        },
                        UnaryOp::Pos => {
                        },
                    }
                }
            }
        },
    }
}

proof fn lemma_construct_stmt_shape(st: CtorV, s: Stmt)
    requires
        ctor_wf(st),
    ensures
        spec_construct_stmt(st, s) matches Ok(st2) ==> arena_extends(st, st2) && ctor_wf(st2),
{
    match s {
        Stmt::Return(e) => {
            if let Ok(e2) = spec_reduce(e, st.consts) {
                lemma_construct_expr_shape(st, e2);
                if let Ok((st1, res)) = spec_construct_expr(st, e2) {
                    lemma_new_value_shape(st1, ValueData::Return(Some(res)));
                    if let Ok((st2, rid)) = spec_new_value(st1, ValueData::Return(Some(res))) {
                        lemma_arena_extends_trans(st, st1, st2);
                        lemma_push_inst_shape(st2, rid);
                        if let Ok(st3) = spec_push_inst(st2, rid) {
                            lemma_arena_extends_trans(st, st2, st3);
                        }
                    }
                }
            }
        },
    }
}

proof fn lemma_construct_stmts_shape(st: CtorV, stmts: Seq<Stmt>)
    requires
        ctor_wf(st),
    ensures
        spec_construct_stmts(st, stmts) matches Ok(st2) ==> arena_extends(st, st2) && ctor_wf(
            st2,
        ),
    decreases stmts.len(),
{
    if stmts.len() == 0 {
        lemma_arena_extends_refl(st);
    } else {
        lemma_construct_stmt_shape(st, stmts[0]);
        if let Ok(st1) = spec_construct_stmt(st, stmts[0]) {
            lemma_construct_stmts_shape(st1, stmts.drop_first());
            if let Ok(st2) = spec_construct_stmts(st1, stmts.drop_first()) {
                lemma_arena_extends_trans(st, st1, st2);
            }
        }
    }
}

proof fn lemma_const_inits_shape(st: CtorV, inits: Seq<Init>)
    requires
        ctor_wf(st),
    ensures
        spec_construct_const_inits(st, inits) matches Ok(st2) ==> arena_extends(st, st2)
            && ctor_wf(st2),
    decreases inits.len(),
{
    if inits.len() == 0 {
        lemma_arena_extends_refl(st);
    } else {
        let init = inits[0];
        if let Some(e) = init.value {
            if let Ok(e2) = spec_reduce(e, st.consts) {
                if let Expr::Value(Value::Num(n)) = e2 {
                    let st1 = with_consts(st, st.consts.insert(init.name@, n));
                    lemma_arena_extends_refl(st);
                    assert(arena_extends(st, st1));
                    lemma_const_inits_shape(st1, inits.drop_first());
                    if let Ok(st2) = spec_construct_const_inits(st1, inits.drop_first()) {
                        lemma_arena_extends_trans(st, st1, st2);
                    }
                }
            }
        }
    }
}

proof fn lemma_var_inits_shape(st: CtorV, inits: Seq<Init>)
    requires
        ctor_wf(st),
    ensures
        spec_construct_var_inits(st, inits) matches Ok(st2) ==> arena_extends(st, st2)
            && ctor_wf(st2),
    decreases inits.len(),
{
    if inits.len() == 0 {
        lemma_arena_extends_refl(st);
    } else {
        let init = inits[0];
        match init.value {
            None => {
                let st1 = with_vars(st, st.vars.insert(init.name@, None));
                lemma_arena_extends_refl(st);
                assert(arena_extends(st, st1));
                lemma_var_inits_shape(st1, inits.drop_first());
                if let Ok(st2) = spec_construct_var_inits(st1, inits.drop_first()) {
                    lemma_arena_extends_trans(st, st1, st2);
                }
            },
            Some(e) => {
                if let Ok(e2) = spec_reduce(e, st.consts) {
                    lemma_construct_expr_shape(st, e2);
                    if let Ok((st1, id)) = spec_construct_expr(st, e2) {
                        let st1b = with_vars(st1, st1.vars.insert(init.name@, Some(id)));
                        assert(arena_extends(st1, st1b)) by {
                            lemma_arena_extends_refl(st1);
                        }
                        lemma_arena_extends_trans(st, st1, st1b);
                        lemma_var_inits_shape(st1b, inits.drop_first());
                        if let Ok(st2) = spec_construct_var_inits(st1b, inits.drop_first()) {
                            lemma_arena_extends_trans(st, st1b, st2);
                        }
                    }
                }
            },
        }
    }
}

proof fn lemma_construct_func_shape(st: CtorV, f: Func)
    requires
        ctor_wf(st),
        st.program.funcs.len() < usize::MAX,
    ensures
        spec_construct_func(st, f) matches Ok(st2) ==> ctor_extends(st, st2) && ctor_wf(st2)
            && st2.program.funcs.len() == st.program.funcs.len() + 1 && (funcs_have_entry(
            st.program,
        ) ==> funcs_have_entry(st2.program)),
{
    let st1 = spec_new_func(st, f);
    assert(ctor_wf(st1));
    assert forall|j: int| 0 <= j < st.program.funcs.len() implies func_extends(
        st.program.funcs[j],
        st1.program.funcs[j],
    ) by {
        lemma_func_extends_refl(st.program.funcs[j]);
    }
    if let Ok(st2) = spec_new_bb(st1, "%entry"@) {
        assert(st2.program.funcs[st.program.funcs.len() as int].bbs.len() == 1);
        assert(ctor_wf(st2));
        assert forall|j: int| 0 <= j < st1.program.funcs.len() implies func_extends(
            st1.program.funcs[j],
            st2.program.funcs[j],
        ) by {
            lemma_func_extends_refl(st1.program.funcs[j]);
        }
        lemma_construct_stmts_shape(st2, f.body.stmts@);
        if let Ok(st3) = spec_construct_stmts(st2, f.body.stmts@) {
            assert(ctor_extends(st1, st2));
            assert(ctor_extends(st2, st3));
            lemma_ctor_extends_trans(st, st1, st2);
            lemma_ctor_extends_trans(st, st2, st3);
            if funcs_have_entry(st.program) {
                assert forall|j: int| 0 <= j < st3.program.funcs.len() implies #[trigger] st3
                    .program.funcs[j].bbs.len() >= 1 by {
                    if j < st.program.funcs.len() {
                        assert(func_extends(st.program.funcs[j], st3.program.funcs[j]));
                    } else {
                        assert(j == st.program.funcs.len());
                        assert(st2.program.funcs[j].bbs.len() == 1);
                        assert(func_extends(st2.program.funcs[j], st3.program.funcs[j]));
                    }
                }
            }
        }
    }
}

proof fn lemma_construct_obj_shape(st: CtorV, o: GlobalObj)
    requires
        ctor_wf(st),
        st.program.funcs.len() < usize::MAX,
    ensures
        spec_construct_obj(st, o) matches Ok(st2) ==> ctor_extends(st, st2) && ctor_wf(st2)
            && st2.program.funcs.len() <= st.program.funcs.len() + 1 && (funcs_have_entry(
            st.program,
        ) ==> funcs_have_entry(st2.program)),
{
    match o {
        GlobalObj::Decl(d) => {
            match d {
                Decl::Const(_, inits) => {
                    lemma_const_inits_shape(st, inits@);
                },
                Decl::Var(_, inits) => {
                    lemma_var_inits_shape(st, inits@);
                },
            }
            if let Ok(st2) = spec_construct_decl(st, d) {
                assert(arena_extends(st, st2));
            }
        },
        GlobalObj::Func(f) => {
            lemma_construct_func_shape(st, f);
        },
    }
}

/// Law: construction only appends. Starting from any builder state, a
/// successful run over a list of global symbols leaves every function that
/// was already there extended, never rewritten: its values keep their
/// handles and defining data, its blocks keep their instruction order.
pub proof fn lemma_construct_appends_only(st: CtorV, objs: Seq<GlobalObj>)
    requires
        ctor_wf(st),
        st.program.funcs.len() + objs.len() <= usize::MAX,
    ensures
        spec_construct_objs(st, objs) matches Ok(st2) ==> ctor_extends(st, st2) && ctor_wf(st2),
    decreases objs.len(),
{
    if objs.len() == 0 {
        assert forall|j: int| 0 <= j < st.program.funcs.len() implies func_extends(
            st.program.funcs[j],
            st.program.funcs[j],
        ) by {
            lemma_func_extends_refl(st.program.funcs[j]);
        }
    } else {
        lemma_construct_obj_shape(st, objs[0]);
        if let Ok(st1) = spec_construct_obj(st, objs[0]) {
            lemma_construct_appends_only(st1, objs.drop_first());
            if let Ok(st2) = spec_construct_objs(st1, objs.drop_first()) {
                lemma_ctor_extends_trans(st, st1, st2);
            }
        }
    }
}

proof fn lemma_objs_entry(st: CtorV, objs: Seq<GlobalObj>)
    requires
        ctor_wf(st),
        st.program.funcs.len() + objs.len() <= usize::MAX,
        funcs_have_entry(st.program),
    ensures
        spec_construct_objs(st, objs) matches Ok(st2) ==> funcs_have_entry(st2.program),
    decreases objs.len(),
{
    if objs.len() > 0 {
        lemma_construct_obj_shape(st, objs[0]);
        if let Ok(st1) = spec_construct_obj(st, objs[0]) {
            lemma_objs_entry(st1, objs.drop_first());
        }
    }
}

/// Law: every function of a constructed program owns at least one basic
/// block — its entry block, opened before any statement is lowered.
pub proof fn lemma_construct_funcs_have_entry(ast: Ast)
    requires
        ast.obj@.len() <= usize::MAX,
    ensures
        spec_construct(ast) matches Ok(p) ==> funcs_have_entry(p),
{
    assert(ctor_wf(init_ctor()));
    lemma_objs_entry(init_ctor(), ast.obj@);
}


/// A function lowered from a single return statement: one block, holding
/// exactly one instruction, which is a return — so the block ends in its
/// one return and nothing follows it.
pub open spec fn func_single_return(f: FunctionV) -> bool {
    &&& f.bbs.len() == 1
    &&& f.bbs[0].insts.len() == 1
    &&& (f.bbs[0].insts[0] as int) < f.values.len()
    &&& f.values[f.bbs[0].insts[0] as int] matches ValueData::Return(_)
}

pub open spec fn prog_single_returns(p: ProgramV) -> bool {
    forall|fi: int| 0 <= fi < p.funcs.len() ==> func_single_return(#[trigger] p.funcs[fi])
}

/// A reduced expression that is not a literal has an unresolved reference
/// on its spine, so lowering it fails — in the current feature set no
/// instruction-emitting lowering ever succeeds.
proof fn lemma_reduced_non_literal_fails(st: CtorV, e: Expr, consts: Map<Seq<char>, i32>)
    requires
        spec_reduce(e, consts) == Ok::<Expr, CompileError>(e),
        !is_literal(e),
    ensures
        spec_construct_expr(st, e) is Err,
    decreases e,
{
    match e {
        Expr::Value(_) => {
        },
        Expr::Binary(op, lhs, rhs) => {
            match spec_reduce(*lhs, consts) {
                Err(_) => {
                    assert(false);
                },
                Ok(l2) => {
                    match spec_reduce(*rhs, consts) {
                        Err(_) => {
                            assert(false);
                        },
                        Ok(r2) => {
                            if is_literal(l2) && is_literal(r2) {
                                assert(false);
                            } else {
                                assert(l2 == *lhs);
                                assert(r2 == *rhs);
                                if !is_literal(*lhs) {
                                    lemma_reduced_non_literal_fails(st, *lhs, consts);
                                } else {
                                    if let Ok((st1, _)) = spec_construct_expr(st, *lhs) {
                                        lemma_reduced_non_literal_fails(st1, *rhs, consts);
                                    }
                                }
                            }
                        },
                    }
                },
            }
        },
        Expr::Unary(op, inner) => {
            match spec_reduce(*inner, consts) {
                Err(_) => {
                    assert(false);
                },
                Ok(i2) => {
                    if is_literal(i2) {
                        assert(false);
                    } else {
                        assert(i2 == *inner);
                        lemma_reduced_non_literal_fails(st, *inner, consts);
                    }
                },
            }
        },
    }
}

/// Lowering one return statement into a freshly opened function appends
/// exactly one literal value and one return instruction.
proof fn lemma_stmt_on_fresh_func(st: CtorV, s: Stmt)
    requires
        ctor_wf(st),
        st.current_func is Some,
        st.current_bb is Some,
        ({
            let fi = st.current_func.unwrap() as int;
            &&& st.program.funcs[fi].values.len() == 0
            &&& st.program.funcs[fi].bbs.len() == 1
            &&& st.program.funcs[fi].bbs[0].insts.len() == 0
        }),
    ensures
        spec_construct_stmt(st, s) matches Ok(st2) ==> ({
            let fi = st.current_func.unwrap() as int;
            &&& st2.program.funcs.len() == st.program.funcs.len()
            &&& forall|j: int| 0 <= j < st.program.funcs.len() && j != fi
                ==> #[trigger] st2.program.funcs[j] == st.program.funcs[j]
            &&& st2.program.funcs[fi].values.len() == 2
            &&& func_single_return(st2.program.funcs[fi])
        }),
{
    match s {
        Stmt::Return(e) => {
            if let Ok(e2) = spec_reduce(e, st.consts) {
                crate::ast::lemma_reduce_idempotent(e, st.consts);
                if !is_literal(e2) {
                    lemma_reduced_non_literal_fails(st, e2, st.consts);
                }
            }
        },
    }
}

/// One function definition with a single return statement lowers to a
/// single-return function, leaving every other function untouched.
proof fn lemma_func_single_return_step(st: CtorV, f: Func)
    requires
        ctor_wf(st),
        st.program.funcs.len() < usize::MAX,
        f.body.stmts@.len() == 1,
        prog_single_returns(st.program),
    ensures
        spec_construct_func(st, f) matches Ok(st2) ==> prog_single_returns(st2.program)
            && ctor_wf(st2) && st2.program.funcs.len() == st.program.funcs.len() + 1,
{
    let st1 = spec_new_func(st, f);
    assert(ctor_wf(st1));
    if let Ok(st2) = spec_new_bb(st1, "%entry"@) {
        assert(ctor_wf(st2));
        let fi = st.program.funcs.len() as int;
        assert(st2.program.funcs[fi].values.len() == 0);
        assert(st2.program.funcs[fi].bbs.len() == 1);
        assert(st2.program.funcs[fi].bbs[0].insts.len() == 0);
        lemma_stmt_on_fresh_func(st2, f.body.stmts@[0]);
        if let Ok(st3) = spec_construct_stmt(st2, f.body.stmts@[0]) {
            lemma_construct_stmt_shape(st2, f.body.stmts@[0]);
            assert(f.body.stmts@.drop_first().len() == 0);
            reveal_with_fuel(spec_construct_stmts, 2);
            assert(spec_construct_stmts(st2, f.body.stmts@) == Ok::<CtorV, CompileError>(st3));
            assert forall|j: int| 0 <= j < st3.program.funcs.len() implies func_single_return(
                st3.program.funcs[j],
            ) by {
                if j < st.program.funcs.len() {
                    assert(st2.program.funcs[j] == st.program.funcs[j]);
                    assert(st3.program.funcs[j] == st2.program.funcs[j]);
                } else {
                    assert(j == fi);
                }
            }
        }
    }
}

proof fn lemma_const_inits_single(st: CtorV, inits: Seq<Init>)
    ensures
        spec_construct_const_inits(st, inits) matches Ok(st2) ==> st2.program == st.program
            && st2.current_func == st.current_func && st2.current_bb == st.current_bb,
    decreases inits.len(),
{
    if inits.len() > 0 {
        let init = inits[0];
        if let Some(e) = init.value {
            if let Ok(e2) = spec_reduce(e, st.consts) {
                if let Expr::Value(Value::Num(n)) = e2 {
                    lemma_const_inits_single(
                        with_consts(st, st.consts.insert(init.name@, n)),
                        inits.drop_first(),
                    );
                }
            }
        }
    }
}

proof fn lemma_var_inits_single(st: CtorV, inits: Seq<Init>)
    requires
        ctor_wf(st),
        prog_single_returns(st.program),
    ensures
        spec_construct_var_inits(st, inits) matches Ok(st2) ==> prog_single_returns(st2.program)
            && ctor_wf(st2) && st2.program.funcs.len() == st.program.funcs.len(),
    decreases inits.len(),
{
    if inits.len() > 0 {
        let init = inits[0];
        match init.value {
            None => {
                lemma_var_inits_single(
                    with_vars(st, st.vars.insert(init.name@, None)),
                    inits.drop_first(),
                );
            },
            Some(e) => {
                if let Ok(e2) = spec_reduce(e, st.consts) {
                    crate::ast::lemma_reduce_idempotent(e, st.consts);
                    if !is_literal(e2) {
                        lemma_reduced_non_literal_fails(st, e2, st.consts);
                    } else {
                        if let Ok((st1, id)) = spec_construct_expr(st, e2) {
                            assert(prog_single_returns(st1.program)) by {
                                assert forall|j: int|
                                    0 <= j < st1.program.funcs.len() implies func_single_return(
                                    #[trigger] st1.program.funcs[j],
                                ) by {
                                    assert(func_single_return(st.program.funcs[j]));
                                }
                            }
                            lemma_var_inits_single(
                                with_vars(st1, st1.vars.insert(init.name@, Some(id))),
                                inits.drop_first(),
                            );
                        }
                    }
                }
            },
        }
    }
}

proof fn lemma_decl_preserves_single(st: CtorV, d: Decl)
    requires
        ctor_wf(st),
        prog_single_returns(st.program),
    ensures
        spec_construct_decl(st, d) matches Ok(st2) ==> prog_single_returns(st2.program)
            && ctor_wf(st2) && st2.program.funcs.len() == st.program.funcs.len(),
{
    match d {
        Decl::Const(_, inits) => {
            lemma_const_inits_single(st, inits@);
        },
        Decl::Var(_, inits) => {
            lemma_var_inits_single(st, inits@);
        },
    }
}

proof fn lemma_objs_single_return(st: CtorV, objs: Seq<GlobalObj>)
    requires
        ctor_wf(st),
        st.program.funcs.len() + objs.len() <= usize::MAX,
        forall|i: int| 0 <= i < objs.len() ==> ((#[trigger] objs[i]) matches GlobalObj::Func(f)
            ==> f.body.stmts@.len() == 1),
        prog_single_returns(st.program),
    ensures
        spec_construct_objs(st, objs) matches Ok(st2) ==> prog_single_returns(st2.program),
    decreases objs.len(),
{
    if objs.len() > 0 {
        match objs[0] {
            GlobalObj::Func(f) => {
                assert(objs[0] matches GlobalObj::Func(g) ==> g.body.stmts@.len() == 1);
                lemma_func_single_return_step(st, f);
            },
            GlobalObj::Decl(d) => {
                lemma_decl_preserves_single(st, d);
            },
        }
        if let Ok(st1) = spec_construct_obj(st, objs[0]) {
            assert forall|i: int| 0 <= i < objs.drop_first().len() implies ((
            #[trigger] objs.drop_first()[i]) matches GlobalObj::Func(g)
                ==> g.body.stmts@.len() == 1) by {
                assert(objs.drop_first()[i] == objs[i + 1]);
            }
            lemma_objs_single_return(st1, objs.drop_first());
        }
    }
}

/// Law: with the current feature set — every function body being a single
/// return statement — each constructed function consists of exactly one
/// basic block, which ends in exactly one return instruction and holds no
/// instruction after it. A body with several return statements would stack
/// several return instructions in one block, so such bodies are outside
/// this statement.
pub proof fn lemma_single_return_blocks(ast: Ast)
    requires
        ast.obj@.len() <= usize::MAX,
        forall|i: int| 0 <= i < ast.obj@.len() ==> ((#[trigger] ast.obj@[i]) matches
            GlobalObj::Func(f) ==> f.body.stmts@.len() == 1),
    ensures
        spec_construct(ast) matches Ok(p) ==> prog_single_returns(p),
{
    assert(ctor_wf(init_ctor()));
    lemma_objs_single_return(init_ctor(), ast.obj@);
}

impl Constructor {
    /// A fresh builder: empty program, no cursor, empty symbol tables.
    pub fn new() -> (c: Constructor)
        ensures
            c@ == init_ctor(),
            ctor_wf(c@),
    {
        let c = Constructor {
            program: Program { funcs: Vec::new() },
            current_func: None,
            current_bb: None,
            const_symbols: Vec::new(),
            var_symbols: Vec::new(),
        };
        proof {
            assert(c@ =~~= init_ctor());
        }
        c
    }

    /// Look a name up in the constant symbol table.
    pub fn get_const_val(&self, name: &String) -> (r: Option<i32>)
        ensures
            r == if self@.consts.contains_key(name@) {
                Some(self@.consts[name@])
            } else {
                None::<i32>
            },
    {
        let mut i: usize = self.const_symbols.len();
        while i > 0
            invariant
                i <= self.const_symbols@.len(),
                forall|j: int| i <= j < self.const_symbols@.len() ==> self.const_symbols@[j].0@
                    != name@,
            decreases i,
        {
            i = i - 1;
            if self.const_symbols[i].0 == *name {
                proof {
                    lemma_assoc_found(self.const_symbols@, name@, i as int);
                }
                return Some(self.const_symbols[i].1);
            }
        }
        proof {
            lemma_assoc_absent(self.const_symbols@, name@);
        }
        None
    }

    /// Record a folded constant in the constant symbol table.
    fn insert_const(&mut self, name: &String, v: i32)
        ensures
            final(self)@ == with_consts(old(self)@, old(self)@.consts.insert(name@, v)),
            ctor_wf(final(self)@) == ctor_wf(old(self)@),
    {
        self.const_symbols.push((name.clone(), v));
        proof {
            assert(self.const_symbols@.drop_last() =~= old(self).const_symbols@);
            assert(self@ =~~= with_consts(old(self)@, old(self)@.consts.insert(name@, v)));
        }
    }

    /// Record a variable in the variable symbol table.
    fn insert_var(&mut self, name: &String, v: Option<usize>)
        ensures
            final(self)@ == with_vars(old(self)@, old(self)@.vars.insert(name@, v)),
            ctor_wf(final(self)@) == ctor_wf(old(self)@),
    {
        self.var_symbols.push((name.clone(), v));
        proof {
            assert(self.var_symbols@.drop_last() =~= old(self).var_symbols@);
            assert(self@ =~~= with_vars(old(self)@, old(self)@.vars.insert(name@, v)));
        }
    }

    /// Allocate a new function and move the cursor onto it.
    fn new_func(&mut self, func: &Func)
        ensures
            final(self)@ == spec_new_func(old(self)@, *func),
            ctor_wf(final(self)@),
    {
        let mut name: String = String::from_str("@");
        name.append(func.name.as_str());
        let mut params: Vec<Param> = Vec::new();
        let mut i: usize = 0;
        while i < func.params.len()
            invariant
                i <= func.params@.len(),
                params@ == func.params@.subrange(0, i as int),
            decreases func.params@.len() - i,
        {
            params.push(func.params[i].clone());
            proof {
                assert(params@ =~= func.params@.subrange(0, i + 1 as int));
            }
            i = i + 1;
        }
        proof {
            assert(params@ =~= func.params@);
        }
        let fd = FunctionData {
            name: name,
            params: params,
            ty: func.ty,
            values: Vec::new(),
            bbs: Vec::new(),
        };
        let fi = self.program.funcs.len();
        self.program.funcs.push(fd);
        self.current_func = Some(fi);
        self.current_bb = None;
        proof {
            assert(fd@ =~~= FunctionV {
                name: "@"@ + func.name@,
                params: func.params@.map_values(|p: Param| p@),
                ty: func.ty,
                values: Seq::empty(),
                bbs: Seq::empty(),
            });
            assert(self@.program.funcs =~~= spec_new_func(old(self)@, *func).program.funcs);
            assert(self@ =~~= spec_new_func(old(self)@, *func));
        }
    }

    /// Open a new basic block in the current function and make it current.
    fn new_bb(&mut self, name: String) -> (r: Result<(), CompileError>)
        requires
            ctor_wf(old(self)@),
        ensures
            ctor_wf(final(self)@),
            match r {
                Ok(_) => spec_new_bb(old(self)@, name@) == Ok::<CtorV, CompileError>(final(self)@),
                Err(e) => spec_new_bb(old(self)@, name@) == Err::<CtorV, CompileError>(e)
                    && final(self)@ == old(self)@,
            },
    {
        match self.current_func {
            None => Err(CompileError::NoFunctionContext),
            Some(_) => {
                let mut f = self.program.funcs.pop().unwrap();
                let bi = f.bbs.len();
                f.bbs.push(BasicBlockData { name: name, insts: Vec::new() });
                self.program.funcs.push(f);
                self.current_bb = Some(bi);
                proof {
                    let prev = old(self)@;
                    let fi = prev.current_func.unwrap();
                    let fv = prev.program.funcs[fi as int];
                    let f2 = with_bbs(
                        fv,
                        fv.bbs.push(BlockV { name: name@, insts: Seq::empty() }),
                    );
                    assert(f@.bbs =~= f2.bbs);
                    assert(f@ =~~= f2);
                    assert(self@.program.funcs =~= prev.program.funcs.update(fi as int, f2));
                    assert(self@ =~~= spec_new_bb(prev, name@).unwrap());
                }
                Ok(())
            },
        }
    }

    /// Allocate a value in the current function's arena and hand back its
    /// handle.
    fn new_value(&mut self, v: ValueData) -> (r: Result<usize, CompileError>)
        requires
            ctor_wf(old(self)@),
        ensures
            ctor_wf(final(self)@),
            match r {
                Ok(id) => spec_new_value(old(self)@, v) == Ok::<(CtorV, usize), CompileError>(
                    (final(self)@, id),
                ),
                Err(e) => spec_new_value(old(self)@, v) == Err::<(CtorV, usize), CompileError>(e)
                    && final(self)@ == old(self)@,
            },
    {
        match self.current_func {
            None => Err(CompileError::NoFunctionContext),
            Some(_) => {
                let mut f = self.program.funcs.pop().unwrap();
                let id = f.values.len();
                f.values.push(v);
                self.program.funcs.push(f);
                proof {
                    let prev = old(self)@;
                    let fi = prev.current_func.unwrap();
                    let fv = prev.program.funcs[fi as int];
                    let f2 = with_values(fv, fv.values.push(v));
                    assert(f@ =~~= f2);
                    assert(self@.program.funcs =~= prev.program.funcs.update(fi as int, f2));
                    assert(self@ =~~= upd_func(prev, fi, f2));
                }
                Ok(id)
            },
        }
    }

    /// Append an instruction handle to the current basic block.
    fn push_inst(&mut self, id: usize) -> (r: Result<(), CompileError>)
        requires
            ctor_wf(old(self)@),
        ensures
            ctor_wf(final(self)@),
            match r {
                Ok(_) => spec_push_inst(old(self)@, id) == Ok::<CtorV, CompileError>(final(self)@),
                Err(e) => spec_push_inst(old(self)@, id) == Err::<CtorV, CompileError>(e)
                    && final(self)@ == old(self)@,
            },
    {
        match self.current_func {
            None => Err(CompileError::NoFunctionContext),
            Some(_) => match self.current_bb {
                None => Err(CompileError::NoFunctionContext),
                Some(_) => {
                    let mut f = self.program.funcs.pop().unwrap();
                    let mut b = f.bbs.pop().unwrap();
                    b.insts.push(id);
                    f.bbs.push(b);
                    self.program.funcs.push(f);
                    proof {
                        let prev = old(self)@;
                        let fi = prev.current_func.unwrap();
                        let bi = prev.current_bb.unwrap();
                        let fv = prev.program.funcs[fi as int];
                        let bv = fv.bbs[bi as int];
                        let b2 = BlockV { name: bv.name, insts: bv.insts.push(id) };
                        assert(b@ =~~= b2);
                        assert(f@.bbs =~= fv.bbs.update(bi as int, b2));
                        assert(f@ =~~= with_bbs(fv, fv.bbs.update(bi as int, b2)));
                        assert(self@.program.funcs =~= prev.program.funcs.update(fi as int, f@));
                        assert(self@ =~~= spec_push_inst(prev, id).unwrap());
                    }
                    Ok(())
                },
            },
        }
    }

    /// Allocate one binary instruction and append it to the current block.
    fn emit_binary(&mut self, op: MultiOp, l: usize, r: usize) -> (res: Result<
        usize,
        CompileError,
    >)
        requires
            ctor_wf(old(self)@),
        ensures
            ctor_wf(final(self)@),
            match res {
                Ok(id) => spec_emit_binary(old(self)@, op, l, r) == Ok::<
                    (CtorV, usize),
                    CompileError,
                >((final(self)@, id)),
                Err(e) => spec_emit_binary(old(self)@, op, l, r) == Err::<
                    (CtorV, usize),
                    CompileError,
                >(e),
            },
    {
        let id = match self.new_value(ValueData::Binary(op, l, r)) {
            Ok(id) => id,
            Err(e) => {
                return Err(e);
            },
        };
        match self.push_inst(id) {
            Ok(_) => Ok(id),
            Err(e) => Err(e),
        }
    }
}

impl Value {
    /// Lower a leaf expression into the current function.
    pub fn construct(&self, constructor: &mut Constructor) -> (r: Result<usize, CompileError>)
        requires
            ctor_wf(old(constructor)@),
        ensures
            ctor_wf(final(constructor)@),
            match r {
                Ok(id) => spec_construct_value(old(constructor)@, *self) == Ok::<
                    (CtorV, usize),
                    CompileError,
                >((final(constructor)@, id)),
                Err(e) => spec_construct_value(old(constructor)@, *self) == Err::<
                    (CtorV, usize),
                    CompileError,
                >(e),
            },
    {
        match self {
            Value::Num(num) => constructor.new_value(ValueData::Integer(*num)),
            Value::LVal(_) => Err(CompileError::NonConstReference),
        }
    }
}

impl Expr {
    /// Lower an expression into the current block, handing back the handle
    /// of the value holding its result.
    pub fn construct(&self, constructor: &mut Constructor) -> (r: Result<usize, CompileError>)
        requires
            ctor_wf(old(constructor)@),
        ensures
            ctor_wf(final(constructor)@),
            match r {
                Ok(id) => spec_construct_expr(old(constructor)@, *self) == Ok::<
                    (CtorV, usize),
                    CompileError,
                >((final(constructor)@, id)),
                Err(e) => spec_construct_expr(old(constructor)@, *self) == Err::<
                    (CtorV, usize),
                    CompileError,
                >(e),
            },
        decreases *self,
    {
        match self {
            Expr::Value(value) => value.construct(constructor),
            Expr::Binary(op, lhs, rhs) => {
                let l = match lhs.construct(constructor) {
                    Ok(x) => x,
                    Err(e) => {
                        return Err(e);
                    },
                };
                let r = match rhs.construct(constructor) {
                    Ok(x) => x,
                    Err(e) => {
                        return Err(e);
                    },
                };
                match op {
                    MultiOp::Add | MultiOp::Sub | MultiOp::Mul | MultiOp::Div | MultiOp::Mod => {
                        constructor.emit_binary(*op, l, r)
                    },
                    _ => Err(CompileError::UnsupportedOperator),
                }
            },
            Expr::Unary(op, inner) => {
                let x = match inner.construct(constructor) {
                    Ok(v) => v,
                    Err(e) => {
                        return Err(e);
                    },
                };
                let z = match constructor.new_value(ValueData::Integer(0)) {
                    Ok(v) => v,
                    Err(e) => {
                        return Err(e);
                    },
                };
                match op {
                    UnaryOp::Neg => constructor.emit_binary(MultiOp::Sub, z, x),
                    UnaryOp::Not => constructor.emit_binary(MultiOp::Eq, z, x),
                    UnaryOp::Pos => Ok(x),
                }
            },
        }
    }
}

impl Stmt {
    /// Lower one statement into the current block.
    pub fn construct(&self, constructor: &mut Constructor) -> (r: Result<(), CompileError>)
        requires
            ctor_wf(old(constructor)@),
        ensures
            ctor_wf(final(constructor)@),
            match r {
                Ok(_) => spec_construct_stmt(old(constructor)@, *self) == Ok::<
                    CtorV,
                    CompileError,
                >(final(constructor)@),
                Err(e) => spec_construct_stmt(old(constructor)@, *self) == Err::<
                    CtorV,
                    CompileError,
                >(e),
            },
    {
        match self {
            Stmt::Return(expr) => {
                let reduced = match expr.reduce(constructor) {
                    Ok(x) => x,
                    Err(e) => {
                        return Err(e);
                    },
                };
                let res = match reduced.construct(constructor) {
                    Ok(x) => x,
                    Err(e) => {
                        return Err(e);
                    },
                };
                let rid = match constructor.new_value(ValueData::Return(Some(res))) {
                    Ok(x) => x,
                    Err(e) => {
                        return Err(e);
                    },
                };
                match constructor.push_inst(rid) {
                    Ok(_) => Ok(()),
                    Err(e) => Err(e),
                }
            },
        }
    }
}

impl Block {
    /// Lower a statement list in order.
    pub fn construct(&self, constructor: &mut Constructor) -> (r: Result<(), CompileError>)
        requires
            ctor_wf(old(constructor)@),
        ensures
            ctor_wf(final(constructor)@),
            match r {
                Ok(_) => spec_construct_stmts(old(constructor)@, self.stmts@) == Ok::<
                    CtorV,
                    CompileError,
                >(final(constructor)@),
                Err(e) => spec_construct_stmts(old(constructor)@, self.stmts@) == Err::<
                    CtorV,
                    CompileError,
                >(e),
            },
    {
        let mut i: usize = 0;
        proof {
            assert(self.stmts@.skip(0) =~= self.stmts@);
        }
        while i < self.stmts.len()
            invariant
                i <= self.stmts@.len(),
                ctor_wf(constructor@),
                spec_construct_stmts(old(constructor)@, self.stmts@) == spec_construct_stmts(
                    constructor@,
                    self.stmts@.skip(i as int),
                ),
            decreases self.stmts@.len() - i,
        {
            match self.stmts[i].construct(constructor) {
                Ok(_) => {},
                Err(e) => {
                    proof {
                        assert(self.stmts@.skip(i as int)[0] == self.stmts@[i as int]);
                    }
                    return Err(e);
                },
            }
            proof {
                assert(self.stmts@.skip(i as int)[0] == self.stmts@[i as int]);
                assert(self.stmts@.skip(i as int).drop_first() =~= self.stmts@.skip(i + 1 as int));
            }
            i = i + 1;
        }
        proof {
            assert(self.stmts@.skip(i as int) =~= Seq::<Stmt>::empty());
        }
        Ok(())
    }
}

impl Func {
    /// Lower one function definition: allocate it, open its entry block,
    /// then lower the body.
    pub fn construct(&self, constructor: &mut Constructor) -> (r: Result<(), CompileError>)
        requires
            ctor_wf(old(constructor)@),
        ensures
            ctor_wf(final(constructor)@),
            match r {
                Ok(_) => spec_construct_func(old(constructor)@, *self) == Ok::<
                    CtorV,
                    CompileError,
                >(final(constructor)@),
                Err(e) => spec_construct_func(old(constructor)@, *self) == Err::<
                    CtorV,
                    CompileError,
                >(e),
            },
    {
        constructor.new_func(self);
        match constructor.new_bb(String::from_str("%entry")) {
            Ok(_) => {},
            Err(e) => {
                return Err(e);
            },
        }
        self.body.construct(constructor)
    }
}

impl Decl {
    /// Process one declaration: constants are folded and recorded, variables
    /// are recorded with their constructed initial value, if any.
    #[verifier::loop_isolation(false)]
    pub fn construct(&self, constructor: &mut Constructor) -> (r: Result<(), CompileError>)
        requires
            ctor_wf(old(constructor)@),
        ensures
            ctor_wf(final(constructor)@),
            match r {
                Ok(_) => spec_construct_decl(old(constructor)@, *self) == Ok::<
                    CtorV,
                    CompileError,
                >(final(constructor)@),
                Err(e) => spec_construct_decl(old(constructor)@, *self) == Err::<
                    CtorV,
                    CompileError,
                >(e),
            },
    {
        match self {
            Decl::Const(_, inits) => {
                let mut i: usize = 0;
                proof {
                    assert(inits@.skip(0) =~= inits@);
                }
                while i < inits.len()
                    invariant
                        i <= inits@.len(),
                        ctor_wf(constructor@),
                        spec_construct_const_inits(old(constructor)@, inits@)
                            == spec_construct_const_inits(constructor@, inits@.skip(i as int)),
                    decreases inits@.len() - i,
                {
                    proof {
                        assert(inits@.skip(i as int)[0] == inits@[i as int]);
                    }
                    let init = &inits[i];
                    match &init.value {
                        None => {
                            return Err(CompileError::IllFormedConst);
                        },
                        Some(e) => {
                            let reduced = match e.reduce(constructor) {
                                Ok(x) => x,
                                Err(er) => {
                                    return Err(er);
                                },
                            };
                            match reduced {
                                Expr::Value(Value::Num(n)) => {
                                    constructor.insert_const(&init.name, n);
                                },
                                _ => {
                                    return Err(CompileError::IllFormedConst);
                                },
                            }
                        },
                    }
                    proof {
                        assert(inits@.skip(i as int).drop_first() =~= inits@.skip(i + 1 as int));
                    }
                    i = i + 1;
                }
                proof {
                    assert(inits@.skip(i as int) =~= Seq::<Init>::empty());
                }
                Ok(())
            },
            Decl::Var(_, inits) => {
                let mut i: usize = 0;
                proof {
                    assert(inits@.skip(0) =~= inits@);
                }
                while i < inits.len()
                    invariant
                        i <= inits@.len(),
                        ctor_wf(constructor@),
                        spec_construct_var_inits(old(constructor)@, inits@)
                            == spec_construct_var_inits(constructor@, inits@.skip(i as int)),
                    decreases inits@.len() - i,
                {
                    proof {
                        assert(inits@.skip(i as int)[0] == inits@[i as int]);
                    }
                    let init = &inits[i];
                    match &init.value {
                        None => {
                            constructor.insert_var(&init.name, None);
                        },
                        Some(e) => {
                            let reduced = match e.reduce(constructor) {
                                Ok(x) => x,
                                Err(er) => {
                                    return Err(er);
                                },
                            };
                            let id = match reduced.construct(constructor) {
                                Ok(x) => x,
                                Err(er) => {
                                    return Err(er);
                                },
                            };
                            constructor.insert_var(&init.name, Some(id));
                        },
                    }
                    proof {
                        assert(inits@.skip(i as int).drop_first() =~= inits@.skip(i + 1 as int));
                    }
                    i = i + 1;
                }
                proof {
                    assert(inits@.skip(i as int) =~= Seq::<Init>::empty());
                }
                Ok(())
            },
        }
    }
}

impl GlobalObj {
    /// Process one global symbol.
    pub fn construct(&self, constructor: &mut Constructor) -> (r: Result<(), CompileError>)
        requires
            ctor_wf(old(constructor)@),
        ensures
            ctor_wf(final(constructor)@),
            match r {
                Ok(_) => spec_construct_obj(old(constructor)@, *self) == Ok::<
                    CtorV,
                    CompileError,
                >(final(constructor)@),
                Err(e) => spec_construct_obj(old(constructor)@, *self) == Err::<
                    CtorV,
                    CompileError,
                >(e),
            },
    {
        match self {
            GlobalObj::Decl(decl) => decl.construct(constructor),
            GlobalObj::Func(func) => func.construct(constructor),
        }
    }
}

/// Translate one syntax-model unit into one populated program, in one pass,
/// in declaration order.
pub fn construct(ast: &Ast) -> (r: Result<Program, CompileError>)
    ensures
        match r {
            Ok(p) => spec_construct(*ast) == Ok::<ProgramV, CompileError>(p@) && funcs_have_entry(
                p@,
            ),
            Err(e) => spec_construct(*ast) == Err::<ProgramV, CompileError>(e),
        },
{
    let total = ast.obj.len();
    proof {
        assert(ast.obj@.len() == total as nat);
        lemma_construct_funcs_have_entry(*ast);
    }
    let mut constructor = Constructor::new();
    let mut i: usize = 0;
    proof {
        assert(ast.obj@.skip(0) =~= ast.obj@);
    }
    while i < ast.obj.len()
        invariant
            i <= ast.obj@.len(),
            ctor_wf(constructor@),
            spec_construct_objs(init_ctor(), ast.obj@) == spec_construct_objs(
                constructor@,
                ast.obj@.skip(i as int),
            ),
        decreases ast.obj@.len() - i,
    {
        proof {
            assert(ast.obj@.skip(i as int)[0] == ast.obj@[i as int]);
        }
        match ast.obj[i].construct(&mut constructor) {
            Ok(_) => {},
            Err(e) => {
                return Err(e);
            },
        }
        proof {
            assert(ast.obj@.skip(i as int).drop_first() =~= ast.obj@.skip(i + 1 as int));
        }
        i = i + 1;
    }
    proof {
        assert(ast.obj@.skip(i as int) =~= Seq::<GlobalObj>::empty());
    }
    Ok(constructor.program)
}

} // verus!
