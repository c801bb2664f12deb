//! Code generator: walks a completed program in layout order and emits the
//! target assembly text, one instruction pattern at a time.

use crate::ir::{FunctionData, FunctionV, Program, ValueData};
use crate::CompileError;
use vstd::prelude::*;
use vstd::string::StrSliceExecFns;
use vstd::string::StringExecFns;

verus! {

/// The character of one decimal digit.
pub open spec fn dec_digit(d: int) -> char {
    if d == 0 {
        '0'
    } else if d == 1 {
        '1'
    } else if d == 2 {
        '2'
    } else if d == 3 {
        '3'
    } else if d == 4 {
        '4'
    } else if d == 5 {
        '5'
    } else if d == 6 {
        '6'
    } else if d == 7 {
        '7'
    } else if d == 8 {
        '8'
    } else {
        '9'
    }
}

/// The decimal digits of a natural number, most significant first.
pub open spec fn dec_digits(n: nat) -> Seq<char>
    decreases n,
{
    if n < 10 {
        seq![dec_digit(n as int)]
    } else {
        dec_digits(n / 10).push(dec_digit((n % 10) as int))
    }
}

/// The decimal rendering of an integer, with a leading minus sign when
/// negative.
pub open spec fn dec_str(x: int) -> Seq<char> {
    if x < 0 {
        seq!['-'] + dec_digits((-x) as nat)
    } else {
        dec_digits(x as nat)
    }
}

/// The assembly emitted for one instruction of `f`. A return of an integer
/// literal loads it into the return register; a bare return just returns;
/// any other operand or instruction kind is unimplemented and fails rather
/// than emit wrong code.
pub open spec fn asm_of_inst(f: FunctionV, id: usize) -> Result<Seq<char>, CompileError> {
    if id >= f.values.len() {
        Err(CompileError::MalformedProgram)
    } else {
        match f.values[id as int] {
            ValueData::Return(opt) => match opt {
                None => Ok("    ret\n"@),
                Some(vid) => if vid >= f.values.len() {
                    Err(CompileError::MalformedProgram)
                } else {
                    match f.values[vid as int] {
                        ValueData::Integer(n) => Ok(
                            "    li a0, "@ + dec_str(n as int) + "\n    ret\n"@,
                        ),
                        _ => Err(CompileError::NonLiteralReturn),
                    }
                },
            },
            _ => Err(CompileError::UnsupportedInstruction),
        }
    }
}

/// The assembly of a list of instructions, in insertion order.
pub open spec fn asm_of_insts(f: FunctionV, insts: Seq<usize>) -> Result<Seq<char>, CompileError>
    decreases insts.len(),
{
    if insts.len() == 0 {
        Ok(Seq::empty())
    } else {
        match asm_of_inst(f, insts[0]) {
            Err(e) => Err(e),
            Ok(s) => match asm_of_insts(f, insts.drop_first()) {
                Err(e) => Err(e),
                Ok(rest) => Ok(s + rest),
            },
        }
    }
}

/// The assembly of a function's blocks, in layout order.
pub open spec fn asm_of_bbs(f: FunctionV, bi: int) -> Result<Seq<char>, CompileError>
    recommends
        0 <= bi <= f.bbs.len(),
    decreases f.bbs.len() - bi,
{
    if bi >= f.bbs.len() {
        Ok(Seq::empty())
    } else {
        match asm_of_insts(f, f.bbs[bi].insts) {
            Err(e) => Err(e),
            Ok(s) => match asm_of_bbs(f, bi + 1) {
                Err(e) => Err(e),
                Ok(rest) => Ok(s + rest),
            },
        }
    }
}

/// The assembly of one function: a `.globl` directive and a label carrying
/// the source name (the IR-level `@` prefix stripped back off), then the
/// blocks' instructions.
pub open spec fn asm_of_func(f: FunctionV) -> Result<Seq<char>, CompileError> {
    if f.name.len() < 1 {
        Err(CompileError::MalformedProgram)
    } else {
        let nm = f.name.subrange(1, f.name.len() as int);
        match asm_of_bbs(f, 0) {
            Err(e) => Err(e),
            Ok(body) => Ok(".globl "@ + nm + "\n"@ + nm + ":\n"@ + body),
        }
    }
}

/// The assembly of the functions from layout position `fi` on.
pub open spec fn asm_of_funcs(funcs: Seq<FunctionV>, fi: int) -> Result<Seq<char>, CompileError>
    recommends
        0 <= fi <= funcs.len(),
    decreases funcs.len() - fi,
{
    if fi >= funcs.len() {
        Ok(Seq::empty())
    } else {
        match asm_of_func(funcs[fi]) {
            Err(e) => Err(e),
            Ok(s) => match asm_of_funcs(funcs, fi + 1) {
                Err(e) => Err(e),
                Ok(rest) => Ok(s + rest),
            },
        }
    }
}

/// The whole emitted text: one text section header, then every function in
/// program layout order.
pub open spec fn asm_of_program(funcs: Seq<FunctionV>) -> Result<Seq<char>, CompileError> {
    match asm_of_funcs(funcs, 0) {
        Err(e) => Err(e),
        Ok(body) => Ok(".text\n"@ + body),
    }
}

/// One decimal digit as text.
fn digit_str(d: u32) -> (s: &'static str)
    requires
        d < 10,
    ensures
        s@ == seq![dec_digit(d as int)],
{
    proof {
        reveal_strlit("0");
        reveal_strlit("1");
        reveal_strlit("2");
        reveal_strlit("3");
        reveal_strlit("4");
        reveal_strlit("5");
        reveal_strlit("6");
        reveal_strlit("7");
        reveal_strlit("8");
        reveal_strlit("9");
    }
    let s = match d {
        0u32 => "0",
        1u32 => "1",
        2u32 => "2",
        3u32 => "3",
        4u32 => "4",
        5u32 => "5",
        6u32 => "6",
        7u32 => "7",
        8u32 => "8",
        _ => "9",
    };
    proof {
        assert(s@ =~= seq![dec_digit(d as int)]);
    }
    s
}

/// Append the decimal digits of `n`.
fn push_dec_u32(n: u32, out: &mut String)
    ensures
        final(out)@ == old(out)@ + dec_digits(n as nat),
    decreases n,
{
    if n < 10 {
        out.append(digit_str(n));
    } else {
        push_dec_u32(n / 10, out);
        out.append(digit_str(n % 10));
        proof {
            assert(out@ =~= old(out)@ + dec_digits(n as nat));
        }
    }
}

/// Append the decimal rendering of a 32-bit integer.
fn push_dec_i32(x: i32, out: &mut String)
    ensures
        final(out)@ == old(out)@ + dec_str(x as int),
{
    if x < 0 {
        proof {
            reveal_strlit("-");
        }
        out.append("-");
        let m: u32 = (-(x as i64)) as u32;
        push_dec_u32(m, out);
        proof {
            assert("-"@ =~= seq!['-']);
            assert(out@ =~= old(out)@ + dec_str(x as int));
        }
    } else {
        push_dec_u32(x as u32, out);
    }
}

/// Emit one instruction of `f` onto `out`.
fn gen_inst(f: &FunctionData, id: usize, out: &mut String) -> (r: Result<(), CompileError>)
    ensures
        match r {
            Ok(_) => asm_of_inst(f@, id) matches Ok(s) && final(out)@ == old(out)@ + s,
            Err(e) => asm_of_inst(f@, id) == Err::<Seq<char>, CompileError>(e)
                && final(out)@ == old(out)@,
        },
{
    if id >= f.values.len() {
        return Err(CompileError::MalformedProgram);
    }
    match f.values[id] {
        ValueData::Return(opt) => match opt {
            None => {
                out.append("    ret\n");
                Ok(())
            },
            Some(vid) => {
                if vid >= f.values.len() {
                    return Err(CompileError::MalformedProgram);
                }
                match f.values[vid] {
                    ValueData::Integer(n) => {
                        out.append("    li a0, ");
                        push_dec_i32(n, out);
                        out.append("\n    ret\n");
                        proof {
                            assert(out@ =~= old(out)@ + ("    li a0, "@ + dec_str(n as int)
                                + "\n    ret\n"@));
                        }
                        Ok(())
                    },
                    _ => Err(CompileError::NonLiteralReturn),
                }
            },
        },
        _ => Err(CompileError::UnsupportedInstruction),
    }
}

impl FunctionData {
    /// Emit this function's directive, label and instructions onto `out`.
    /// On an error, what was already written stays written; the caller
    /// discards the buffer.
    #[verifier::loop_isolation(false)]
    pub fn generate(&self, out: &mut String) -> (r: Result<(), CompileError>)
        ensures
            match r {
                Ok(_) => asm_of_func(self@) matches Ok(s) && final(out)@ == old(out)@ + s,
                Err(e) => asm_of_func(self@) == Err::<Seq<char>, CompileError>(e),
            },
    {
        let len = self.name.as_str().unicode_len();
        if len < 1 {
            return Err(CompileError::MalformedProgram);
        }
        let stripped = self.name.as_str().substring_char(1, len);
        out.append(".globl ");
        out.append(stripped);
        out.append("\n");
        out.append(stripped);
        out.append(":\n");
        let ghost header = ".globl "@ + self@.name.subrange(1, self@.name.len() as int) + "\n"@
            + self@.name.subrange(1, self@.name.len() as int) + ":\n"@;
        proof {
            assert(out@ =~= old(out)@ + header);
        }
        let ghost base = out@;
        let mut bi: usize = 0;
        proof {
            assert(out@.subrange(0, base.len() as int) =~= base);
            assert(out@.skip(base.len() as int) =~= Seq::<char>::empty());
            if asm_of_bbs(self@, 0) is Ok {
                let rest = asm_of_bbs(self@, 0).unwrap();
                assert(Seq::<char>::empty() + rest =~= rest);
            }
        }
        while bi < self.bbs.len()
            invariant
                bi <= self.bbs@.len(),
                base == old(out)@ + header,
                base.len() <= out@.len(),
                out@.subrange(0, base.len() as int) == base,
                asm_of_bbs(self@, 0) == (match asm_of_bbs(self@, bi as int) {
                    Ok(rest) => Ok::<Seq<char>, CompileError>(
                        out@.skip(base.len() as int) + rest,
                    ),
                    Err(e) => Err::<Seq<char>, CompileError>(e),
                }),
            decreases self.bbs@.len() - bi,
        {
            let ghost acc = out@.skip(base.len() as int);
            proof {
                assert(self@.bbs[bi as int].insts == self.bbs[bi as int].insts@);
            }
            let r = gen_insts(self, &self.bbs[bi].insts, out);
            match r {
                Ok(_) => {},
                Err(e) => {
                    return Err(e);
                },
            }
            proof {
                assert(out@.subrange(0, base.len() as int) =~= base);
                assert(out@.skip(base.len() as int) =~= acc + out@.skip(
                    (base.len() + acc.len()) as int,
                ));
                let s = asm_of_insts(self@, self@.bbs[bi as int].insts).unwrap();
                assert(out@.skip(base.len() as int) =~= acc + s);
                if asm_of_bbs(self@, bi + 1) is Ok {
                    let rest = asm_of_bbs(self@, bi + 1).unwrap();
                    assert((acc + s) + rest =~= acc + (s + rest));
                }
            }
            bi = bi + 1;
        }
        proof {
            let body = out@.skip(base.len() as int);
            assert(body + Seq::<char>::empty() =~= body);
            assert(out@ =~= base + body);
            assert(old(out)@ + (header + body) =~= (old(out)@ + header) + body);
        }
        Ok(())
    }
}

/// Emit a block's instructions, in insertion order, onto `out`.
fn gen_insts(f: &FunctionData, insts: &Vec<usize>, out: &mut String) -> (r: Result<
    (),
    CompileError,
>)
    ensures
        match r {
            Ok(_) => asm_of_insts(f@, insts@) matches Ok(s) && final(out)@ == old(out)@ + s,
            Err(e) => asm_of_insts(f@, insts@) == Err::<Seq<char>, CompileError>(e),
        },
{
    let mut i: usize = 0;
    proof {
        assert(insts@.skip(0) =~= insts@);
        assert(out@.subrange(0, old(out)@.len() as int) =~= old(out)@);
        assert(out@.skip(old(out)@.len() as int) =~= Seq::<char>::empty());
        if asm_of_insts(f@, insts@) is Ok {
            let rest = asm_of_insts(f@, insts@).unwrap();
            assert(Seq::<char>::empty() + rest =~= rest);
        }
    }
    while i < insts.len()
        invariant
            i <= insts@.len(),
            old(out)@.len() <= out@.len(),
            out@.subrange(0, old(out)@.len() as int) == old(out)@,
            asm_of_insts(f@, insts@) == (match asm_of_insts(f@, insts@.skip(i as int)) {
                Ok(rest) => Ok::<Seq<char>, CompileError>(
                    out@.skip(old(out)@.len() as int) + rest,
                ),
                Err(e) => Err::<Seq<char>, CompileError>(e),
            }),
        decreases insts@.len() - i,
    {
        let ghost acc = out@.skip(old(out)@.len() as int);
        proof {
            assert(insts@.skip(i as int)[0] == insts@[i as int]);
            assert(insts@.skip(i as int).drop_first() =~= insts@.skip(i + 1 as int));
        }
        let r = gen_inst(f, insts[i], out);
        match r {
            Ok(_) => {},
            Err(e) => {
                return Err(e);
            },
        }
        proof {
            assert(out@.subrange(0, old(out)@.len() as int) =~= old(out)@);
            let s = asm_of_inst(f@, insts@[i as int]).unwrap();
            assert(out@.skip(old(out)@.len() as int) =~= acc + s);
            if asm_of_insts(f@, insts@.skip(i + 1 as int)) is Ok {
                let rest = asm_of_insts(f@, insts@.skip(i + 1 as int)).unwrap();
                assert((acc + s) + rest =~= acc + (s + rest));
            }
        }
        i = i + 1;
    }
    proof {
        assert(insts@.skip(i as int) =~= Seq::<usize>::empty());
        let body = out@.skip(old(out)@.len() as int);
        assert(body + Seq::<char>::empty() =~= body);
        assert(out@ =~= old(out)@ + body);
    }
    Ok(())
}

/// Read a fully built program and emit its assembly text: the text section
/// header, then each function in layout order.
pub fn assemble(program: &Program) -> (r: Result<String, CompileError>)
    ensures
        match r {
            Ok(s) => asm_of_program(program@.funcs) == Ok::<Seq<char>, CompileError>(s@),
            Err(e) => asm_of_program(program@.funcs) == Err::<Seq<char>, CompileError>(e),
        },
{
    let mut out = String::from_str(".text\n");
    let ghost base = ".text\n"@;
    let mut fi: usize = 0;
    proof {
        assert(out@.subrange(0, base.len() as int) =~= base);
        assert(out@.skip(base.len() as int) =~= Seq::<char>::empty());
        if asm_of_funcs(program@.funcs, 0) is Ok {
            let rest = asm_of_funcs(program@.funcs, 0).unwrap();
            assert(Seq::<char>::empty() + rest =~= rest);
        }
    }
    while fi < program.funcs.len()
        invariant
            fi <= program.funcs@.len(),
            base == ".text\n"@,
            base.len() <= out@.len(),
            out@.subrange(0, base.len() as int) == base,
            asm_of_funcs(program@.funcs, 0) == (match asm_of_funcs(program@.funcs, fi as int) {
                Ok(rest) => Ok::<Seq<char>, CompileError>(out@.skip(base.len() as int) + rest),
                Err(e) => Err::<Seq<char>, CompileError>(e),
            }),
        decreases program.funcs@.len() - fi,
    {
        let ghost acc = out@.skip(base.len() as int);
        proof {
            assert(program@.funcs[fi as int] == program.funcs@[fi as int]@);
        }
        let r = program.funcs[fi].generate(&mut out);
        match r {
            Ok(_) => {},
            Err(e) => {
                return Err(e);
            },
        }
        proof {
            assert(out@.subrange(0, base.len() as int) =~= base);
            let s = asm_of_func(program@.funcs[fi as int]).unwrap();
            assert(out@.skip(base.len() as int) =~= acc + s);
            if asm_of_funcs(program@.funcs, fi + 1) is Ok {
                let rest = asm_of_funcs(program@.funcs, fi + 1).unwrap();
                assert((acc + s) + rest =~= acc + (s + rest));
            }
        }
        fi = fi + 1;
    }
    proof {
        let body = out@.skip(base.len() as int);
        assert(body + Seq::<char>::empty() =~= body);
        assert(out@ =~= base + body);
    }
    Ok(out)
}

} // verus!
