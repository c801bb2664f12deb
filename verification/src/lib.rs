use vstd::prelude::*;

pub mod ast;
pub mod codegen;
pub mod ir;

verus! {

/// Every failure that can abort compilation of a unit. No error is recovered
/// locally: each one propagates out of the pass that found it.
#[derive(Clone, Copy, Debug, PartialEq, Eq, Structural)]
pub enum CompileError {
    /// A named reference that is not a known constant reached lowering;
    /// loading variables is not supported yet.
    NonConstReference,
    /// A logical or relational operator survived folding and reached
    /// lowering, which only supports the arithmetic operators.
    UnsupportedOperator,
    /// Code generation met a return whose operand is not an integer literal.
    NonLiteralReturn,
    /// Code generation met an instruction kind it does not lower.
    UnsupportedInstruction,
    /// A value or instruction was requested while no function (or no basic
    /// block) was under construction.
    NoFunctionContext,
    /// A `const` initializer was missing or did not fold to a literal.
    IllFormedConst,
    /// Compile-time division or modulo by zero.
    DivisionByZero,
    /// A folded intermediate result left the 32-bit signed range.
    Overflow,
    /// A handle did not resolve inside its owning function, or a function
    /// name lacked the IR-level prefix; constructed programs never trip this.
    MalformedProgram,
}

} // verus!
