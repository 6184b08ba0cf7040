//! Diagnostics: the recoverable failure values of a translation.
//!
//! The translator never panics and never terminates the process; every
//! violation is returned up the call chain as a `CompileError`. A failure
//! names what was expected and what was found (or that nothing was found,
//! at end of input), or reports an undeclared identifier, a binding used
//! as the wrong kind, or an arithmetic fault.

use vstd::prelude::*;

verus! {

/// What the translator was looking for when a mismatch was found.
#[derive(Clone, Copy, PartialEq, Eq, Structural, Debug)]
pub enum Expectation {
    /// One specific literal byte.
    Lit(u8),
    /// An identifier.
    Name,
    /// A decimal integer.
    Number,
    /// A one-character condition code.
    Condition,
    /// The else introducer or the end marker of a conditional.
    ElseOrEnd,
    /// A statement or a block terminator.
    Statement,
    /// The start of a factor: a parenthesis, an identifier or a number.
    Factor,
}

/// A translation failure. Division by zero and out-of-range results are
/// reported as arithmetic faults rather than wrapping silently: the
/// evaluator rejects any value outside the 32-bit signed range.
#[derive(PartialEq, Eq, Debug)]
pub enum CompileError {
    /// The look-ahead failed to match what the grammar required;
    /// `found` is `None` when the input ended too early.
    Expected { what: Expectation, found: Option<u8> },
    /// A value was read through a name that was never given one.
    Undeclared { name: Vec<u8> },
    /// A name bound as one kind (declaration flag or integer value)
    /// was used as the other; bindings are never rebound across kinds.
    KindConflict { name: Vec<u8> },
    /// A division whose divisor evaluated to zero.
    DivByZero,
    /// A literal or an intermediate result outside the 32-bit signed range.
    Overflow,
}

/// Mathematical image of `CompileError`: identifier bytes as sequences.
pub enum ErrSpec {
    Expected { what: Expectation, found: Option<u8> },
    Undeclared { name: Seq<u8> },
    KindConflict { name: Seq<u8> },
    DivByZero,
    Overflow,
}

impl View for CompileError {
    type V = ErrSpec;

    open spec fn view(&self) -> ErrSpec {
        match self {
            CompileError::Expected { what, found } => ErrSpec::Expected { what: *what, found: *found },
            CompileError::Undeclared { name } => ErrSpec::Undeclared { name: name@ },
            CompileError::KindConflict { name } => ErrSpec::KindConflict { name: name@ },
            CompileError::DivByZero => ErrSpec::DivByZero,
            CompileError::Overflow => ErrSpec::Overflow,
        }
    }
}

impl DeepView for CompileError {
    type V = ErrSpec;

    open spec fn deep_view(&self) -> ErrSpec {
        self@
    }
}

} // verus!
