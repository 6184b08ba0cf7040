//! The emit sink's vocabulary: one value per emitted instruction line.
//!
//! The sink is an append-only ordered sequence of these instructions; the
//! translator only ever pushes at the end and never reads the sink back.
//! `crate::render` fixes one concrete textual spelling for each form.

use vstd::prelude::*;

verus! {

/// One emitted instruction. Emission order is exactly the order in which
/// the source constructs were recognized.
#[derive(PartialEq, Eq, Debug)]
pub enum Instr {
    /// Opens the surrounding module.
    ModuleOpen,
    /// Closes the surrounding module.
    ModuleClose,
    /// Opens the main function, which is declared to yield a 32-bit result.
    MainOpen,
    /// The return at the end of the main function.
    MainReturn,
    /// Closes the main function.
    MainClose,
    /// Exports the main function under its public name.
    ExportMain,
    /// Declares a one-character local of the control-flow language.
    LocalFlag(u8),
    /// Opens a conditional, tagged with its one-character condition code.
    IfOpen(u8),
    /// Marks the start of the else branch of the innermost conditional.
    ElseMarker,
    /// Closes a conditional.
    IfClose,
    /// Opens a pre-check loop; its condition reference follows at once.
    WhileOpen,
    /// Closes a pre-check loop.
    WhileClose,
    /// Opens an unconditional loop.
    LoopOpen,
    /// Closes an unconditional loop.
    LoopClose,
    /// Opens a post-check loop; its condition reference precedes the close.
    RepeatOpen,
    /// Closes a post-check loop.
    RepeatClose,
    /// Evaluates a one-character condition code as an opaque predicate.
    CondRef(u8),
    /// Pushes an integer literal.
    ConstPush(i32),
    /// Adds the two topmost values.
    AddI32,
    /// Subtracts the topmost value from the one below it.
    SubI32,
    /// Multiplies the two topmost values.
    MulI32,
    /// Divides, signed and truncating toward zero.
    DivI32,
    /// Pushes the value of a named local.
    LocalGet(Vec<u8>),
    /// Pops into a named local.
    LocalSet(Vec<u8>),
    /// Calls a named function of no arguments.
    CallFn(Vec<u8>),
}

/// Mathematical image of `Instr`: identifier bytes as sequences.
pub enum InstrSpec {
    ModuleOpen,
    ModuleClose,
    MainOpen,
    MainReturn,
    MainClose,
    ExportMain,
    LocalFlag(u8),
    IfOpen(u8),
    ElseMarker,
    IfClose,
    WhileOpen,
    WhileClose,
    LoopOpen,
    LoopClose,
    RepeatOpen,
    RepeatClose,
    CondRef(u8),
    ConstPush(i32),
    AddI32,
    SubI32,
    MulI32,
    DivI32,
    LocalGet(Seq<u8>),
    LocalSet(Seq<u8>),
    CallFn(Seq<u8>),
}

impl View for Instr {
    type V = InstrSpec;

    open spec fn view(&self) -> InstrSpec {
        match self {
            Instr::ModuleOpen => InstrSpec::ModuleOpen,
            Instr::ModuleClose => InstrSpec::ModuleClose,
            Instr::MainOpen => InstrSpec::MainOpen,
            Instr::MainReturn => InstrSpec::MainReturn,
            Instr::MainClose => InstrSpec::MainClose,
            Instr::ExportMain => InstrSpec::ExportMain,
            Instr::LocalFlag(c) => InstrSpec::LocalFlag(*c),
            Instr::IfOpen(c) => InstrSpec::IfOpen(*c),
            Instr::ElseMarker => InstrSpec::ElseMarker,
            Instr::IfClose => InstrSpec::IfClose,
            Instr::WhileOpen => InstrSpec::WhileOpen,
            Instr::WhileClose => InstrSpec::WhileClose,
            Instr::LoopOpen => InstrSpec::LoopOpen,
            Instr::LoopClose => InstrSpec::LoopClose,
            Instr::RepeatOpen => InstrSpec::RepeatOpen,
            Instr::RepeatClose => InstrSpec::RepeatClose,
            Instr::CondRef(c) => InstrSpec::CondRef(*c),
            Instr::ConstPush(n) => InstrSpec::ConstPush(*n),
            Instr::AddI32 => InstrSpec::AddI32,
            Instr::SubI32 => InstrSpec::SubI32,
            Instr::MulI32 => InstrSpec::MulI32,
            Instr::DivI32 => InstrSpec::DivI32,
            Instr::LocalGet(n) => InstrSpec::LocalGet(n@),
            Instr::LocalSet(n) => InstrSpec::LocalSet(n@),
            Instr::CallFn(n) => InstrSpec::CallFn(n@),
        }
    }
}

impl DeepView for Instr {
    type V = InstrSpec;

    open spec fn deep_view(&self) -> InstrSpec {
        self@
    }
}

/// Appends one instruction to an emit sink.
pub fn emit_instr(out: &mut Vec<Instr>, i: Instr)
    ensures
        final(out).deep_view() == old(out).deep_view().push(i@),
{
    let ghost pre = out.deep_view();
    out.push(i);
    proof {
        assert(out.deep_view() =~= pre.push(i@));
    }
}

} // verus!
