//! The mathematical model of the control-flow translator.
//!
//! Every consuming routine of the translator is proved equal to one of the
//! specification functions below, which read the input byte sequence from a
//! position and say what is consumed, what is emitted, how the symbol table
//! changes, and whether translation halts on a failure. The model makes the
//! translator deterministic by construction: the emitted instructions are a
//! pure function of the input bytes.
//!
//! Look-ahead convention: position `p` holds the look-ahead character;
//! end of input is the absent look-ahead. Every grammar procedure begins
//! and ends with a valid look-ahead position (at most the input length).

use vstd::prelude::*;
use crate::diag::Expectation;
use crate::diag::ErrSpec;
use crate::instr::InstrSpec;
use crate::table::TblSpec;
use crate::table::tbl_declare;

verus! {

/// Conditional statement keyword.
pub const KW_IF: u8 = 105;

/// Else-branch introducer of a conditional.
pub const KW_ELSE: u8 = 108;

/// Terminator of a conditional, a pre-check loop, an unconditional loop,
/// a block, and of the whole program.
pub const KW_END: u8 = 101;

/// Pre-check loop keyword.
pub const KW_WHILE: u8 = 119;

/// Unconditional loop keyword.
pub const KW_LOOP: u8 = 112;

/// Post-check loop keyword.
pub const KW_REPEAT: u8 = 114;

/// Separator between a post-check loop's body and its condition.
pub const KW_UNTIL: u8 = 117;

/// The only whitespace the translator skips.
pub const SPACE: u8 = 32;

/// The look-ahead at position `p`: the next unconsumed byte, or absent at
/// end of input.
pub open spec fn peek(s: Seq<u8>, p: nat) -> Option<u8> {
    if p < s.len() {
        Some(s[p as int])
    } else {
        None
    }
}

/// How many consecutive spaces stand at position `p`.
pub open spec fn ws_run(s: Seq<u8>, p: nat) -> nat
    decreases s.len() - p,
{
    if p < s.len() && s[p as int] == SPACE {
        1 + ws_run(s, p + 1)
    } else {
        0
    }
}

/// The first non-space position at or after `p`.
pub open spec fn after_ws(s: Seq<u8>, p: nat) -> nat {
    p + ws_run(s, p)
}

/// ASCII letter or digit, as identifiers are spelled.
pub open spec fn alnum(c: u8) -> bool {
    (48 <= c && c <= 57) || (65 <= c && c <= 90) || (97 <= c && c <= 122)
}

/// ASCII decimal digit.
pub open spec fn digit(c: u8) -> bool {
    48 <= c && c <= 57
}

/// ASCII letter.
pub open spec fn alpha(c: u8) -> bool {
    (65 <= c && c <= 90) || (97 <= c && c <= 122)
}

/// Length of the letter-or-digit run at position `p`.
pub open spec fn name_run(s: Seq<u8>, p: nat) -> nat
    decreases s.len() - p,
{
    if p < s.len() && alnum(s[p as int]) {
        1 + name_run(s, p + 1)
    } else {
        0
    }
}

/// Length of the digit run at position `p`.
pub open spec fn num_run(s: Seq<u8>, p: nat) -> nat
    decreases s.len() - p,
{
    if p < s.len() && digit(s[p as int]) {
        1 + num_run(s, p + 1)
    } else {
        0
    }
}

/// What one translation step does: the position reached, the instructions
/// appended (in order, including whatever was already appended when a
/// failure halted the step), the symbol table left behind, and the failure
/// if the step halted on one.
pub struct SOut {
    pub next: nat,
    pub out: Seq<InstrSpec>,
    pub tbl: TblSpec,
    pub err: Option<ErrSpec>,
}

/// A mismatch failure value.
pub open spec fn exp_err(what: Expectation, found: Option<u8>) -> ErrSpec {
    ErrSpec::Expected { what, found }
}

/// A step that halts at `p` having emitted nothing.
pub open spec fn halted(p: nat, t: TblSpec, e: ErrSpec) -> SOut {
    SOut { next: p, out: Seq::empty(), tbl: t, err: Some(e) }
}

/// Consuming the mandatory terminator `c` at `p` and emitting the closing
/// instruction `i` after the instructions `o`; on a mismatch, the failure
/// names `c` and what stood there.
pub open spec fn spec_close(s: Seq<u8>, p: nat, o: Seq<InstrSpec>, t: TblSpec, c: u8, i: InstrSpec) -> SOut {
    if peek(s, p) == Some(c) {
        SOut { next: after_ws(s, p + 1), out: o + seq![i], tbl: t, err: None }
    } else {
        SOut { next: p, out: o, tbl: t, err: Some(exp_err(Expectation::Lit(c), peek(s, p))) }
    }
}

/// An Other statement: the look-ahead byte itself names a one-character
/// local, which is declared and advanced past.
pub open spec fn spec_other(s: Seq<u8>, p: nat, t: TblSpec) -> SOut {
    match peek(s, p) {
        None => halted(p, t, exp_err(Expectation::Name, None)),
        Some(c) => SOut {
            next: p + 1,
            out: seq![InstrSpec::LocalFlag(c)],
            tbl: tbl_declare(t, seq![c]),
            err: None,
        },
    }
}

/// A Condition: the look-ahead byte is emitted as an opaque predicate
/// reference and advanced past.
pub open spec fn spec_condition(s: Seq<u8>, p: nat, t: TblSpec) -> SOut {
    match peek(s, p) {
        None => halted(p, t, exp_err(Expectation::Condition, None)),
        Some(c) => SOut { next: p + 1, out: seq![InstrSpec::CondRef(c)], tbl: t, err: None },
    }
}

/// An If: the conditional opens tagged with its condition code, the then
/// block follows, an optional else marker and else block follow, and the
/// mandatory trailing end keyword closes it.
pub open spec fn spec_if(s: Seq<u8>, p: nat, t: TblSpec) -> SOut
    decreases s.len() - p, 0int,
{
    if peek(s, p) != Some(KW_IF) {
        halted(p, t, exp_err(Expectation::Lit(KW_IF), peek(s, p)))
    } else {
        let p1 = after_ws(s, p + 1);
        match peek(s, p1) {
            None => halted(p1, t, exp_err(Expectation::Condition, None)),
            Some(c) => {
                let p2 = p1 + 1;
                let out0 = seq![InstrSpec::IfOpen(c)];
                let b = if p < p2 <= s.len() {
                    spec_block(s, p2, t)
                } else {
                    SOut { next: p2, out: Seq::empty(), tbl: t, err: None }
                };
                if b.err is Some {
                    SOut { next: b.next, out: out0 + b.out, tbl: b.tbl, err: b.err }
                } else {
                    match peek(s, b.next) {
                        None => SOut {
                            next: b.next,
                            out: out0 + b.out,
                            tbl: b.tbl,
                            err: Some(exp_err(Expectation::ElseOrEnd, None)),
                        },
                        Some(d) => {
                            if d == KW_ELSE {
                                let p3 = after_ws(s, b.next + 1);
                                let out1 = out0 + b.out + seq![InstrSpec::ElseMarker];
                                let b2 = if p < p3 <= s.len() {
                                    spec_block(s, p3, b.tbl)
                                } else {
                                    SOut { next: p3, out: Seq::empty(), tbl: b.tbl, err: None }
                                };
                                if b2.err is Some {
                                    SOut { next: b2.next, out: out1 + b2.out, tbl: b2.tbl, err: b2.err }
                                } else {
                                    spec_close(s, b2.next, out1 + b2.out, b2.tbl, KW_END, InstrSpec::IfClose)
                                }
                            } else {
                                spec_close(s, b.next, out0 + b.out, b.tbl, KW_END, InstrSpec::IfClose)
                            }
                        },
                    }
                }
            },
        }
    }
}

/// A While: the pre-check loop opens, its condition reference is emitted
/// before its body, and the mandatory trailing end keyword closes it.
pub open spec fn spec_while(s: Seq<u8>, p: nat, t: TblSpec) -> SOut
    decreases s.len() - p, 0int,
{
    if peek(s, p) != Some(KW_WHILE) {
        halted(p, t, exp_err(Expectation::Lit(KW_WHILE), peek(s, p)))
    } else {
        let p1 = after_ws(s, p + 1);
        match peek(s, p1) {
            None => SOut {
                next: p1,
                out: seq![InstrSpec::WhileOpen],
                tbl: t,
                err: Some(exp_err(Expectation::Condition, None)),
            },
            Some(c) => {
                let p2 = p1 + 1;
                let out0 = seq![InstrSpec::WhileOpen, InstrSpec::CondRef(c)];
                let b = if p < p2 <= s.len() {
                    spec_block(s, p2, t)
                } else {
                    SOut { next: p2, out: Seq::empty(), tbl: t, err: None }
                };
                if b.err is Some {
                    SOut { next: b.next, out: out0 + b.out, tbl: b.tbl, err: b.err }
                } else {
                    spec_close(s, b.next, out0 + b.out, b.tbl, KW_END, InstrSpec::WhileClose)
                }
            },
        }
    }
}

/// A DoLoop: the unconditional loop opens, its body follows, and the
/// mandatory trailing end keyword closes it.
pub open spec fn spec_doloop(s: Seq<u8>, p: nat, t: TblSpec) -> SOut
    decreases s.len() - p, 0int,
{
    if peek(s, p) != Some(KW_LOOP) {
        halted(p, t, exp_err(Expectation::Lit(KW_LOOP), peek(s, p)))
    } else {
        let p1 = after_ws(s, p + 1);
        let out0 = seq![InstrSpec::LoopOpen];
        let b = if p < p1 <= s.len() {
            spec_block(s, p1, t)
        } else {
            SOut { next: p1, out: Seq::empty(), tbl: t, err: None }
        };
        if b.err is Some {
            SOut { next: b.next, out: out0 + b.out, tbl: b.tbl, err: b.err }
        } else {
            spec_close(s, b.next, out0 + b.out, b.tbl, KW_END, InstrSpec::LoopClose)
        }
    }
}

/// A Repeat: the post-check loop opens, its body follows, the mandatory
/// until keyword separates, and the condition reference is emitted after
/// the body, just before the close.
pub open spec fn spec_repeat(s: Seq<u8>, p: nat, t: TblSpec) -> SOut
    decreases s.len() - p, 0int,
{
    if peek(s, p) != Some(KW_REPEAT) {
        halted(p, t, exp_err(Expectation::Lit(KW_REPEAT), peek(s, p)))
    } else {
        let p1 = after_ws(s, p + 1);
        let out0 = seq![InstrSpec::RepeatOpen];
        let b = if p < p1 <= s.len() {
            spec_block(s, p1, t)
        } else {
            SOut { next: p1, out: Seq::empty(), tbl: t, err: None }
        };
        if b.err is Some {
            SOut { next: b.next, out: out0 + b.out, tbl: b.tbl, err: b.err }
        } else {
            if peek(s, b.next) == Some(KW_UNTIL) {
                let p3 = after_ws(s, b.next + 1);
                match peek(s, p3) {
                    None => SOut {
                        next: p3,
                        out: out0 + b.out,
                        tbl: b.tbl,
                        err: Some(exp_err(Expectation::Condition, None)),
                    },
                    Some(c) => SOut {
                        next: p3 + 1,
                        out: out0 + b.out + seq![InstrSpec::CondRef(c), InstrSpec::RepeatClose],
                        tbl: b.tbl,
                        err: None,
                    },
                }
            } else {
                SOut {
                    next: b.next,
                    out: out0 + b.out,
                    tbl: b.tbl,
                    err: Some(exp_err(Expectation::Lit(KW_UNTIL), peek(s, b.next))),
                }
            }
        }
    }
}

/// A Statement: the look-ahead alone selects the production, with no
/// backtracking; anything that opens no construct is an Other statement.
pub open spec fn spec_statement(s: Seq<u8>, p: nat, t: TblSpec) -> SOut
    decreases s.len() - p, 1int,
{
    match peek(s, p) {
        None => halted(p, t, exp_err(Expectation::Statement, None)),
        Some(c) => {
            if c == KW_IF {
                spec_if(s, p, t)
            } else if c == KW_WHILE {
                spec_while(s, p, t)
            } else if c == KW_LOOP {
                spec_doloop(s, p, t)
            } else if c == KW_REPEAT {
                spec_repeat(s, p, t)
            } else {
                spec_other(s, p, t)
            }
        },
    }
}

/// A Block: statements in sequence until a block terminator (end, else or
/// until) stops it; end of input inside a block is an unterminated
/// construct.
pub open spec fn spec_block(s: Seq<u8>, p: nat, t: TblSpec) -> SOut
    decreases s.len() - p, 2int,
{
    match peek(s, p) {
        None => halted(p, t, exp_err(Expectation::Statement, None)),
        Some(c) => {
            if c == KW_END || c == KW_ELSE || c == KW_UNTIL {
                SOut { next: p, out: Seq::empty(), tbl: t, err: None }
            } else {
                let st = spec_statement(s, p, t);
                if st.err is Some {
                    st
                } else if p < st.next <= s.len() {
                    let rest = spec_block(s, st.next, st.tbl);
                    SOut { next: rest.next, out: st.out + rest.out, tbl: rest.tbl, err: rest.err }
                } else {
                    st
                }
            }
        },
    }
}

/// A Program: one block, closed by the mandatory end keyword at the top
/// level, which is consumed without skipping what follows it.
pub open spec fn spec_program(s: Seq<u8>, p: nat, t: TblSpec) -> SOut {
    let b = spec_block(s, p, t);
    if b.err is Some {
        b
    } else {
        match peek(s, b.next) {
            Some(c) => {
                if c == KW_END {
                    SOut { next: b.next + 1, out: b.out, tbl: b.tbl, err: None }
                } else {
                    SOut { next: b.next, out: b.out, tbl: b.tbl, err: Some(exp_err(Expectation::Lit(KW_END), Some(c))) }
                }
            },
            None => SOut { next: b.next, out: b.out, tbl: b.tbl, err: Some(exp_err(Expectation::Lit(KW_END), None)) },
        }
    }
}

/// A whole translation: leading blanks are skipped, the module and main
/// function open, the program is translated, and the main function and
/// module close. The terminal state is reaching the program's outermost
/// end keyword: it succeeds exactly when the program does, and whatever
/// bytes follow the consumed end keyword are left unread.
pub open spec fn spec_emit(s: Seq<u8>, t: TblSpec) -> SOut {
    spec_emit_at(s, 0, t)
}

/// `spec_emit` from an arbitrary cursor position.
pub open spec fn spec_emit_at(s: Seq<u8>, p: nat, t: TblSpec) -> SOut {
    let p0 = after_ws(s, p);
    let out0 = seq![InstrSpec::ModuleOpen, InstrSpec::MainOpen];
    let pr = spec_program(s, p0, t);
    if pr.err is Some {
        SOut { next: pr.next, out: out0 + pr.out, tbl: pr.tbl, err: pr.err }
    } else {
        SOut {
            next: pr.next,
            out: out0 + pr.out + seq![
                InstrSpec::MainReturn,
                InstrSpec::MainClose,
                InstrSpec::ExportMain,
                InstrSpec::ModuleClose,
            ],
            tbl: pr.tbl,
            err: None,
        }
    }
}

/// A space run never reaches past the end of the input.
pub proof fn lemma_ws_run_le(s: Seq<u8>, p: nat)
    requires
        p <= s.len(),
    ensures
        after_ws(s, p) <= s.len(),
    decreases s.len() - p,
{
    if p < s.len() && s[p as int] == SPACE {
        lemma_ws_run_le(s, p + 1);
    }
}

/// A letter-or-digit run never reaches past the end of the input.
pub proof fn lemma_name_run_le(s: Seq<u8>, p: nat)
    requires
        p <= s.len(),
    ensures
        p + name_run(s, p) <= s.len(),
    decreases s.len() - p,
{
    if p < s.len() && alnum(s[p as int]) {
        lemma_name_run_le(s, p + 1);
    }
}

/// A digit run never reaches past the end of the input.
pub proof fn lemma_num_run_le(s: Seq<u8>, p: nat)
    requires
        p <= s.len(),
    ensures
        p + num_run(s, p) <= s.len(),
    decreases s.len() - p,
{
    if p < s.len() && digit(s[p as int]) {
        lemma_num_run_le(s, p + 1);
    }
}

/// Block translation stays within the input and never moves backwards.
pub proof fn lemma_block_bounds(s: Seq<u8>, p: nat, t: TblSpec)
    requires
        p <= s.len(),
    ensures
        p <= spec_block(s, p, t).next <= s.len(),
    decreases s.len() - p, 2int,
{
    if peek(s, p) is Some {
        let c = peek(s, p)->Some_0;
        if !(c == KW_END || c == KW_ELSE || c == KW_UNTIL) {
            lemma_statement_bounds(s, p, t);
            let st = spec_statement(s, p, t);
            if st.err is None && p < st.next <= s.len() {
                lemma_block_bounds(s, st.next, st.tbl);
            }
        }
    }
}

/// Statement translation stays within the input, and a statement that
/// succeeds consumes at least one byte.
pub proof fn lemma_statement_bounds(s: Seq<u8>, p: nat, t: TblSpec)
    requires
        p <= s.len(),
    ensures
        p <= spec_statement(s, p, t).next <= s.len(),
        spec_statement(s, p, t).err is None ==> p < spec_statement(s, p, t).next,
    decreases s.len() - p, 1int,
{
    if peek(s, p) is Some {
        let c = peek(s, p)->Some_0;
        if c == KW_IF {
            lemma_if_bounds(s, p, t);
        } else if c == KW_WHILE {
            lemma_while_bounds(s, p, t);
        } else if c == KW_LOOP {
            lemma_doloop_bounds(s, p, t);
        } else if c == KW_REPEAT {
            lemma_repeat_bounds(s, p, t);
        }
    }
}

/// Conditional translation stays within the input and consumes at least
/// one byte when it succeeds.
pub proof fn lemma_if_bounds(s: Seq<u8>, p: nat, t: TblSpec)
    requires
        p <= s.len(),
    ensures
        p <= spec_if(s, p, t).next <= s.len(),
        spec_if(s, p, t).err is None ==> p < spec_if(s, p, t).next,
    decreases s.len() - p, 0int,
{
    if peek(s, p) == Some(KW_IF) {
        lemma_ws_run_le(s, p + 1);
        let p1 = after_ws(s, p + 1);
        if peek(s, p1) is Some {
            let p2 = p1 + 1;
            lemma_block_bounds(s, p2, t);
            let b = spec_block(s, p2, t);
            if b.err is None {
                match peek(s, b.next) {
                    Some(d) => {
                        if d == KW_ELSE {
                            lemma_ws_run_le(s, b.next + 1);
                            let p3 = after_ws(s, b.next + 1);
                            lemma_block_bounds(s, p3, b.tbl);
                            let b2 = spec_block(s, p3, b.tbl);
                            if b2.err is None && peek(s, b2.next) == Some(KW_END) {
                                lemma_ws_run_le(s, b2.next + 1);
                            }
                        } else {
                            if d == KW_END {
                                lemma_ws_run_le(s, b.next + 1);
                            }
                        }
                    },
                    None => {},
                }
            }
        }
    }
}

/// Pre-check loop translation stays within the input and consumes at least
/// one byte when it succeeds.
pub proof fn lemma_while_bounds(s: Seq<u8>, p: nat, t: TblSpec)
    requires
        p <= s.len(),
    ensures
        p <= spec_while(s, p, t).next <= s.len(),
        spec_while(s, p, t).err is None ==> p < spec_while(s, p, t).next,
    decreases s.len() - p, 0int,
{
    if peek(s, p) == Some(KW_WHILE) {
        lemma_ws_run_le(s, p + 1);
        let p1 = after_ws(s, p + 1);
        if peek(s, p1) is Some {
            let p2 = p1 + 1;
            lemma_block_bounds(s, p2, t);
            let b = spec_block(s, p2, t);
            if b.err is None && peek(s, b.next) == Some(KW_END) {
                lemma_ws_run_le(s, b.next + 1);
            }
        }
    }
}

/// Unconditional loop translation stays within the input and consumes at
/// least one byte when it succeeds.
pub proof fn lemma_doloop_bounds(s: Seq<u8>, p: nat, t: TblSpec)
    requires
        p <= s.len(),
    ensures
        p <= spec_doloop(s, p, t).next <= s.len(),
        spec_doloop(s, p, t).err is None ==> p < spec_doloop(s, p, t).next,
    decreases s.len() - p, 0int,
{
    if peek(s, p) == Some(KW_LOOP) {
        lemma_ws_run_le(s, p + 1);
        let p1 = after_ws(s, p + 1);
        lemma_block_bounds(s, p1, t);
        let b = spec_block(s, p1, t);
        if b.err is None && peek(s, b.next) == Some(KW_END) {
            lemma_ws_run_le(s, b.next + 1);
        }
    }
}

/// Post-check loop translation stays within the input and consumes at
/// least one byte when it succeeds.
pub proof fn lemma_repeat_bounds(s: Seq<u8>, p: nat, t: TblSpec)
    requires
        p <= s.len(),
    ensures
        p <= spec_repeat(s, p, t).next <= s.len(),
        spec_repeat(s, p, t).err is None ==> p < spec_repeat(s, p, t).next,
    decreases s.len() - p, 0int,
{
    if peek(s, p) == Some(KW_REPEAT) {
        lemma_ws_run_le(s, p + 1);
        let p1 = after_ws(s, p + 1);
        lemma_block_bounds(s, p1, t);
        let b = spec_block(s, p1, t);
        if b.err is None && peek(s, b.next) == Some(KW_UNTIL) {
            lemma_ws_run_le(s, b.next + 1);
        }
    }
}

} // verus!
