//! The translator itself: a character cursor over one in-memory source
//! buffer, fused with the recursive-descent routines that recognize the
//! grammar and append equivalent instructions to the emit sink.
//!
//! Every routine is proved equal to its specification function in
//! `crate::model`. Failures are returned as values, never panicked or
//! printed: the caller decides how to report them.

use vstd::prelude::*;
use crate::diag::CompileError;
use crate::diag::ErrSpec;
use crate::diag::Expectation;
use crate::instr::Instr;
use crate::instr::InstrSpec;
use crate::instr::emit_instr;
use crate::model::{
    peek, ws_run, after_ws, alnum, digit, alpha, name_run, num_run, exp_err, spec_other,
    spec_condition, spec_if, spec_while, spec_doloop, spec_repeat, spec_statement, spec_block,
    spec_program, spec_emit, spec_emit_at, SOut, KW_IF, KW_ELSE, KW_END, KW_WHILE, KW_LOOP,
    KW_REPEAT, KW_UNTIL, SPACE, lemma_statement_bounds,
};
use crate::table::Table;
use crate::table::TblSpec;
use crate::table::Binding;

verus! {

/// Whether a routine's outcome and a modelled failure say the same thing.
pub open spec fn err_agrees(r: Result<(), CompileError>, e: Option<ErrSpec>) -> bool {
    match r {
        Ok(_) => e is None,
        Err(er) => e == Some(er@),
    }
}

/// The look-ahead at `pos`.
pub(crate) fn peek_at(input: &Vec<u8>, pos: usize) -> (r: Option<u8>)
    requires
        pos <= input@.len(),
    ensures
        r == peek(input@, pos as nat),
        input@.len() <= usize::MAX,
{
    if pos < input.len() {
        Some(input[pos])
    } else {
        None
    }
}

/// Advances past the space run at `pos`.
pub(crate) fn ws_at(input: &Vec<u8>, pos: usize) -> (q: usize)
    requires
        pos <= input@.len(),
    ensures
        q as nat == after_ws(input@, pos as nat),
        pos <= q <= input@.len(),
{
    let mut q = pos;
    while q < input.len() && input[q] == SPACE
        invariant
            pos <= q <= input@.len(),
            after_ws(input@, pos as nat) == after_ws(input@, q as nat),
        decreases input@.len() - q,
    {
        q = q + 1;
    }
    proof {
        assert(ws_run(input@, q as nat) == 0);
    }
    q
}

/// Letter or digit, as identifiers are spelled.
pub(crate) fn is_alnum(c: u8) -> (r: bool)
    ensures
        r == alnum(c),
{
    (48 <= c && c <= 57) || (65 <= c && c <= 90) || (97 <= c && c <= 122)
}

/// Decimal digit.
pub(crate) fn is_digit(c: u8) -> (r: bool)
    ensures
        r == digit(c),
{
    48 <= c && c <= 57
}

/// Letter.
pub(crate) fn is_alpha(c: u8) -> (r: bool)
    ensures
        r == alpha(c),
{
    (65 <= c && c <= 90) || (97 <= c && c <= 122)
}


/// Reads the letter-or-digit run at `pos` (which may be empty) and skips
/// the blanks after it; reaching end of input while still reading is a
/// failure, as the run was not finished.
#[verifier::loop_isolation(false)]
pub(crate) fn scan_name(input: &Vec<u8>, pos: usize) -> (r: (usize, Result<Vec<u8>, CompileError>))
    requires
        pos <= input@.len(),
    ensures
        pos <= r.0 <= input@.len(),
        ({
            let s = input@;
            let p0 = pos as nat;
            let q = p0 + name_run(s, p0);
            if q == s.len() {
                &&& r.0 as nat == q
                &&& r.1 matches Err(e) && e@ == exp_err(Expectation::Name, None)
            } else {
                &&& r.0 as nat == after_ws(s, q)
                &&& r.1 matches Ok(name) && name@ == s.subrange(p0 as int, q as int)
            }
        }),
{
    let ghost s = input@;
    let mut p = pos;
    let mut name: Vec<u8> = Vec::new();
    loop
        invariant
            pos <= p <= s.len(),
            name@ == s.subrange(pos as int, p as int),
            name_run(s, pos as nat) == (p - pos) + name_run(s, p as nat),
        decreases s.len() - p,
    {
        match peek_at(input, p) {
            Some(c) => {
                if is_alnum(c) {
                    name.push(c);
                    p = p + 1;
                    proof {
                        assert(name@ =~= s.subrange(pos as int, p as int));
                    }
                } else {
                    break;
                }
            }
            None => {
                return (p, Err(CompileError::Expected { what: Expectation::Name, found: None }));
            }
        }
    }
    (ws_at(input, p), Ok(name))
}

/// Reads the digit run at `pos` (which may be empty) and skips the blanks
/// after it; reaching end of input while still reading is a failure, as
/// the run was not finished.
#[verifier::loop_isolation(false)]
pub(crate) fn scan_num(input: &Vec<u8>, pos: usize) -> (r: (usize, Result<Vec<u8>, CompileError>))
    requires
        pos <= input@.len(),
    ensures
        pos <= r.0 <= input@.len(),
        ({
            let s = input@;
            let p0 = pos as nat;
            let q = p0 + num_run(s, p0);
            if q == s.len() {
                &&& r.0 as nat == q
                &&& r.1 matches Err(e) && e@ == exp_err(Expectation::Number, None)
            } else {
                &&& r.0 as nat == after_ws(s, q)
                &&& r.1 matches Ok(num) && num@ == s.subrange(p0 as int, q as int)
            }
        }),
{
    let ghost s = input@;
    let mut p = pos;
    let mut num: Vec<u8> = Vec::new();
    loop
        invariant
            pos <= p <= s.len(),
            num@ == s.subrange(pos as int, p as int),
            num_run(s, pos as nat) == (p - pos) + num_run(s, p as nat),
        decreases s.len() - p,
    {
        match peek_at(input, p) {
            Some(c) => {
                if is_digit(c) {
                    num.push(c);
                    p = p + 1;
                    proof {
                        assert(num@ =~= s.subrange(pos as int, p as int));
                    }
                } else {
                    break;
                }
            }
            None => {
                return (p, Err(CompileError::Expected { what: Expectation::Number, found: None }));
            }
        }
    }
    (ws_at(input, p), Ok(num))
}

/// One translation in progress: the source buffer with the cursor's
/// position (whose byte is the look-ahead), the emit sink, and the
/// symbol/local table of this run.
pub struct Compiler {
    /// The raw source buffer, fixed for the whole run.
    pub input: Vec<u8>,
    /// The cursor: `input[pos]` is the look-ahead, absent at end of input.
    pub pos: usize,
    /// The emit sink: instructions in exactly the order their source
    /// constructs were recognized, only ever appended to.
    pub out: Vec<Instr>,
    /// The symbol/local table of this translation unit.
    pub table: Table,
}

impl Compiler {
    /// The cursor never stands past the end, and the table binds each name
    /// at most once.
    pub open spec fn wf(&self) -> bool {
        self.pos <= self.input@.len() && self.table.wf()
    }

    /// A fresh translation over its own buffer, sink and table.
    pub fn new(program: Vec<u8>) -> (c: Compiler)
        ensures
            c.wf(),
            c.input@ == program@,
            c.pos == 0,
            c.out.deep_view() == Seq::<InstrSpec>::empty(),
            c.table@ == Seq::<(Seq<u8>, Binding)>::empty(),
    {
        let c = Compiler { input: program, pos: 0, out: Vec::new(), table: Table::new() };
        proof {
            assert(c.out.deep_view() =~= Seq::<InstrSpec>::empty());
        }
        c
    }

    /// The cached look-ahead, without consuming.
    pub fn lookahead(&self) -> (r: Option<u8>)
        requires
            self.wf(),
        ensures
            r == peek(self.input@, self.pos as nat),
    {
        peek_at(&self.input, self.pos)
    }

    /// Consumes the look-ahead and returns its successor, the new
    /// look-ahead; at end of input it stays put and reports the absence.
    pub fn consume_char(&mut self) -> (r: Option<u8>)
        requires
            old(self).wf(),
        ensures
            final(self).wf(),
            final(self).input@ == old(self).input@,
            final(self).out.deep_view() == old(self).out.deep_view(),
            final(self).table@ == old(self).table@,
            final(self).pos == if old(self).pos < old(self).input@.len() {
                old(self).pos + 1
            } else {
                old(self).pos as int
            },
            r == peek(final(self).input@, final(self).pos as nat),
    {
        if self.pos < self.input.len() {
            self.pos = self.pos + 1;
        }
        peek_at(&self.input, self.pos)
    }

    /// Skips the space run at the cursor, stopping cleanly at end of input.
    pub fn consume_whitespace(&mut self)
        requires
            old(self).wf(),
        ensures
            final(self).wf(),
            final(self).input@ == old(self).input@,
            final(self).out.deep_view() == old(self).out.deep_view(),
            final(self).table@ == old(self).table@,
            final(self).pos as nat == after_ws(old(self).input@, old(self).pos as nat),
    {
        self.pos = ws_at(&self.input, self.pos);
    }

    /// Prepares the look-ahead for translation: the cursor starts loaded
    /// with the first byte, so only the leading blanks remain to skip.
    pub fn init(&mut self)
        requires
            old(self).wf(),
        ensures
            final(self).wf(),
            final(self).input@ == old(self).input@,
            final(self).out.deep_view() == old(self).out.deep_view(),
            final(self).table@ == old(self).table@,
            final(self).pos as nat == after_ws(old(self).input@, old(self).pos as nat),
    {
        self.consume_whitespace();
    }

    /// The failure value for a mismatch at the cursor: what was wanted,
    /// and the look-ahead that stood there (or nothing, at end of input).
    pub fn expected(&self, what: Expectation) -> (e: CompileError)
        requires
            self.wf(),
        ensures
            e@ == exp_err(what, peek(self.input@, self.pos as nat)),
    {
        CompileError::Expected { what, found: self.lookahead() }
    }

    /// If the look-ahead equals `c`, consumes it and the blanks after it
    /// and returns it; otherwise reports the mismatch and stays put.
    pub fn consume_exact_char(&mut self, c: u8) -> (r: Result<u8, CompileError>)
        requires
            old(self).wf(),
        ensures
            final(self).wf(),
            final(self).input@ == old(self).input@,
            final(self).out.deep_view() == old(self).out.deep_view(),
            final(self).table@ == old(self).table@,
            peek(old(self).input@, old(self).pos as nat) == Some(c) ==> {
                &&& r == Ok::<u8, CompileError>(c)
                &&& final(self).pos as nat == after_ws(old(self).input@, (old(self).pos + 1) as nat)
            },
            peek(old(self).input@, old(self).pos as nat) != Some(c) ==> {
                &&& r matches Err(e) && e@ == exp_err(
                    Expectation::Lit(c),
                    peek(old(self).input@, old(self).pos as nat),
                )
                &&& final(self).pos == old(self).pos
            },
    {
        match self.lookahead() {
            Some(d) => {
                if d == c {
                    self.consume_char();
                    self.consume_whitespace();
                    Ok(d)
                } else {
                    Err(self.expected(Expectation::Lit(c)))
                }
            }
            None => Err(self.expected(Expectation::Lit(c))),
        }
    }

    /// Reads the letter-or-digit run at the cursor as an identifier (which
    /// may be empty) and skips the blanks after it. Reaching end of input
    /// while still reading is a failure, as the run was not finished.
    pub fn consume_name(&mut self) -> (r: Result<Vec<u8>, CompileError>)
        requires
            old(self).wf(),
        ensures
            final(self).wf(),
            final(self).input@ == old(self).input@,
            final(self).out.deep_view() == old(self).out.deep_view(),
            final(self).table@ == old(self).table@,
            ({
                let s = old(self).input@;
                let p0 = old(self).pos as nat;
                let q = p0 + name_run(s, p0);
                if q == s.len() {
                    &&& final(self).pos as nat == q
                    &&& r matches Err(e) && e@ == exp_err(Expectation::Name, None)
                } else {
                    &&& final(self).pos as nat == after_ws(s, q)
                    &&& r matches Ok(name) && name@ == s.subrange(p0 as int, q as int)
                }
            }),
    {
        let (q, r) = scan_name(&self.input, self.pos);
        self.pos = q;
        r
    }

    /// Reads the digit run at the cursor (which may be empty) and skips the
    /// blanks after it. Reaching end of input while still reading is a
    /// failure, as the run was not finished.
    pub fn consume_num(&mut self) -> (r: Result<Vec<u8>, CompileError>)
        requires
            old(self).wf(),
        ensures
            final(self).wf(),
            final(self).input@ == old(self).input@,
            final(self).out.deep_view() == old(self).out.deep_view(),
            final(self).table@ == old(self).table@,
            ({
                let s = old(self).input@;
                let p0 = old(self).pos as nat;
                let q = p0 + num_run(s, p0);
                if q == s.len() {
                    &&& final(self).pos as nat == q
                    &&& r matches Err(e) && e@ == exp_err(Expectation::Number, None)
                } else {
                    &&& final(self).pos as nat == after_ws(s, q)
                    &&& r matches Ok(num) && num@ == s.subrange(p0 as int, q as int)
                }
            }),
    {
        let (q, r) = scan_num(&self.input, self.pos);
        self.pos = q;
        r
    }
}


/// Consumes the mandatory terminator `c` at `pos` and emits the closing
/// instruction `i`; on a mismatch nothing moves and the failure names `c`.
fn close_at(input: &Vec<u8>, pos: usize, out: &mut Vec<Instr>, c: u8, i: Instr) -> (r: (
    usize,
    Result<(), CompileError>,
))
    requires
        pos <= input@.len(),
    ensures
        pos <= r.0 <= input@.len(),
        peek(input@, pos as nat) == Some(c) ==> {
            &&& r.0 as nat == after_ws(input@, (pos + 1) as nat)
            &&& final(out).deep_view() == old(out).deep_view().push(i@)
            &&& r.1 is Ok
        },
        peek(input@, pos as nat) != Some(c) ==> {
            &&& r.0 == pos
            &&& final(out).deep_view() == old(out).deep_view()
            &&& r.1 matches Err(e) && e@ == exp_err(Expectation::Lit(c), peek(input@, pos as nat))
        },
{
    let la = peek_at(input, pos);
    match la {
        Some(d) => {
            if d == c {
                let q = ws_at(input, pos + 1);
                emit_instr(out, i);
                (q, Ok(()))
            } else {
                (pos, Err(CompileError::Expected { what: Expectation::Lit(c), found: la }))
            }
        }
        None => (pos, Err(CompileError::Expected { what: Expectation::Lit(c), found: None })),
    }
}

/// An Other statement: declares the look-ahead byte as a one-character
/// local and emits its declaration.
fn other_at(input: &Vec<u8>, pos: usize, out: &mut Vec<Instr>, tbl: &mut Table) -> (r: (
    usize,
    Result<(), CompileError>,
))
    requires
        pos <= input@.len(),
        old(tbl).wf(),
    ensures
        final(tbl).wf(),
        pos <= r.0 <= input@.len(),
        ({
            let so = spec_other(input@, pos as nat, old(tbl)@);
            &&& r.0 as nat == so.next
            &&& final(out).deep_view() == old(out).deep_view() + so.out
            &&& final(tbl)@ == so.tbl
            &&& err_agrees(r.1, so.err)
        }),
{
    let ghost out0 = out.deep_view();
    match peek_at(input, pos) {
        None => {
            proof {
                assert(out.deep_view() =~= out0 + spec_other(input@, pos as nat, tbl@).out);
            }
            (pos, Err(CompileError::Expected { what: Expectation::Name, found: None }))
        }
        Some(c) => {
            let name: Vec<u8> = vec![c];
            proof {
                assert(name@ =~= seq![c]);
            }
            tbl.declare(name);
            emit_instr(out, Instr::LocalFlag(c));
            proof {
                assert(out.deep_view() =~= out0 + seq![InstrSpec::LocalFlag(c)]);
            }
            (pos + 1, Ok(()))
        }
    }
}

/// A Condition: emits the look-ahead byte as an opaque predicate reference.
fn condition_at(input: &Vec<u8>, pos: usize, out: &mut Vec<Instr>) -> (r: (
    usize,
    Result<(), CompileError>,
))
    requires
        pos <= input@.len(),
    ensures
        pos <= r.0 <= input@.len(),
        ({
            let so = spec_condition(input@, pos as nat, Seq::empty());
            &&& r.0 as nat == so.next
            &&& final(out).deep_view() == old(out).deep_view() + so.out
            &&& err_agrees(r.1, so.err)
        }),
{
    let ghost out0 = out.deep_view();
    match peek_at(input, pos) {
        None => {
            proof {
                assert(out.deep_view() =~= out0 + Seq::<InstrSpec>::empty());
            }
            (pos, Err(CompileError::Expected { what: Expectation::Condition, found: None }))
        }
        Some(c) => {
            emit_instr(out, Instr::CondRef(c));
            proof {
                assert(out.deep_view() =~= out0 + seq![InstrSpec::CondRef(c)]);
            }
            (pos + 1, Ok(()))
        }
    }
}

/// An If statement, from its keyword to its mandatory trailing end.
fn if_at(input: &Vec<u8>, pos: usize, out: &mut Vec<Instr>, tbl: &mut Table) -> (r: (
    usize,
    Result<(), CompileError>,
))
    requires
        pos <= input@.len(),
        old(tbl).wf(),
    ensures
        final(tbl).wf(),
        pos <= r.0 <= input@.len(),
        ({
            let so = spec_if(input@, pos as nat, old(tbl)@);
            &&& r.0 as nat == so.next
            &&& final(out).deep_view() == old(out).deep_view() + so.out
            &&& final(tbl)@ == so.tbl
            &&& err_agrees(r.1, so.err)
        }),
    decreases input@.len() - pos, 0int,
{
    let ghost s = input@;
    let ghost t0 = tbl@;
    let ghost out0 = out.deep_view();
    let ghost so = spec_if(s, pos as nat, t0);
    let la = peek_at(input, pos);
    match la {
        Some(k) => {
            if k != KW_IF {
                proof {
                    assert(out.deep_view() =~= out0 + so.out);
                }
                return (pos, Err(CompileError::Expected { what: Expectation::Lit(KW_IF), found: la }));
            }
            let p1 = ws_at(input, pos + 1);
            match peek_at(input, p1) {
                None => {
                    proof {
                        assert(out.deep_view() =~= out0 + so.out);
                    }
                    (p1, Err(CompileError::Expected { what: Expectation::Condition, found: None }))
                }
                Some(c) => {
                    emit_instr(out, Instr::IfOpen(c));
                    let p2 = p1 + 1;
                    let (q, res) = block_at(input, p2, out, tbl);
                    let ghost b = spec_block(s, p2 as nat, t0);
                    match res {
                        Err(e) => {
                            proof {
                                assert(out.deep_view() =~= out0 + (seq![InstrSpec::IfOpen(c)]
                                    + b.out));
                            }
                            (q, Err(e))
                        }
                        Ok(()) => {
                            match peek_at(input, q) {
                                None => {
                                    proof {
                                        assert(out.deep_view() =~= out0 + (seq![
                                            InstrSpec::IfOpen(c),
                                        ] + b.out));
                                    }
                                    (
                                        q,
                                        Err(
                                            CompileError::Expected {
                                                what: Expectation::ElseOrEnd,
                                                found: None,
                                            },
                                        ),
                                    )
                                }
                                Some(d) => {
                                    if d == KW_ELSE {
                                        let p3 = ws_at(input, q + 1);
                                        emit_instr(out, Instr::ElseMarker);
                                        let ghost out1 = out.deep_view();
                                        let (q2, res2) = block_at(input, p3, out, tbl);
                                        let ghost b2 = spec_block(s, p3 as nat, b.tbl);
                                        proof {
                                            assert(out.deep_view() =~= out0 + (seq![
                                                InstrSpec::IfOpen(c),
                                            ] + b.out + seq![InstrSpec::ElseMarker] + b2.out));
                                        }
                                        match res2 {
                                            Err(e) => (q2, Err(e)),
                                            Ok(()) => {
                                                let rr = close_at(
                                                    input,
                                                    q2,
                                                    out,
                                                    KW_END,
                                                    Instr::IfClose,
                                                );
                                                proof {
                                                    assert(out.deep_view() =~= out0 + so.out);
                                                }
                                                rr
                                            }
                                        }
                                    } else {
                                        let rr = close_at(input, q, out, KW_END, Instr::IfClose);
                                        proof {
                                            assert(out.deep_view() =~= out0 + so.out);
                                        }
                                        rr
                                    }
                                }
                            }
                        }
                    }
                }
            }
        }
        None => {
            proof {
                assert(out.deep_view() =~= out0 + so.out);
            }
            (pos, Err(CompileError::Expected { what: Expectation::Lit(KW_IF), found: None }))
        }
    }
}

/// A While statement: loop open, condition reference, body, close.
fn while_at(input: &Vec<u8>, pos: usize, out: &mut Vec<Instr>, tbl: &mut Table) -> (r: (
    usize,
    Result<(), CompileError>,
))
    requires
        pos <= input@.len(),
        old(tbl).wf(),
    ensures
        final(tbl).wf(),
        pos <= r.0 <= input@.len(),
        ({
            let so = spec_while(input@, pos as nat, old(tbl)@);
            &&& r.0 as nat == so.next
            &&& final(out).deep_view() == old(out).deep_view() + so.out
            &&& final(tbl)@ == so.tbl
            &&& err_agrees(r.1, so.err)
        }),
    decreases input@.len() - pos, 0int,
{
    let ghost s = input@;
    let ghost t0 = tbl@;
    let ghost out0 = out.deep_view();
    let ghost so = spec_while(s, pos as nat, t0);
    let la = peek_at(input, pos);
    match la {
        Some(k) => {
            if k != KW_WHILE {
                proof {
                    assert(out.deep_view() =~= out0 + so.out);
                }
                return (pos, Err(CompileError::Expected { what: Expectation::Lit(KW_WHILE), found: la }));
            }
            let p1 = ws_at(input, pos + 1);
            emit_instr(out, Instr::WhileOpen);
            match peek_at(input, p1) {
                None => {
                    proof {
                        assert(out.deep_view() =~= out0 + so.out);
                    }
                    (p1, Err(CompileError::Expected { what: Expectation::Condition, found: None }))
                }
                Some(c) => {
                    emit_instr(out, Instr::CondRef(c));
                    let p2 = p1 + 1;
                    let (q, res) = block_at(input, p2, out, tbl);
                    let ghost b = spec_block(s, p2 as nat, t0);
                    proof {
                        assert(out.deep_view() =~= out0 + (seq![
                            InstrSpec::WhileOpen,
                            InstrSpec::CondRef(c),
                        ] + b.out));
                    }
                    match res {
                        Err(e) => (q, Err(e)),
                        Ok(()) => {
                            let rr = close_at(input, q, out, KW_END, Instr::WhileClose);
                            proof {
                                assert(out.deep_view() =~= out0 + so.out);
                            }
                            rr
                        }
                    }
                }
            }
        }
        None => {
            proof {
                assert(out.deep_view() =~= out0 + so.out);
            }
            (pos, Err(CompileError::Expected { what: Expectation::Lit(KW_WHILE), found: None }))
        }
    }
}

/// A DoLoop statement: unconditional loop open, body, close.
fn doloop_at(input: &Vec<u8>, pos: usize, out: &mut Vec<Instr>, tbl: &mut Table) -> (r: (
    usize,
    Result<(), CompileError>,
))
    requires
        pos <= input@.len(),
        old(tbl).wf(),
    ensures
        final(tbl).wf(),
        pos <= r.0 <= input@.len(),
        ({
            let so = spec_doloop(input@, pos as nat, old(tbl)@);
            &&& r.0 as nat == so.next
            &&& final(out).deep_view() == old(out).deep_view() + so.out
            &&& final(tbl)@ == so.tbl
            &&& err_agrees(r.1, so.err)
        }),
    decreases input@.len() - pos, 0int,
{
    let ghost s = input@;
    let ghost t0 = tbl@;
    let ghost out0 = out.deep_view();
    let ghost so = spec_doloop(s, pos as nat, t0);
    let la = peek_at(input, pos);
    match la {
        Some(k) => {
            if k != KW_LOOP {
                proof {
                    assert(out.deep_view() =~= out0 + so.out);
                }
                return (pos, Err(CompileError::Expected { what: Expectation::Lit(KW_LOOP), found: la }));
            }
            let p1 = ws_at(input, pos + 1);
            emit_instr(out, Instr::LoopOpen);
            let (q, res) = block_at(input, p1, out, tbl);
            let ghost b = spec_block(s, p1 as nat, t0);
            proof {
                assert(out.deep_view() =~= out0 + (seq![InstrSpec::LoopOpen] + b.out));
            }
            match res {
                Err(e) => (q, Err(e)),
                Ok(()) => {
                    let rr = close_at(input, q, out, KW_END, Instr::LoopClose);
                    proof {
                        assert(out.deep_view() =~= out0 + so.out);
                    }
                    rr
                }
            }
        }
        None => {
            proof {
                assert(out.deep_view() =~= out0 + so.out);
            }
            (pos, Err(CompileError::Expected { what: Expectation::Lit(KW_LOOP), found: None }))
        }
    }
}

/// A Repeat statement: loop open, body, the until keyword, the post-check
/// condition reference, close.
fn repeat_at(input: &Vec<u8>, pos: usize, out: &mut Vec<Instr>, tbl: &mut Table) -> (r: (
    usize,
    Result<(), CompileError>,
))
    requires
        pos <= input@.len(),
        old(tbl).wf(),
    ensures
        final(tbl).wf(),
        pos <= r.0 <= input@.len(),
        ({
            let so = spec_repeat(input@, pos as nat, old(tbl)@);
            &&& r.0 as nat == so.next
            &&& final(out).deep_view() == old(out).deep_view() + so.out
            &&& final(tbl)@ == so.tbl
            &&& err_agrees(r.1, so.err)
        }),
    decreases input@.len() - pos, 0int,
{
    let ghost s = input@;
    let ghost t0 = tbl@;
    let ghost out0 = out.deep_view();
    let ghost so = spec_repeat(s, pos as nat, t0);
    let la = peek_at(input, pos);
    match la {
        Some(k) => {
            if k != KW_REPEAT {
                proof {
                    assert(out.deep_view() =~= out0 + so.out);
                }
                return (pos, Err(CompileError::Expected { what: Expectation::Lit(KW_REPEAT), found: la }));
            }
            let p1 = ws_at(input, pos + 1);
            emit_instr(out, Instr::RepeatOpen);
            let (q, res) = block_at(input, p1, out, tbl);
            let ghost b = spec_block(s, p1 as nat, t0);
            proof {
                assert(out.deep_view() =~= out0 + (seq![InstrSpec::RepeatOpen] + b.out));
            }
            match res {
                Err(e) => (q, Err(e)),
                Ok(()) => {
                    let lb = peek_at(input, q);
                    match lb {
                        Some(d) => {
                            if d != KW_UNTIL {
                                return (
                                    q,
                                    Err(
                                        CompileError::Expected {
                                            what: Expectation::Lit(KW_UNTIL),
                                            found: lb,
                                        },
                                    ),
                                );
                            }
                            let p3 = ws_at(input, q + 1);
                            match peek_at(input, p3) {
                                None => (
                                    p3,
                                    Err(
                                        CompileError::Expected {
                                            what: Expectation::Condition,
                                            found: None,
                                        },
                                    ),
                                ),
                                Some(c) => {
                                    emit_instr(out, Instr::CondRef(c));
                                    emit_instr(out, Instr::RepeatClose);
                                    proof {
                                        assert(out.deep_view() =~= out0 + so.out);
                                    }
                                    (p3 + 1, Ok(()))
                                }
                            }
                        }
                        None => (
                            q,
                            Err(
                                CompileError::Expected {
                                    what: Expectation::Lit(KW_UNTIL),
                                    found: None,
                                },
                            ),
                        ),
                    }
                }
            }
        }
        None => {
            proof {
                assert(out.deep_view() =~= out0 + so.out);
            }
            (pos, Err(CompileError::Expected { what: Expectation::Lit(KW_REPEAT), found: None }))
        }
    }
}

/// A Block: statements in sequence until a terminator stops it. The
/// look-ahead alone selects each production, with no backtracking.
#[verifier::loop_isolation(false)]
fn block_at(input: &Vec<u8>, pos: usize, out: &mut Vec<Instr>, tbl: &mut Table) -> (r: (
    usize,
    Result<(), CompileError>,
))
    requires
        pos <= input@.len(),
        old(tbl).wf(),
    ensures
        final(tbl).wf(),
        pos <= r.0 <= input@.len(),
        ({
            let so = spec_block(input@, pos as nat, old(tbl)@);
            &&& r.0 as nat == so.next
            &&& final(out).deep_view() == old(out).deep_view() + so.out
            &&& final(tbl)@ == so.tbl
            &&& err_agrees(r.1, so.err)
        }),
    decreases input@.len() - pos, 2int,
{
    let ghost s = input@;
    let ghost t0 = tbl@;
    let ghost out0 = out.deep_view();
    let ghost full = spec_block(s, pos as nat, t0);
    let mut p = pos;
    let ghost mut acc: Seq<InstrSpec> = Seq::empty();
    loop
        invariant
            pos <= p <= input@.len(),
            tbl.wf(),
            out.deep_view() == out0 + acc,
            ({
                let cur = spec_block(s, p as nat, tbl@);
                &&& full.next == cur.next
                &&& full.out == acc + cur.out
                &&& full.tbl == cur.tbl
                &&& full.err == cur.err
            }),
        decreases input@.len() - p,
    {
        proof {
            assert(out.deep_view() =~= out0 + (acc + Seq::<InstrSpec>::empty()));
        }
        let la = peek_at(input, p);
        match la {
            None => {
                return (p, Err(CompileError::Expected { what: Expectation::Statement, found: None }));
            }
            Some(c) => {
                if c == KW_END || c == KW_ELSE || c == KW_UNTIL {
                    proof {
                        let cur = spec_block(s, p as nat, tbl@);
                        assert(full.out =~= acc + cur.out);
                        assert(full.out == acc);
                    }
                    return (p, Ok(()));
                }
                let ghost tpre = tbl@;
                let ghost accpre = acc;
                let (q, res) = if c == KW_IF {
                    if_at(input, p, out, tbl)
                } else if c == KW_WHILE {
                    while_at(input, p, out, tbl)
                } else if c == KW_LOOP {
                    doloop_at(input, p, out, tbl)
                } else if c == KW_REPEAT {
                    repeat_at(input, p, out, tbl)
                } else {
                    other_at(input, p, out, tbl)
                };
                let ghost st = spec_statement(s, p as nat, tpre);
                proof {
                    assert(q as nat == st.next);
                    assert(out.deep_view() == (out0 + accpre) + st.out);
                    assert(tbl@ == st.tbl);
                    acc = acc + st.out;
                    assert(out.deep_view() =~= out0 + acc);
                }
                match res {
                    Err(e) => {
                        return (q, Err(e));
                    }
                    Ok(()) => {
                        proof {
                            lemma_statement_bounds(s, p as nat, tpre);
                            let rest = spec_block(s, st.next, st.tbl);
                            let cur = spec_block(s, p as nat, tpre);
                            assert(cur.out == st.out + rest.out);
                            assert(full.out =~= acc + rest.out);
                        }
                        p = q;
                    }
                }
            }
        }
    }
}

/// A Program: one block closed by the mandatory end keyword, which is
/// consumed without skipping what follows it.
fn program_at(input: &Vec<u8>, pos: usize, out: &mut Vec<Instr>, tbl: &mut Table) -> (r: (
    usize,
    Result<(), CompileError>,
))
    requires
        pos <= input@.len(),
        old(tbl).wf(),
    ensures
        final(tbl).wf(),
        pos <= r.0 <= input@.len(),
        ({
            let so = spec_program(input@, pos as nat, old(tbl)@);
            &&& r.0 as nat == so.next
            &&& final(out).deep_view() == old(out).deep_view() + so.out
            &&& final(tbl)@ == so.tbl
            &&& err_agrees(r.1, so.err)
        }),
{
    let (q, res) = block_at(input, pos, out, tbl);
    match res {
        Err(e) => (q, Err(e)),
        Ok(()) => {
            let la = peek_at(input, q);
            match la {
                Some(c) => {
                    if c == KW_END {
                        (q + 1, Ok(()))
                    } else {
                        (q, Err(CompileError::Expected { what: Expectation::Lit(KW_END), found: la }))
                    }
                }
                None => (q, Err(CompileError::Expected { what: Expectation::Lit(KW_END), found: None })),
            }
        }
    }
}


impl Compiler {
    /// Translates one Other statement at the cursor: the look-ahead byte
    /// names a one-character local, which is declared and emitted.
    pub fn parse_other(&mut self) -> (r: Result<(), CompileError>)
        requires
            old(self).wf(),
        ensures
            final(self).wf(),
            final(self).input@ == old(self).input@,
            ({
                let so = spec_other(old(self).input@, old(self).pos as nat, old(self).table@);
                &&& final(self).pos as nat == so.next
                &&& final(self).out.deep_view() == old(self).out.deep_view() + so.out
                &&& final(self).table@ == so.tbl
                &&& err_agrees(r, so.err)
            }),
    {
        let (q, res) = other_at(&self.input, self.pos, &mut self.out, &mut self.table);
        self.pos = q;
        res
    }

    /// Translates one Condition at the cursor: the look-ahead byte is
    /// emitted as an opaque predicate reference.
    pub fn parse_condition(&mut self) -> (r: Result<(), CompileError>)
        requires
            old(self).wf(),
        ensures
            final(self).wf(),
            final(self).input@ == old(self).input@,
            final(self).table@ == old(self).table@,
            ({
                let so = spec_condition(old(self).input@, old(self).pos as nat, old(self).table@);
                &&& final(self).pos as nat == so.next
                &&& final(self).out.deep_view() == old(self).out.deep_view() + so.out
                &&& err_agrees(r, so.err)
            }),
    {
        let (q, res) = condition_at(&self.input, self.pos, &mut self.out);
        self.pos = q;
        res
    }

    /// Translates one If statement at the cursor.
    pub fn parse_if(&mut self) -> (r: Result<(), CompileError>)
        requires
            old(self).wf(),
        ensures
            final(self).wf(),
            final(self).input@ == old(self).input@,
            ({
                let so = spec_if(old(self).input@, old(self).pos as nat, old(self).table@);
                &&& final(self).pos as nat == so.next
                &&& final(self).out.deep_view() == old(self).out.deep_view() + so.out
                &&& final(self).table@ == so.tbl
                &&& err_agrees(r, so.err)
            }),
    {
        let (q, res) = if_at(&self.input, self.pos, &mut self.out, &mut self.table);
        self.pos = q;
        res
    }

    /// Translates one While statement at the cursor.
    pub fn parse_while(&mut self) -> (r: Result<(), CompileError>)
        requires
            old(self).wf(),
        ensures
            final(self).wf(),
            final(self).input@ == old(self).input@,
            ({
                let so = spec_while(old(self).input@, old(self).pos as nat, old(self).table@);
                &&& final(self).pos as nat == so.next
                &&& final(self).out.deep_view() == old(self).out.deep_view() + so.out
                &&& final(self).table@ == so.tbl
                &&& err_agrees(r, so.err)
            }),
    {
        let (q, res) = while_at(&self.input, self.pos, &mut self.out, &mut self.table);
        self.pos = q;
        res
    }

    /// Translates one DoLoop statement at the cursor.
    pub fn parse_loop(&mut self) -> (r: Result<(), CompileError>)
        requires
            old(self).wf(),
        ensures
            final(self).wf(),
            final(self).input@ == old(self).input@,
            ({
                let so = spec_doloop(old(self).input@, old(self).pos as nat, old(self).table@);
                &&& final(self).pos as nat == so.next
                &&& final(self).out.deep_view() == old(self).out.deep_view() + so.out
                &&& final(self).table@ == so.tbl
                &&& err_agrees(r, so.err)
            }),
    {
        let (q, res) = doloop_at(&self.input, self.pos, &mut self.out, &mut self.table);
        self.pos = q;
        res
    }

    /// Translates one Repeat statement at the cursor.
    pub fn parse_repeat(&mut self) -> (r: Result<(), CompileError>)
        requires
            old(self).wf(),
        ensures
            final(self).wf(),
            final(self).input@ == old(self).input@,
            ({
                let so = spec_repeat(old(self).input@, old(self).pos as nat, old(self).table@);
                &&& final(self).pos as nat == so.next
                &&& final(self).out.deep_view() == old(self).out.deep_view() + so.out
                &&& final(self).table@ == so.tbl
                &&& err_agrees(r, so.err)
            }),
    {
        let (q, res) = repeat_at(&self.input, self.pos, &mut self.out, &mut self.table);
        self.pos = q;
        res
    }

    /// Translates one Block at the cursor: statements until a terminator.
    pub fn parse_block(&mut self) -> (r: Result<(), CompileError>)
        requires
            old(self).wf(),
        ensures
            final(self).wf(),
            final(self).input@ == old(self).input@,
            ({
                let so = spec_block(old(self).input@, old(self).pos as nat, old(self).table@);
                &&& final(self).pos as nat == so.next
                &&& final(self).out.deep_view() == old(self).out.deep_view() + so.out
                &&& final(self).table@ == so.tbl
                &&& err_agrees(r, so.err)
            }),
    {
        let (q, res) = block_at(&self.input, self.pos, &mut self.out, &mut self.table);
        self.pos = q;
        res
    }

    /// Translates one Program at the cursor: a block and its mandatory
    /// top-level end keyword.
    pub fn parse_program(&mut self) -> (r: Result<(), CompileError>)
        requires
            old(self).wf(),
        ensures
            final(self).wf(),
            final(self).input@ == old(self).input@,
            ({
                let so = spec_program(old(self).input@, old(self).pos as nat, old(self).table@);
                &&& final(self).pos as nat == so.next
                &&& final(self).out.deep_view() == old(self).out.deep_view() + so.out
                &&& final(self).table@ == so.tbl
                &&& err_agrees(r, so.err)
            }),
    {
        let (q, res) = program_at(&self.input, self.pos, &mut self.out, &mut self.table);
        self.pos = q;
        res
    }

    /// Emits the opening of the surrounding module.
    pub fn emit_module_start(&mut self)
        requires
            old(self).wf(),
        ensures
            final(self).wf(),
            final(self).input@ == old(self).input@,
            final(self).pos == old(self).pos,
            final(self).table@ == old(self).table@,
            final(self).out.deep_view() == old(self).out.deep_view().push(InstrSpec::ModuleOpen),
    {
        emit_instr(&mut self.out, Instr::ModuleOpen);
    }

    /// Emits the closing of the surrounding module.
    pub fn emit_module_end(&mut self)
        requires
            old(self).wf(),
        ensures
            final(self).wf(),
            final(self).input@ == old(self).input@,
            final(self).pos == old(self).pos,
            final(self).table@ == old(self).table@,
            final(self).out.deep_view() == old(self).out.deep_view().push(InstrSpec::ModuleClose),
    {
        emit_instr(&mut self.out, Instr::ModuleClose);
    }

    /// Emits the opening of the main function.
    pub fn emit_main_start(&mut self)
        requires
            old(self).wf(),
        ensures
            final(self).wf(),
            final(self).input@ == old(self).input@,
            final(self).pos == old(self).pos,
            final(self).table@ == old(self).table@,
            final(self).out.deep_view() == old(self).out.deep_view().push(InstrSpec::MainOpen),
    {
        emit_instr(&mut self.out, Instr::MainOpen);
    }

    /// Emits the return, the closing, and the export of the main function.
    pub fn emit_main_end(&mut self)
        requires
            old(self).wf(),
        ensures
            final(self).wf(),
            final(self).input@ == old(self).input@,
            final(self).pos == old(self).pos,
            final(self).table@ == old(self).table@,
            final(self).out.deep_view() == old(self).out.deep_view() + seq![
                InstrSpec::MainReturn,
                InstrSpec::MainClose,
                InstrSpec::ExportMain,
            ],
    {
        let ghost out0 = self.out.deep_view();
        emit_instr(&mut self.out, Instr::MainReturn);
        emit_instr(&mut self.out, Instr::MainClose);
        emit_instr(&mut self.out, Instr::ExportMain);
        proof {
            assert(self.out.deep_view() =~= out0 + seq![
                InstrSpec::MainReturn,
                InstrSpec::MainClose,
                InstrSpec::ExportMain,
            ]);
        }
    }

    /// Runs one whole translation starting at the cursor: skips leading blanks,
    /// opens the module and the main function, translates the program, and
    /// closes what was opened. The terminal state is reaching the program's
    /// outermost end keyword; whatever follows it is left unread. On a
    /// failure the sink keeps what was appended before the halt, and the
    /// failure is returned.
    pub fn emit(&mut self) -> (r: Result<(), CompileError>)
        requires
            old(self).wf(),
        ensures
            final(self).wf(),
            final(self).input@ == old(self).input@,
            ({
                let so = spec_emit_at(old(self).input@, old(self).pos as nat, old(self).table@);
                &&& final(self).pos as nat == so.next
                &&& final(self).out.deep_view() == old(self).out.deep_view() + so.out
                &&& final(self).table@ == so.tbl
                &&& err_agrees(r, so.err)
            }),
    {
        let ghost s = self.input@;
        let ghost t0 = self.table@;
        let ghost out0 = self.out.deep_view();
        let ghost so = spec_emit_at(s, self.pos as nat, t0);
        self.init();
        self.emit_module_start();
        self.emit_main_start();
        let ghost p0 = self.pos as nat;
        let ghost pr = spec_program(s, p0, t0);
        let res = self.parse_program();
        proof {
            assert(self.out.deep_view() =~= out0 + (seq![InstrSpec::ModuleOpen, InstrSpec::MainOpen]
                + pr.out));
        }
        match res {
            Err(e) => {
                return Err(e);
            }
            Ok(()) => {}
        }
        self.emit_main_end();
        self.emit_module_end();
        proof {
            assert(self.out.deep_view() =~= out0 + so.out);
        }
        Ok(())
    }
}

/// Translates one whole source buffer in a fresh translation run: the
/// emitted instructions on success, the failure otherwise (a failed run's
/// partial emission is discarded along with the run).
pub fn translate(program: Vec<u8>) -> (r: Result<Vec<Instr>, CompileError>)
    ensures
        ({
            let so = spec_emit(program@, Seq::empty());
            match r {
                Ok(v) => so.err is None && v.deep_view() == so.out,
                Err(e) => so.err == Some(e@),
            }
        }),
{
    let mut c = Compiler::new(program);
    let ghost so = spec_emit(c.input@, Seq::empty());
    let res = c.emit();
    proof {
        assert(c.out.deep_view() =~= so.out);
    }
    match res {
        Ok(()) => Ok(c.out),
        Err(e) => Err(e),
    }
}

} // verus!
