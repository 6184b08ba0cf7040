//! The concrete textual spelling of the emitted instructions: one line per
//! instruction, in a parenthesized stack-machine notation. The spelling is
//! fixed here once; the compatibility contract of the translation is
//! deterministic round-trip fidelity (identical source, byte-identical
//! emission), which the rendering's exact contract supplies.
//!
//! This module also spells out the one user-visible message of a failure.

use vstd::prelude::*;
use crate::diag::CompileError;
use crate::diag::ErrSpec;
use crate::diag::Expectation;
use crate::instr::Instr;
use crate::instr::InstrSpec;
use crate::compiler::translate;
use crate::model::spec_emit;

verus! {

/// The decimal digits of a non-negative number, most significant first.
pub open spec fn dec_u(n: nat) -> Seq<u8>
    decreases n,
{
    if n < 10 {
        seq![(48 + n) as u8]
    } else {
        dec_u(n / 10).push((48 + n % 10) as u8)
    }
}

/// The decimal spelling of a 32-bit signed value: a minus sign and the
/// digits of its magnitude.
pub open spec fn dec_i32(n: int) -> Seq<u8> {
    if n < 0 {
        seq![45u8] + dec_u((-n) as nat)
    } else {
        dec_u(n as nat)
    }
}

/// Appends the decimal digits of `n`.
fn push_dec_u32(v: &mut Vec<u8>, n: u32)
    ensures
        final(v)@ == old(v)@ + dec_u(n as nat),
    decreases n,
{
    let ghost v0 = v@;
    if n < 10 {
        v.push(48 + n as u8);
        proof {
            assert(v@ =~= v0 + dec_u(n as nat));
        }
    } else {
        push_dec_u32(v, n / 10);
        v.push(48 + (n % 10) as u8);
        proof {
            assert(v@ =~= v0 + dec_u(n as nat));
        }
    }
}

/// Appends the decimal spelling of `n`.
fn push_dec_i32(v: &mut Vec<u8>, n: i32)
    ensures
        final(v)@ == old(v)@ + dec_i32(n as int),
{
    let ghost v0 = v@;
    if n < 0 {
        v.push(45);
        let m: u32 = (-(n as i64)) as u32;
        push_dec_u32(v, m);
        proof {
            assert(m as nat == (-(n as int)) as nat);
            assert(v@ =~= v0 + dec_i32(n as int));
        }
    } else {
        push_dec_u32(v, n as u32);
    }
}

/// Appends a copy of `src`.
fn push_bytes(v: &mut Vec<u8>, src: &Vec<u8>)
    ensures
        final(v)@ == old(v)@ + src@,
{
    let ghost v0 = v@;
    let mut i: usize = 0;
    while i < src.len()
        invariant
            i <= src@.len(),
            v@ == v0 + src@.subrange(0, i as int),
        decreases src@.len() - i,
    {
        v.push(src[i]);
        i = i + 1;
        proof {
            assert(v@ =~= v0 + src@.subrange(0, i as int));
        }
    }
    proof {
        assert(v@ =~= v0 + src@);
    }
}

/// The spelling of one instruction, without its line break.
pub open spec fn render_line(i: InstrSpec) -> Seq<u8> {
    match i {
        // "(module"
        InstrSpec::ModuleOpen => seq![40u8, 109u8, 111u8, 100u8, 117u8, 108u8, 101u8],
        // ")"
        InstrSpec::ModuleClose => seq![41u8],
        // "(func $main (result i32)"
        InstrSpec::MainOpen => seq![40u8, 102u8, 117u8, 110u8, 99u8, 32u8, 36u8, 109u8, 97u8, 105u8, 110u8, 32u8, 40u8, 114u8, 101u8, 115u8, 117u8, 108u8, 116u8, 32u8, 105u8, 51u8, 50u8, 41u8],
        // "(return)"
        InstrSpec::MainReturn => seq![40u8, 114u8, 101u8, 116u8, 117u8, 114u8, 110u8, 41u8],
        // ")"
        InstrSpec::MainClose => seq![41u8],
        // "(export \"main\" (func $main))"
        InstrSpec::ExportMain => seq![40u8, 101u8, 120u8, 112u8, 111u8, 114u8, 116u8, 32u8, 34u8, 109u8, 97u8, 105u8, 110u8, 34u8, 32u8, 40u8, 102u8, 117u8, 110u8, 99u8, 32u8, 36u8, 109u8, 97u8, 105u8, 110u8, 41u8, 41u8],
        // "(else"
        InstrSpec::ElseMarker => seq![40u8, 101u8, 108u8, 115u8, 101u8],
        // ")"
        InstrSpec::IfClose => seq![41u8],
        // "(while"
        InstrSpec::WhileOpen => seq![40u8, 119u8, 104u8, 105u8, 108u8, 101u8],
        // ")"
        InstrSpec::WhileClose => seq![41u8],
        // "(loop"
        InstrSpec::LoopOpen => seq![40u8, 108u8, 111u8, 111u8, 112u8],
        // ")"
        InstrSpec::LoopClose => seq![41u8],
        // "(repeat"
        InstrSpec::RepeatOpen => seq![40u8, 114u8, 101u8, 112u8, 101u8, 97u8, 116u8],
        // ")"
        InstrSpec::RepeatClose => seq![41u8],
        // "(i32.add)"
        InstrSpec::AddI32 => seq![40u8, 105u8, 51u8, 50u8, 46u8, 97u8, 100u8, 100u8, 41u8],
        // "(i32.sub)"
        InstrSpec::SubI32 => seq![40u8, 105u8, 51u8, 50u8, 46u8, 115u8, 117u8, 98u8, 41u8],
        // "(i32.mul)"
        InstrSpec::MulI32 => seq![40u8, 105u8, 51u8, 50u8, 46u8, 109u8, 117u8, 108u8, 41u8],
        // "(i32.div_s)"
        InstrSpec::DivI32 => seq![40u8, 105u8, 51u8, 50u8, 46u8, 100u8, 105u8, 118u8, 95u8, 115u8, 41u8],
        // "(local $" c " i32)"
        InstrSpec::LocalFlag(c) => seq![40u8, 108u8, 111u8, 99u8, 97u8, 108u8, 32u8, 36u8] + seq![c] + seq![32u8, 105u8, 51u8, 50u8, 41u8],
        // "(if $" c
        InstrSpec::IfOpen(c) => seq![40u8, 105u8, 102u8, 32u8, 36u8] + seq![c],
        // "($" c ")"
        InstrSpec::CondRef(c) => seq![40u8, 36u8] + seq![c, 41u8],
        // "(i32.const " n ")"
        InstrSpec::ConstPush(n) => seq![40u8, 105u8, 51u8, 50u8, 46u8, 99u8, 111u8, 110u8, 115u8, 116u8, 32u8] + dec_i32(n as int) + seq![41u8],
        // "(local.get $" n ")"
        InstrSpec::LocalGet(n) => seq![40u8, 108u8, 111u8, 99u8, 97u8, 108u8, 46u8, 103u8, 101u8, 116u8, 32u8, 36u8] + n + seq![41u8],
        // "(local.set $" n ")"
        InstrSpec::LocalSet(n) => seq![40u8, 108u8, 111u8, 99u8, 97u8, 108u8, 46u8, 115u8, 101u8, 116u8, 32u8, 36u8] + n + seq![41u8],
        // "(call $" n ")"
        InstrSpec::CallFn(n) => seq![40u8, 99u8, 97u8, 108u8, 108u8, 32u8, 36u8] + n + seq![41u8],
    }
}

/// Appends the spelling of one instruction, without its line break.
fn render_instr(v: &mut Vec<u8>, i: &Instr)
    ensures
        final(v)@ == old(v)@ + render_line(i@),
{
    let ghost v0 = v@;
    match i {
        // "(module"
        Instr::ModuleOpen => {
            v.push(40);
            v.push(109);
            v.push(111);
            v.push(100);
            v.push(117);
            v.push(108);
            v.push(101);
        }
        // ")"
        Instr::ModuleClose => {
            v.push(41);
        }
        // "(func $main (result i32)"
        Instr::MainOpen => {
            v.push(40);
            v.push(102);
            v.push(117);
            v.push(110);
            v.push(99);
            v.push(32);
            v.push(36);
            v.push(109);
            v.push(97);
            v.push(105);
            v.push(110);
            v.push(32);
            v.push(40);
            v.push(114);
            v.push(101);
            v.push(115);
            v.push(117);
            v.push(108);
            v.push(116);
            v.push(32);
            v.push(105);
            v.push(51);
            v.push(50);
            v.push(41);
        }
        // "(return)"
        Instr::MainReturn => {
            v.push(40);
            v.push(114);
            v.push(101);
            v.push(116);
            v.push(117);
            v.push(114);
            v.push(110);
            v.push(41);
        }
        // ")"
        Instr::MainClose => {
            v.push(41);
        }
        // "(export \"main\" (func $main))"
        Instr::ExportMain => {
            v.push(40);
            v.push(101);
            v.push(120);
            v.push(112);
            v.push(111);
            v.push(114);
            v.push(116);
            v.push(32);
            v.push(34);
            v.push(109);
            v.push(97);
            v.push(105);
            v.push(110);
            v.push(34);
            v.push(32);
            v.push(40);
            v.push(102);
            v.push(117);
            v.push(110);
            v.push(99);
            v.push(32);
            v.push(36);
            v.push(109);
            v.push(97);
            v.push(105);
            v.push(110);
            v.push(41);
            v.push(41);
        }
        // "(else"
        Instr::ElseMarker => {
            v.push(40);
            v.push(101);
            v.push(108);
            v.push(115);
            v.push(101);
        }
        // ")"
        Instr::IfClose => {
            v.push(41);
        }
        // "(while"
        Instr::WhileOpen => {
            v.push(40);
            v.push(119);
            v.push(104);
            v.push(105);
            v.push(108);
            v.push(101);
        }
        // ")"
        Instr::WhileClose => {
            v.push(41);
        }
        // "(loop"
        Instr::LoopOpen => {
            v.push(40);
            v.push(108);
            v.push(111);
            v.push(111);
            v.push(112);
        }
        // ")"
        Instr::LoopClose => {
            v.push(41);
        }
        // "(repeat"
        Instr::RepeatOpen => {
            v.push(40);
            v.push(114);
            v.push(101);
            v.push(112);
            v.push(101);
            v.push(97);
            v.push(116);
        }
        // ")"
        Instr::RepeatClose => {
            v.push(41);
        }
        // "(i32.add)"
        Instr::AddI32 => {
            v.push(40);
            v.push(105);
            v.push(51);
            v.push(50);
            v.push(46);
            v.push(97);
            v.push(100);
            v.push(100);
            v.push(41);
        }
        // "(i32.sub)"
        Instr::SubI32 => {
            v.push(40);
            v.push(105);
            v.push(51);
            v.push(50);
            v.push(46);
            v.push(115);
            v.push(117);
            v.push(98);
            v.push(41);
        }
        // "(i32.mul)"
        Instr::MulI32 => {
            v.push(40);
            v.push(105);
            v.push(51);
            v.push(50);
            v.push(46);
            v.push(109);
            v.push(117);
            v.push(108);
            v.push(41);
        }
        // "(i32.div_s)"
        Instr::DivI32 => {
            v.push(40);
            v.push(105);
            v.push(51);
            v.push(50);
            v.push(46);
            v.push(100);
            v.push(105);
            v.push(118);
            v.push(95);
            v.push(115);
            v.push(41);
        }
        // "(local $" c " i32)"
        Instr::LocalFlag(c) => {
            v.push(40);
            v.push(108);
            v.push(111);
            v.push(99);
            v.push(97);
            v.push(108);
            v.push(32);
            v.push(36);
            v.push(*c);
            v.push(32);
            v.push(105);
            v.push(51);
            v.push(50);
            v.push(41);
        }
        // "(if $" c
        Instr::IfOpen(c) => {
            v.push(40);
            v.push(105);
            v.push(102);
            v.push(32);
            v.push(36);
            v.push(*c);
        }
        // "($" c ")"
        Instr::CondRef(c) => {
            v.push(40);
            v.push(36);
            v.push(*c);
            v.push(41);
        }
        // "(i32.const " n ")"
        Instr::ConstPush(n) => {
            v.push(40);
            v.push(105);
            v.push(51);
            v.push(50);
            v.push(46);
            v.push(99);
            v.push(111);
            v.push(110);
            v.push(115);
            v.push(116);
            v.push(32);
            push_dec_i32(v, *n);
            v.push(41);
        }
        // "(local.get $" n ")"
        Instr::LocalGet(n) => {
            v.push(40);
            v.push(108);
            v.push(111);
            v.push(99);
            v.push(97);
            v.push(108);
            v.push(46);
            v.push(103);
            v.push(101);
            v.push(116);
            v.push(32);
            v.push(36);
            push_bytes(v, n);
            v.push(41);
        }
        // "(local.set $" n ")"
        Instr::LocalSet(n) => {
            v.push(40);
            v.push(108);
            v.push(111);
            v.push(99);
            v.push(97);
            v.push(108);
            v.push(46);
            v.push(115);
            v.push(101);
            v.push(116);
            v.push(32);
            v.push(36);
            push_bytes(v, n);
            v.push(41);
        }
        // "(call $" n ")"
        Instr::CallFn(n) => {
            v.push(40);
            v.push(99);
            v.push(97);
            v.push(108);
            v.push(108);
            v.push(32);
            v.push(36);
            push_bytes(v, n);
            v.push(41);
        }
    }
    proof {
        assert(v@ =~= v0 + render_line(i@));
    }
}

/// The text of an instruction sequence: each instruction's spelling on a
/// line of its own, in emission order.
pub open spec fn render_all(o: Seq<InstrSpec>) -> Seq<u8>
    decreases o.len(),
{
    if o.len() == 0 {
        Seq::empty()
    } else {
        render_line(o[0]) + seq![10u8] + render_all(o.drop_first())
    }
}

/// Renders an instruction sequence as target text, one line per
/// instruction.
pub fn render(instrs: &Vec<Instr>) -> (r: Vec<u8>)
    ensures
        r@ == render_all(instrs.deep_view()),
{
    let ghost dv = instrs.deep_view();
    let mut v: Vec<u8> = Vec::new();
    let mut i: usize = 0;
    proof {
        assert(v@ =~= Seq::<u8>::empty());
        assert(dv.subrange(0, dv.len() as int) =~= dv);
    }
    while i < instrs.len()
        invariant
            i <= dv.len(),
            dv == instrs.deep_view(),
            dv.len() == instrs@.len(),
            render_all(dv) == v@ + render_all(dv.subrange(i as int, dv.len() as int)),
        decreases dv.len() - i,
    {
        proof {
            assert(dv.subrange(i as int, dv.len() as int).drop_first() =~= dv.subrange(
                i + 1,
                dv.len() as int,
            ));
            assert(dv.subrange(i as int, dv.len() as int)[0] == dv[i as int]);
        }
        render_instr(&mut v, &instrs[i]);
        v.push(10);
        i = i + 1;
    }
    proof {
        assert(dv.subrange(dv.len() as int, dv.len() as int) =~= Seq::<InstrSpec>::empty());
        assert(render_all(dv) =~= v@);
    }
    v
}

/// Translates one whole source buffer and renders the emission as target
/// text: byte-identical text for byte-identical input, by contract.
pub fn compile_to_text(program: Vec<u8>) -> (r: Result<Vec<u8>, CompileError>)
    ensures
        ({
            let so = spec_emit(program@, Seq::empty());
            match r {
                Ok(text) => so.err is None && text@ == render_all(so.out),
                Err(e) => so.err == Some(e@),
            }
        }),
{
    match translate(program) {
        Ok(instrs) => Ok(render(&instrs)),
        Err(e) => Err(e),
    }
}

/// The wording of what the translator was looking for.
pub open spec fn what_text(w: Expectation) -> Seq<u8> {
    match w {
        Expectation::Lit(c) => seq![c],
        // "name"
        Expectation::Name => seq![110u8, 97u8, 109u8, 101u8],
        // "integer"
        Expectation::Number => seq![105u8, 110u8, 116u8, 101u8, 103u8, 101u8, 114u8],
        // "condition"
        Expectation::Condition => seq![99u8, 111u8, 110u8, 100u8, 105u8, 116u8, 105u8, 111u8, 110u8],
        // "else or end clause"
        Expectation::ElseOrEnd => seq![101u8, 108u8, 115u8, 101u8, 32u8, 111u8, 114u8, 32u8, 101u8, 110u8, 100u8, 32u8, 99u8, 108u8, 97u8, 117u8, 115u8, 101u8],
        // "statement or block end"
        Expectation::Statement => seq![115u8, 116u8, 97u8, 116u8, 101u8, 109u8, 101u8, 110u8, 116u8, 32u8, 111u8, 114u8, 32u8, 98u8, 108u8, 111u8, 99u8, 107u8, 32u8, 101u8, 110u8, 100u8],
        // "factor"
        Expectation::Factor => seq![102u8, 97u8, 99u8, 116u8, 111u8, 114u8],
    }
}

/// The wording of what stood at the cursor instead.
pub open spec fn found_text(f: Option<u8>) -> Seq<u8> {
    match f {
        Some(c) => seq![c],
        // "nothing"
        None => seq![110u8, 111u8, 116u8, 104u8, 105u8, 110u8, 103u8],
    }
}

/// The one user-visible message of a failure: what was expected and what
/// was found, or the undeclared or conflicting name, or the arithmetic
/// fault.
pub open spec fn msg_of(e: ErrSpec) -> Seq<u8> {
    match e {
        // "expected " what ", found " found
        ErrSpec::Expected { what, found } => seq![101u8, 120u8, 112u8, 101u8, 99u8, 116u8, 101u8, 100u8, 32u8] + what_text(what) + seq![44u8, 32u8, 102u8, 111u8, 117u8, 110u8, 100u8, 32u8]
            + found_text(found),
        // "undeclared identifier " name
        ErrSpec::Undeclared { name } => seq![117u8, 110u8, 100u8, 101u8, 99u8, 108u8, 97u8, 114u8, 101u8, 100u8, 32u8, 105u8, 100u8, 101u8, 110u8, 116u8, 105u8, 102u8, 105u8, 101u8, 114u8, 32u8] + name,
        // "name bound to the other kind " name
        ErrSpec::KindConflict { name } => seq![110u8, 97u8, 109u8, 101u8, 32u8, 98u8, 111u8, 117u8, 110u8, 100u8, 32u8, 116u8, 111u8, 32u8, 116u8, 104u8, 101u8, 32u8, 111u8, 116u8, 104u8, 101u8, 114u8, 32u8, 107u8, 105u8, 110u8, 100u8, 32u8] + name,
        // "division by zero"
        ErrSpec::DivByZero => seq![100u8, 105u8, 118u8, 105u8, 115u8, 105u8, 111u8, 110u8, 32u8, 98u8, 121u8, 32u8, 122u8, 101u8, 114u8, 111u8],
        // "integer overflow"
        ErrSpec::Overflow => seq![105u8, 110u8, 116u8, 101u8, 103u8, 101u8, 114u8, 32u8, 111u8, 118u8, 101u8, 114u8, 102u8, 108u8, 111u8, 119u8],
    }
}

/// Appends the wording of an expectation.
fn push_what(v: &mut Vec<u8>, w: &Expectation)
    ensures
        final(v)@ == old(v)@ + what_text(*w),
{
    let ghost v0 = v@;
    match w {
        Expectation::Lit(c) => {
            v.push(*c);
        }
        // "name"
        Expectation::Name => {
            v.push(110);
            v.push(97);
            v.push(109);
            v.push(101);
        }
        // "integer"
        Expectation::Number => {
            v.push(105);
            v.push(110);
            v.push(116);
            v.push(101);
            v.push(103);
            v.push(101);
            v.push(114);
        }
        // "condition"
        Expectation::Condition => {
            v.push(99);
            v.push(111);
            v.push(110);
            v.push(100);
            v.push(105);
            v.push(116);
            v.push(105);
            v.push(111);
            v.push(110);
        }
        // "else or end clause"
        Expectation::ElseOrEnd => {
            v.push(101);
            v.push(108);
            v.push(115);
            v.push(101);
            v.push(32);
            v.push(111);
            v.push(114);
            v.push(32);
            v.push(101);
            v.push(110);
            v.push(100);
            v.push(32);
            v.push(99);
            v.push(108);
            v.push(97);
            v.push(117);
            v.push(115);
            v.push(101);
        }
        // "statement or block end"
        Expectation::Statement => {
            v.push(115);
            v.push(116);
            v.push(97);
            v.push(116);
            v.push(101);
            v.push(109);
            v.push(101);
            v.push(110);
            v.push(116);
            v.push(32);
            v.push(111);
            v.push(114);
            v.push(32);
            v.push(98);
            v.push(108);
            v.push(111);
            v.push(99);
            v.push(107);
            v.push(32);
            v.push(101);
            v.push(110);
            v.push(100);
        }
        // "factor"
        Expectation::Factor => {
            v.push(102);
            v.push(97);
            v.push(99);
            v.push(116);
            v.push(111);
            v.push(114);
        }
    }
    proof {
        assert(v@ =~= v0 + what_text(*w));
    }
}

/// Formats a failure as its one user-visible message.
pub fn error_message(e: &CompileError) -> (r: Vec<u8>)
    ensures
        r@ == msg_of(e@),
{
    let mut v: Vec<u8> = Vec::new();
    match e {
        CompileError::Expected { what, found } => {
            v.push(101);
            v.push(120);
            v.push(112);
            v.push(101);
            v.push(99);
            v.push(116);
            v.push(101);
            v.push(100);
            v.push(32);
            push_what(&mut v, what);
            v.push(44);
            v.push(32);
            v.push(102);
            v.push(111);
            v.push(117);
            v.push(110);
            v.push(100);
            v.push(32);
            match found {
                Some(c) => {
                    v.push(*c);
                }
                None => {
                    v.push(110);
                    v.push(111);
                    v.push(116);
                    v.push(104);
                    v.push(105);
                    v.push(110);
                    v.push(103);
                }
            }
        }
        CompileError::Undeclared { name } => {
            v.push(117);
            v.push(110);
            v.push(100);
            v.push(101);
            v.push(99);
            v.push(108);
            v.push(97);
            v.push(114);
            v.push(101);
            v.push(100);
            v.push(32);
            v.push(105);
            v.push(100);
            v.push(101);
            v.push(110);
            v.push(116);
            v.push(105);
            v.push(102);
            v.push(105);
            v.push(101);
            v.push(114);
            v.push(32);
            push_bytes(&mut v, name);
        }
        CompileError::KindConflict { name } => {
            v.push(110);
            v.push(97);
            v.push(109);
            v.push(101);
            v.push(32);
            v.push(98);
            v.push(111);
            v.push(117);
            v.push(110);
            v.push(100);
            v.push(32);
            v.push(116);
            v.push(111);
            v.push(32);
            v.push(116);
            v.push(104);
            v.push(101);
            v.push(32);
            v.push(111);
            v.push(116);
            v.push(104);
            v.push(101);
            v.push(114);
            v.push(32);
            v.push(107);
            v.push(105);
            v.push(110);
            v.push(100);
            v.push(32);
            push_bytes(&mut v, name);
        }
        CompileError::DivByZero => {
            v.push(100);
            v.push(105);
            v.push(118);
            v.push(105);
            v.push(115);
            v.push(105);
            v.push(111);
            v.push(110);
            v.push(32);
            v.push(98);
            v.push(121);
            v.push(32);
            v.push(122);
            v.push(101);
            v.push(114);
            v.push(111);
        }
        CompileError::Overflow => {
            v.push(105);
            v.push(110);
            v.push(116);
            v.push(101);
            v.push(103);
            v.push(101);
            v.push(114);
            v.push(32);
            v.push(111);
            v.push(118);
            v.push(101);
            v.push(114);
            v.push(102);
            v.push(108);
            v.push(111);
            v.push(119);
        }
    }
    proof {
        assert(v@ =~= msg_of(e@));
    }
    v
}

} // verus!
