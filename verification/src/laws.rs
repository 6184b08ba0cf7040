//! Laws of the translation, proved once and for all inputs: block openings
//! and closings balance on every well-formed input, a pre-check loop
//! evaluates its condition before its body while a post-check loop
//! evaluates it after, an empty block is legal and emits nothing, and
//! translation is deterministic.

use vstd::prelude::*;
use crate::instr::InstrSpec;
use crate::model::{
    peek, after_ws, spec_other, spec_if, spec_while, spec_doloop, spec_repeat, spec_statement,
    spec_block, spec_program, spec_emit, SOut, KW_IF, KW_ELSE, KW_END, KW_WHILE, KW_LOOP,
    KW_REPEAT, KW_UNTIL, lemma_ws_run_le, lemma_block_bounds, lemma_statement_bounds,
};
use crate::table::TblSpec;

verus! {

/// An instruction that opens a control-flow block construct.
pub open spec fn is_open(i: InstrSpec) -> bool {
    i is IfOpen || i is WhileOpen || i is LoopOpen || i is RepeatOpen
}

/// An instruction that closes a control-flow block construct.
pub open spec fn is_close(i: InstrSpec) -> bool {
    i is IfClose || i is WhileClose || i is LoopClose || i is RepeatClose
}

/// How many block-opening instructions a sequence holds.
pub open spec fn count_opens(o: Seq<InstrSpec>) -> int
    decreases o.len(),
{
    if o.len() == 0 {
        0
    } else {
        (if is_open(o[0]) {
            1int
        } else {
            0int
        }) + count_opens(o.drop_first())
    }
}

/// How many block-closing instructions a sequence holds.
pub open spec fn count_closes(o: Seq<InstrSpec>) -> int
    decreases o.len(),
{
    if o.len() == 0 {
        0
    } else {
        (if is_close(o[0]) {
            1int
        } else {
            0int
        }) + count_closes(o.drop_first())
    }
}

/// The counts distribute over concatenation.
pub proof fn lemma_count_add(a: Seq<InstrSpec>, b: Seq<InstrSpec>)
    ensures
        count_opens(a + b) == count_opens(a) + count_opens(b),
        count_closes(a + b) == count_closes(a) + count_closes(b),
    decreases a.len(),
{
    if a.len() == 0 {
        assert(a + b =~= b);
    } else {
        assert((a + b).drop_first() =~= a.drop_first() + b);
        lemma_count_add(a.drop_first(), b);
    }
}

/// The counts of a one-instruction sequence.
pub proof fn lemma_count_one(i: InstrSpec)
    ensures
        count_opens(seq![i]) == if is_open(i) {
            1int
        } else {
            0int
        },
        count_closes(seq![i]) == if is_close(i) {
            1int
        } else {
            0int
        },
{
    assert(seq![i].drop_first() =~= Seq::<InstrSpec>::empty());
    assert(count_opens(Seq::<InstrSpec>::empty()) == 0);
    assert(count_closes(Seq::<InstrSpec>::empty()) == 0);
    assert(seq![i][0] == i);
}

/// A sequence whose openings and closings balance.
pub open spec fn balanced(o: Seq<InstrSpec>) -> bool {
    count_opens(o) == count_closes(o)
}

/// What a successful Other statement emits is balanced.
proof fn lemma_other_balanced(s: Seq<u8>, p: nat, t: TblSpec)
    ensures
        spec_other(s, p, t).err is None ==> balanced(spec_other(s, p, t).out),
{
    if peek(s, p) is Some {
        let c = peek(s, p)->Some_0;
        lemma_count_one(InstrSpec::LocalFlag(c));
    }
}

/// What a successful If statement emits is balanced.
proof fn lemma_if_balanced(s: Seq<u8>, p: nat, t: TblSpec)
    requires
        p <= s.len(),
    ensures
        spec_if(s, p, t).err is None ==> balanced(spec_if(s, p, t).out),
    decreases s.len() - p, 0int,
{
    if peek(s, p) == Some(KW_IF) {
        lemma_ws_run_le(s, p + 1);
        let p1 = after_ws(s, p + 1);
        if peek(s, p1) is Some {
            let c = peek(s, p1)->Some_0;
            let p2 = p1 + 1;
            let out0 = seq![InstrSpec::IfOpen(c)];
            lemma_count_one(InstrSpec::IfOpen(c));
            lemma_block_bounds(s, p2, t);
            lemma_block_balanced(s, p2, t);
            let b = spec_block(s, p2, t);
            if b.err is None {
                lemma_count_add(out0, b.out);
                match peek(s, b.next) {
                    Some(d) => {
                        if d == KW_ELSE {
                            let p3 = after_ws(s, b.next + 1);
                            lemma_ws_run_le(s, b.next + 1);
                            let out1 = out0 + b.out + seq![InstrSpec::ElseMarker];
                            lemma_count_one(InstrSpec::ElseMarker);
                            lemma_count_add(out0 + b.out, seq![InstrSpec::ElseMarker]);
                            lemma_block_balanced(s, p3, b.tbl);
                            let b2 = spec_block(s, p3, b.tbl);
                            if b2.err is None {
                                lemma_count_add(out1, b2.out);
                                lemma_count_add(out1 + b2.out, seq![InstrSpec::IfClose]);
                                lemma_count_one(InstrSpec::IfClose);
                            }
                        } else {
                            lemma_count_add(out0 + b.out, seq![InstrSpec::IfClose]);
                            lemma_count_one(InstrSpec::IfClose);
                        }
                    },
                    None => {},
                }
            }
        }
    }
}

/// What a successful While statement emits is balanced.
proof fn lemma_while_balanced(s: Seq<u8>, p: nat, t: TblSpec)
    requires
        p <= s.len(),
    ensures
        spec_while(s, p, t).err is None ==> balanced(spec_while(s, p, t).out),
    decreases s.len() - p, 0int,
{
    if peek(s, p) == Some(KW_WHILE) {
        lemma_ws_run_le(s, p + 1);
        let p1 = after_ws(s, p + 1);
        if peek(s, p1) is Some {
            let c = peek(s, p1)->Some_0;
            let p2 = p1 + 1;
            let out0 = seq![InstrSpec::WhileOpen, InstrSpec::CondRef(c)];
            assert(out0 =~= seq![InstrSpec::WhileOpen] + seq![InstrSpec::CondRef(c)]);
            lemma_count_one(InstrSpec::WhileOpen);
            lemma_count_one(InstrSpec::CondRef(c));
            lemma_count_add(seq![InstrSpec::WhileOpen], seq![InstrSpec::CondRef(c)]);
            lemma_block_bounds(s, p2, t);
            lemma_block_balanced(s, p2, t);
            let b = spec_block(s, p2, t);
            if b.err is None {
                lemma_count_add(out0, b.out);
                lemma_count_add(out0 + b.out, seq![InstrSpec::WhileClose]);
                lemma_count_one(InstrSpec::WhileClose);
            }
        }
    }
}

/// What a successful DoLoop statement emits is balanced.
proof fn lemma_doloop_balanced(s: Seq<u8>, p: nat, t: TblSpec)
    requires
        p <= s.len(),
    ensures
        spec_doloop(s, p, t).err is None ==> balanced(spec_doloop(s, p, t).out),
    decreases s.len() - p, 0int,
{
    if peek(s, p) == Some(KW_LOOP) {
        lemma_ws_run_le(s, p + 1);
        let p1 = after_ws(s, p + 1);
        let out0 = seq![InstrSpec::LoopOpen];
        lemma_count_one(InstrSpec::LoopOpen);
        lemma_block_bounds(s, p1, t);
        lemma_block_balanced(s, p1, t);
        let b = spec_block(s, p1, t);
        if b.err is None {
            lemma_count_add(out0, b.out);
            lemma_count_add(out0 + b.out, seq![InstrSpec::LoopClose]);
            lemma_count_one(InstrSpec::LoopClose);
        }
    }
}

/// What a successful Repeat statement emits is balanced.
proof fn lemma_repeat_balanced(s: Seq<u8>, p: nat, t: TblSpec)
    requires
        p <= s.len(),
    ensures
        spec_repeat(s, p, t).err is None ==> balanced(spec_repeat(s, p, t).out),
    decreases s.len() - p, 0int,
{
    if peek(s, p) == Some(KW_REPEAT) {
        lemma_ws_run_le(s, p + 1);
        let p1 = after_ws(s, p + 1);
        let out0 = seq![InstrSpec::RepeatOpen];
        lemma_count_one(InstrSpec::RepeatOpen);
        lemma_block_bounds(s, p1, t);
        lemma_block_balanced(s, p1, t);
        let b = spec_block(s, p1, t);
        if b.err is None && peek(s, b.next) == Some(KW_UNTIL) {
            lemma_ws_run_le(s, b.next + 1);
            let p3 = after_ws(s, b.next + 1);
            if peek(s, p3) is Some {
                let c = peek(s, p3)->Some_0;
                let tail = seq![InstrSpec::CondRef(c), InstrSpec::RepeatClose];
                assert(tail =~= seq![InstrSpec::CondRef(c)] + seq![InstrSpec::RepeatClose]);
                lemma_count_one(InstrSpec::CondRef(c));
                lemma_count_one(InstrSpec::RepeatClose);
                lemma_count_add(seq![InstrSpec::CondRef(c)], seq![InstrSpec::RepeatClose]);
                lemma_count_add(out0, b.out);
                lemma_count_add(out0 + b.out, tail);
            }
        }
    }
}

/// What a successful Statement emits is balanced.
proof fn lemma_statement_balanced(s: Seq<u8>, p: nat, t: TblSpec)
    requires
        p <= s.len(),
    ensures
        spec_statement(s, p, t).err is None ==> balanced(spec_statement(s, p, t).out),
    decreases s.len() - p, 1int,
{
    if peek(s, p) is Some {
        let c = peek(s, p)->Some_0;
        if c == KW_IF {
            lemma_if_balanced(s, p, t);
        } else if c == KW_WHILE {
            lemma_while_balanced(s, p, t);
        } else if c == KW_LOOP {
            lemma_doloop_balanced(s, p, t);
        } else if c == KW_REPEAT {
            lemma_repeat_balanced(s, p, t);
        } else {
            lemma_other_balanced(s, p, t);
        }
    }
}

/// What a successful Block emits is balanced.
pub proof fn lemma_block_balanced(s: Seq<u8>, p: nat, t: TblSpec)
    requires
        p <= s.len(),
    ensures
        spec_block(s, p, t).err is None ==> balanced(spec_block(s, p, t).out),
    decreases s.len() - p, 2int,
{
    if peek(s, p) is Some {
        let c = peek(s, p)->Some_0;
        if !(c == KW_END || c == KW_ELSE || c == KW_UNTIL) {
            lemma_statement_bounds(s, p, t);
            lemma_statement_balanced(s, p, t);
            let st = spec_statement(s, p, t);
            if st.err is None && p < st.next <= s.len() {
                lemma_block_balanced(s, st.next, st.tbl);
                let rest = spec_block(s, st.next, st.tbl);
                if rest.err is None {
                    lemma_count_add(st.out, rest.out);
                }
            }
        }
    }
}

/// For every well-formed control-flow input, the whole translation emits
/// exactly as many block-opening instructions as block-closing ones. The
/// module and function brackets stand outside the count, which covers the
/// four block constructs of the language.
pub proof fn lemma_emission_balanced(s: Seq<u8>, t: TblSpec)
    ensures
        spec_emit(s, t).err is None ==> balanced(spec_emit(s, t).out),
{
    lemma_ws_run_le(s, 0);
    let p0 = after_ws(s, 0);
    lemma_block_balanced(s, p0, t);
    let b = spec_block(s, p0, t);
    let pr = spec_program(s, p0, t);
    if pr.err is None {
        let head = seq![InstrSpec::ModuleOpen, InstrSpec::MainOpen];
        let tail = seq![
            InstrSpec::MainReturn,
            InstrSpec::MainClose,
            InstrSpec::ExportMain,
            InstrSpec::ModuleClose,
        ];
        assert(head =~= seq![InstrSpec::ModuleOpen] + seq![InstrSpec::MainOpen]);
        assert(tail =~= ((seq![InstrSpec::MainReturn] + seq![InstrSpec::MainClose]) + seq![
            InstrSpec::ExportMain,
        ]) + seq![InstrSpec::ModuleClose]);
        lemma_count_one(InstrSpec::ModuleOpen);
        lemma_count_one(InstrSpec::MainOpen);
        lemma_count_one(InstrSpec::MainReturn);
        lemma_count_one(InstrSpec::MainClose);
        lemma_count_one(InstrSpec::ExportMain);
        lemma_count_one(InstrSpec::ModuleClose);
        lemma_count_add(seq![InstrSpec::ModuleOpen], seq![InstrSpec::MainOpen]);
        lemma_count_add(seq![InstrSpec::MainReturn], seq![InstrSpec::MainClose]);
        lemma_count_add(seq![InstrSpec::MainReturn] + seq![InstrSpec::MainClose], seq![
            InstrSpec::ExportMain,
        ]);
        lemma_count_add((seq![InstrSpec::MainReturn] + seq![InstrSpec::MainClose]) + seq![
            InstrSpec::ExportMain,
        ], seq![InstrSpec::ModuleClose]);
        lemma_count_add(head, pr.out);
        lemma_count_add(head + pr.out, tail);
    }
}

/// A While emits its condition evaluation before its body (a pre-check
/// loop): on success its emission is exactly the loop opening, the
/// condition reference, the body's emission, and the close, in that order.
pub proof fn lemma_while_pre_check(s: Seq<u8>, p: nat, t: TblSpec)
    requires
        p <= s.len(),
        spec_while(s, p, t).err is None,
    ensures
        ({
            let p1 = after_ws(s, p + 1);
            let c = s[p1 as int];
            let b = spec_block(s, p1 + 1, t);
            spec_while(s, p, t).out == seq![InstrSpec::WhileOpen, InstrSpec::CondRef(c)] + b.out
                + seq![InstrSpec::WhileClose]
        }),
{
    lemma_ws_run_le(s, p + 1);
    let p1 = after_ws(s, p + 1);
    let c = s[p1 as int];
    lemma_block_bounds(s, p1 + 1, t);
    let b = spec_block(s, p1 + 1, t);
    let out0 = seq![InstrSpec::WhileOpen, InstrSpec::CondRef(c)];
    assert(spec_while(s, p, t).out =~= out0 + b.out + seq![InstrSpec::WhileClose]);
}

/// A Repeat emits its condition evaluation after its body (a post-check
/// loop): on success its emission is exactly the loop opening, the body's
/// emission, the condition reference, and the close, in that order.
pub proof fn lemma_repeat_post_check(s: Seq<u8>, p: nat, t: TblSpec)
    requires
        p <= s.len(),
        spec_repeat(s, p, t).err is None,
    ensures
        ({
            let p1 = after_ws(s, p + 1);
            let b = spec_block(s, p1, t);
            let p3 = after_ws(s, b.next + 1);
            let c = s[p3 as int];
            spec_repeat(s, p, t).out == seq![InstrSpec::RepeatOpen] + b.out + seq![
                InstrSpec::CondRef(c),
                InstrSpec::RepeatClose,
            ]
        }),
{
    lemma_ws_run_le(s, p + 1);
    let p1 = after_ws(s, p + 1);
    lemma_block_bounds(s, p1, t);
    let b = spec_block(s, p1, t);
    lemma_ws_run_le(s, b.next + 1);
}

/// An empty block immediately followed by its terminator is legal: it
/// consumes nothing, emits nothing, changes nothing and reports nothing,
/// so the enclosing construct emits its opening and closing brackets with
/// nothing between them.
pub proof fn lemma_empty_block(s: Seq<u8>, p: nat, t: TblSpec)
    requires
        p < s.len(),
        s[p as int] == KW_END || s[p as int] == KW_ELSE || s[p as int] == KW_UNTIL,
    ensures
        spec_block(s, p, t).next == p,
        spec_block(s, p, t).out == Seq::<InstrSpec>::empty(),
        spec_block(s, p, t).tbl == t,
        spec_block(s, p, t).err is None,
{
}

/// Translation is deterministic: byte-identical inputs yield identical
/// emitted instruction sequences, because the whole translation is a pure
/// function of the input bytes (the executable translator is pinned to
/// `spec_emit` by its contract).
pub proof fn lemma_translation_deterministic(s1: Seq<u8>, s2: Seq<u8>, t: TblSpec)
    requires
        s1 == s2,
    ensures
        spec_emit(s1, t) == spec_emit(s2, t),
{
}

} // verus!
