//! The arithmetic/assignment companion language, fed to the same translator
//! family: `Assignment ::= Identifier '=' Expression`, with the usual
//! precedence (`*` and `/` bind tighter than `+` and `-`, equal precedence
//! associates left to right) and a leading sign handled through a zero base,
//! so that `-X` means `0 - X` and a leading `+` is a no-op.
//!
//! Expressions are read into a small tagged tree, and evaluation and
//! emission run as separate traversals of it; postorder emission keeps the
//! instruction order of direct one-pass translation. Arithmetic policy,
//! fixed and checked here: values are 32-bit signed; division truncates
//! toward zero; a division whose divisor is zero and any literal or
//! intermediate result outside the 32-bit signed range are reported as
//! faults, never wrapped around.

use vstd::prelude::*;
use crate::compiler::Compiler;
use crate::compiler::{peek_at, ws_at, is_digit, is_alpha, scan_name, scan_num};
use crate::diag::CompileError;
use crate::diag::ErrSpec;
use crate::diag::Expectation;
use crate::instr::Instr;
use crate::instr::InstrSpec;
use crate::instr::emit_instr;
use crate::model::{
    peek, after_ws, alpha, digit, name_run, num_run, exp_err, lemma_ws_run_le,
    lemma_name_run_le, lemma_num_run_le,
};
use crate::table::Table;
use crate::table::TblSpec;
use crate::table::Binding;
use crate::table::tbl_has;
use crate::table::tbl_at;
use crate::table::tbl_assign;

verus! {

/// Addition operator and leading positive sign.
pub const PLUS: u8 = 43;

/// Subtraction operator and leading negative sign.
pub const MINUS: u8 = 45;

/// Multiplication operator.
pub const STAR: u8 = 42;

/// Division operator.
pub const SLASH: u8 = 47;

/// Opens a parenthesized expression or an argument list.
pub const LPAREN: u8 = 40;

/// Closes a parenthesized expression or an argument list.
pub const RPAREN: u8 = 41;

/// Separates an assignment's target from its expression.
pub const EQUALS: u8 = 61;

/// One expression, as recognized: a number, a read of a named local, a call
/// of a named function of no arguments, or a binary operation.
#[derive(PartialEq, Eq, Debug)]
pub enum Expr {
    /// A decimal integer literal.
    Num(i32),
    /// A read of a named local.
    Var(Vec<u8>),
    /// A call of a named function of no arguments.
    Call0(Vec<u8>),
    /// A sum.
    Add(Box<Expr>, Box<Expr>),
    /// A difference.
    Sub(Box<Expr>, Box<Expr>),
    /// A product.
    Mul(Box<Expr>, Box<Expr>),
    /// A quotient, signed and truncating toward zero.
    Div(Box<Expr>, Box<Expr>),
}

/// Mathematical image of `Expr`: identifier bytes as sequences.
pub enum ExprSpec {
    Num(i32),
    Var(Seq<u8>),
    Call0(Seq<u8>),
    Add(Box<ExprSpec>, Box<ExprSpec>),
    Sub(Box<ExprSpec>, Box<ExprSpec>),
    Mul(Box<ExprSpec>, Box<ExprSpec>),
    Div(Box<ExprSpec>, Box<ExprSpec>),
}

/// The image of an expression.
pub open spec fn expr_view(e: Expr) -> ExprSpec
    decreases e,
{
    match e {
        Expr::Num(n) => ExprSpec::Num(n),
        Expr::Var(x) => ExprSpec::Var(x@),
        Expr::Call0(f) => ExprSpec::Call0(f@),
        Expr::Add(a, b) => ExprSpec::Add(Box::new(expr_view(*a)), Box::new(expr_view(*b))),
        Expr::Sub(a, b) => ExprSpec::Sub(Box::new(expr_view(*a)), Box::new(expr_view(*b))),
        Expr::Mul(a, b) => ExprSpec::Mul(Box::new(expr_view(*a)), Box::new(expr_view(*b))),
        Expr::Div(a, b) => ExprSpec::Div(Box::new(expr_view(*a)), Box::new(expr_view(*b))),
    }
}

impl View for Expr {
    type V = ExprSpec;

    open spec fn view(&self) -> ExprSpec {
        expr_view(*self)
    }
}

impl DeepView for Expr {
    type V = ExprSpec;

    open spec fn deep_view(&self) -> ExprSpec {
        expr_view(*self)
    }
}

/// Magnitude of an integer.
pub open spec fn iabs(a: int) -> int {
    if a < 0 {
        -a
    } else {
        a
    }
}

/// Signed division truncating toward zero: the magnitudes divide and the
/// quotient is negative exactly when the operands' signs differ, so
/// `7 / 2` is `3` and `-7 / 2` is `-3`. Meaningful only for `b != 0`.
pub open spec fn tdiv(a: int, b: int) -> int {
    if (a < 0) != (b < 0) {
        -(iabs(a) / iabs(b))
    } else {
        iabs(a) / iabs(b)
    }
}

/// Whether a value fits the 32-bit signed range.
pub open spec fn in_i32(v: int) -> bool {
    i32::MIN <= v <= i32::MAX
}

/// An intermediate result, admitted when it fits the value range and
/// reported as an overflow fault when it does not.
pub open spec fn arith(v: int) -> Result<int, ErrSpec> {
    if in_i32(v) {
        Ok(v)
    } else {
        Err(ErrSpec::Overflow)
    }
}

/// Evaluation of an expression against a table, left to right: a read
/// yields the value the name is bound to, failing as undeclared when the
/// name is unbound and as a kind conflict when it is bound as a flag; a
/// call has no value to yield, as this core declares no functions, so its
/// callee is reported as undeclared; each operation's result must fit the
/// 32-bit signed range; division truncates toward zero and rejects a zero
/// divisor.
pub open spec fn sp_eval(e: ExprSpec, t: TblSpec) -> Result<int, ErrSpec>
    decreases e,
{
    match e {
        ExprSpec::Num(n) => Ok(n as int),
        ExprSpec::Var(x) => {
            if tbl_has(t, x) {
                match tbl_at(t, x) {
                    Binding::Flag => Err(ErrSpec::KindConflict { name: x }),
                    Binding::IntVal(v) => Ok(v as int),
                }
            } else {
                Err(ErrSpec::Undeclared { name: x })
            }
        },
        ExprSpec::Call0(f) => Err(ErrSpec::Undeclared { name: f }),
        ExprSpec::Add(a, b) => {
            match (sp_eval(*a, t), sp_eval(*b, t)) {
                (Err(er), _) => Err(er),
                (Ok(_), Err(er)) => Err(er),
                (Ok(x), Ok(y)) => arith(x + y),
            }
        },
        ExprSpec::Sub(a, b) => {
            match (sp_eval(*a, t), sp_eval(*b, t)) {
                (Err(er), _) => Err(er),
                (Ok(_), Err(er)) => Err(er),
                (Ok(x), Ok(y)) => arith(x - y),
            }
        },
        ExprSpec::Mul(a, b) => {
            match (sp_eval(*a, t), sp_eval(*b, t)) {
                (Err(er), _) => Err(er),
                (Ok(_), Err(er)) => Err(er),
                (Ok(x), Ok(y)) => arith(x * y),
            }
        },
        ExprSpec::Div(a, b) => {
            match (sp_eval(*a, t), sp_eval(*b, t)) {
                (Err(er), _) => Err(er),
                (Ok(_), Err(er)) => Err(er),
                (Ok(x), Ok(y)) => {
                    if y == 0 {
                        Err(ErrSpec::DivByZero)
                    } else {
                        arith(tdiv(x, y))
                    }
                },
            }
        },
    }
}

/// Emission of an expression: postorder, so the emitted stack code pushes
/// the operands and then applies the operation, exactly as a one-pass
/// translation would have emitted it.
pub open spec fn sp_emit_expr(e: ExprSpec) -> Seq<InstrSpec>
    decreases e,
{
    match e {
        ExprSpec::Num(n) => seq![InstrSpec::ConstPush(n)],
        ExprSpec::Var(x) => seq![InstrSpec::LocalGet(x)],
        ExprSpec::Call0(f) => seq![InstrSpec::CallFn(f)],
        ExprSpec::Add(a, b) => sp_emit_expr(*a) + sp_emit_expr(*b) + seq![InstrSpec::AddI32],
        ExprSpec::Sub(a, b) => sp_emit_expr(*a) + sp_emit_expr(*b) + seq![InstrSpec::SubI32],
        ExprSpec::Mul(a, b) => sp_emit_expr(*a) + sp_emit_expr(*b) + seq![InstrSpec::MulI32],
        ExprSpec::Div(a, b) => sp_emit_expr(*a) + sp_emit_expr(*b) + seq![InstrSpec::DivI32],
    }
}

/// What one expression-parsing step does: the position reached and the
/// expression recognized, or the failure that halted it.
pub struct PExp {
    pub next: nat,
    pub res: Result<ExprSpec, ErrSpec>,
}

/// The value of a digit run, most significant first.
pub open spec fn digits_val(d: Seq<u8>) -> int
    decreases d.len(),
{
    if d.len() == 0 {
        0
    } else {
        digits_val(d.drop_last()) * 10 + (d.last() - 48)
    }
}

/// A Factor: a parenthesized expression, an identifier (a call when a
/// parenthesis pair follows, a local read otherwise), or a number. A
/// number is a maximal digit run read as a 32-bit signed integer; a run
/// whose value is out of range is rejected as an overflow fault.
pub open spec fn sp_factor(s: Seq<u8>, p: nat) -> PExp
    decreases s.len() - p, 0int,
{
    match peek(s, p) {
        None => PExp { next: p, res: Err(exp_err(Expectation::Factor, None)) },
        Some(c) => {
            if c == LPAREN {
                let p1 = after_ws(s, p + 1);
                let e = if p < p1 <= s.len() {
                    sp_expression(s, p1)
                } else {
                    PExp { next: p1, res: Err(exp_err(Expectation::Factor, None)) }
                };
                match e.res {
                    Err(er) => PExp { next: e.next, res: Err(er) },
                    Ok(x) => {
                        if peek(s, e.next) == Some(RPAREN) {
                            PExp { next: after_ws(s, e.next + 1), res: Ok(x) }
                        } else {
                            PExp {
                                next: e.next,
                                res: Err(exp_err(Expectation::Lit(RPAREN), peek(s, e.next))),
                            }
                        }
                    },
                }
            } else if digit(c) {
                let r = num_run(s, p);
                if p + r == s.len() {
                    PExp { next: s.len(), res: Err(exp_err(Expectation::Number, None)) }
                } else {
                    let v = digits_val(s.subrange(p as int, (p + r) as int));
                    if v > i32::MAX {
                        PExp { next: after_ws(s, p + r), res: Err(ErrSpec::Overflow) }
                    } else {
                        PExp { next: after_ws(s, p + r), res: Ok(ExprSpec::Num(v as i32)) }
                    }
                }
            } else if alpha(c) {
                let r = name_run(s, p);
                if p + r == s.len() {
                    PExp { next: s.len(), res: Err(exp_err(Expectation::Name, None)) }
                } else {
                    let n = s.subrange(p as int, (p + r) as int);
                    let p2 = after_ws(s, p + r);
                    if peek(s, p2) == Some(LPAREN) {
                        let p3 = after_ws(s, p2 + 1);
                        if peek(s, p3) == Some(RPAREN) {
                            PExp { next: after_ws(s, p3 + 1), res: Ok(ExprSpec::Call0(n)) }
                        } else {
                            PExp {
                                next: p3,
                                res: Err(exp_err(Expectation::Lit(RPAREN), peek(s, p3))),
                            }
                        }
                    } else {
                        PExp { next: p2, res: Ok(ExprSpec::Var(n)) }
                    }
                }
            } else {
                PExp { next: p, res: Err(exp_err(Expectation::Factor, Some(c))) }
            }
        },
    }
}

/// The multiplying operators and their factors that follow a first factor,
/// folded onto it left to right.
pub open spec fn sp_term_more(s: Seq<u8>, p: nat, acc: ExprSpec) -> PExp
    decreases s.len() - p, 1int,
{
    match peek(s, p) {
        None => PExp { next: p, res: Ok(acc) },
        Some(op) => {
            if op == STAR || op == SLASH {
                let p1 = after_ws(s, p + 1);
                let f = if p < p1 <= s.len() {
                    sp_factor(s, p1)
                } else {
                    PExp { next: p1, res: Err(exp_err(Expectation::Factor, None)) }
                };
                match f.res {
                    Err(er) => PExp { next: f.next, res: Err(er) },
                    Ok(x) => {
                        let acc2 = if op == STAR {
                            ExprSpec::Mul(Box::new(acc), Box::new(x))
                        } else {
                            ExprSpec::Div(Box::new(acc), Box::new(x))
                        };
                        if p < f.next <= s.len() {
                            sp_term_more(s, f.next, acc2)
                        } else {
                            PExp { next: f.next, res: Ok(acc2) }
                        }
                    },
                }
            } else {
                PExp { next: p, res: Ok(acc) }
            }
        },
    }
}

/// A Term: factors joined by the multiplying operators, left to right.
pub open spec fn sp_term(s: Seq<u8>, p: nat) -> PExp
    decreases s.len() - p, 2int,
{
    let f = sp_factor(s, p);
    match f.res {
        Err(er) => PExp { next: f.next, res: Err(er) },
        Ok(x) => {
            if p < f.next <= s.len() {
                sp_term_more(s, f.next, x)
            } else {
                PExp { next: f.next, res: Ok(x) }
            }
        },
    }
}

/// The adding operators and their terms that follow a first term, folded
/// onto it left to right.
pub open spec fn sp_expr_more(s: Seq<u8>, p: nat, acc: ExprSpec) -> PExp
    decreases s.len() - p, 3int,
{
    match peek(s, p) {
        None => PExp { next: p, res: Ok(acc) },
        Some(op) => {
            if op == PLUS || op == MINUS {
                let p1 = after_ws(s, p + 1);
                let t = if p < p1 <= s.len() {
                    sp_term(s, p1)
                } else {
                    PExp { next: p1, res: Err(exp_err(Expectation::Factor, None)) }
                };
                match t.res {
                    Err(er) => PExp { next: t.next, res: Err(er) },
                    Ok(x) => {
                        let acc2 = if op == PLUS {
                            ExprSpec::Add(Box::new(acc), Box::new(x))
                        } else {
                            ExprSpec::Sub(Box::new(acc), Box::new(x))
                        };
                        if p < t.next <= s.len() {
                            sp_expr_more(s, t.next, acc2)
                        } else {
                            PExp { next: t.next, res: Ok(acc2) }
                        }
                    },
                }
            } else {
                PExp { next: p, res: Ok(acc) }
            }
        },
    }
}

/// An Expression: an optional leading sign, then terms joined by the
/// adding operators, left to right. A leading minus subtracts the first
/// term from a zero base; a leading plus is a no-op.
pub open spec fn sp_expression(s: Seq<u8>, p: nat) -> PExp
    decreases s.len() - p, 4int,
{
    if peek(s, p) == Some(MINUS) || peek(s, p) == Some(PLUS) {
        let neg = peek(s, p) == Some(MINUS);
        let p1 = after_ws(s, p + 1);
        let t = if p < p1 <= s.len() {
            sp_term(s, p1)
        } else {
            PExp { next: p1, res: Err(exp_err(Expectation::Factor, None)) }
        };
        match t.res {
            Err(er) => PExp { next: t.next, res: Err(er) },
            Ok(x) => {
                let base = if neg {
                    ExprSpec::Sub(Box::new(ExprSpec::Num(0)), Box::new(x))
                } else {
                    x
                };
                if p < t.next <= s.len() {
                    sp_expr_more(s, t.next, base)
                } else {
                    PExp { next: t.next, res: Ok(base) }
                }
            },
        }
    } else {
        let t = sp_term(s, p);
        match t.res {
            Err(er) => PExp { next: t.next, res: Err(er) },
            Ok(x) => {
                if p < t.next <= s.len() {
                    sp_expr_more(s, t.next, x)
                } else {
                    PExp { next: t.next, res: Ok(x) }
                }
            },
        }
    }
}

/// What recognizing one assignment does: the position reached and the
/// target name with its expression, or the failure that halted it.
pub struct PAsg {
    pub next: nat,
    pub res: Result<(Seq<u8>, ExprSpec), ErrSpec>,
}

/// An Assignment: an identifier (starting with a letter), the equals sign,
/// and the expression whose value the identifier is to be bound to.
pub open spec fn sp_assignment(s: Seq<u8>, p: nat) -> PAsg {
    match peek(s, p) {
        None => PAsg { next: p, res: Err(exp_err(Expectation::Name, None)) },
        Some(c) => {
            if alpha(c) {
                let r = name_run(s, p);
                if p + r == s.len() {
                    PAsg { next: s.len(), res: Err(exp_err(Expectation::Name, None)) }
                } else {
                    let n = s.subrange(p as int, (p + r) as int);
                    let p1 = after_ws(s, p + r);
                    if peek(s, p1) == Some(EQUALS) {
                        let p2 = after_ws(s, p1 + 1);
                        let e = sp_expression(s, p2);
                        match e.res {
                            Err(er) => PAsg { next: e.next, res: Err(er) },
                            Ok(x) => PAsg { next: e.next, res: Ok((n, x)) },
                        }
                    } else {
                        PAsg { next: p1, res: Err(exp_err(Expectation::Lit(EQUALS), peek(s, p1))) }
                    }
                }
            } else {
                PAsg { next: p, res: Err(exp_err(Expectation::Name, Some(c))) }
            }
        },
    }
}

/// What running one assignment does: recognition, evaluation against the
/// table, the kind check on the target, then emission of the expression's
/// stack code and of the store, and the binding of the computed value.
/// A run that fails at any of those steps emits nothing and binds nothing.
pub struct AOut {
    pub next: nat,
    pub out: Seq<InstrSpec>,
    pub tbl: TblSpec,
    pub res: Result<int, ErrSpec>,
}

/// Running one assignment: see `AOut`.
pub open spec fn sp_run_assignment(s: Seq<u8>, p: nat, t: TblSpec) -> AOut {
    let a = sp_assignment(s, p);
    match a.res {
        Err(er) => AOut { next: a.next, out: Seq::empty(), tbl: t, res: Err(er) },
        Ok((n, x)) => {
            match sp_eval(x, t) {
                Err(er) => AOut { next: a.next, out: Seq::empty(), tbl: t, res: Err(er) },
                Ok(v) => {
                    if tbl_has(t, n) && tbl_at(t, n) is Flag {
                        AOut {
                            next: a.next,
                            out: Seq::empty(),
                            tbl: t,
                            res: Err(ErrSpec::KindConflict { name: n }),
                        }
                    } else {
                        AOut {
                            next: a.next,
                            out: sp_emit_expr(x) + seq![InstrSpec::LocalSet(n)],
                            tbl: tbl_assign(t, n, v as i32),
                            res: Ok(v),
                        }
                    }
                },
            }
        },
    }
}


/// Whether a parse outcome and a modelled one say the same thing.
pub open spec fn expr_agrees(r: Result<Expr, CompileError>, res: Result<ExprSpec, ErrSpec>) -> bool {
    match r {
        Ok(e) => res == Ok::<ExprSpec, ErrSpec>(e.deep_view()),
        Err(er) => res == Err::<ExprSpec, ErrSpec>(er@),
    }
}

/// Factor recognition stays within the input and consumes at least one
/// byte when it succeeds.
pub proof fn lemma_factor_bounds(s: Seq<u8>, p: nat)
    requires
        p <= s.len(),
    ensures
        p <= sp_factor(s, p).next <= s.len(),
        sp_factor(s, p).res is Ok ==> p < sp_factor(s, p).next,
    decreases s.len() - p, 0int,
{
    if peek(s, p) is Some {
        let c = peek(s, p)->Some_0;
        if c == LPAREN {
            lemma_ws_run_le(s, p + 1);
            let p1 = after_ws(s, p + 1);
            lemma_expression_bounds(s, p1);
            let e = sp_expression(s, p1);
            if e.res is Ok && peek(s, e.next) == Some(RPAREN) {
                lemma_ws_run_le(s, e.next + 1);
            }
        } else if digit(c) {
            lemma_num_run_le(s, p);
            let r = num_run(s, p);
            assert(r >= 1);
            if p + r < s.len() {
                lemma_ws_run_le(s, p + r);
            }
        } else if alpha(c) {
            lemma_name_run_le(s, p);
            let r = name_run(s, p);
            assert(r >= 1);
            if p + r < s.len() {
                lemma_ws_run_le(s, p + r);
                let p2 = after_ws(s, p + r);
                if peek(s, p2) == Some(LPAREN) {
                    lemma_ws_run_le(s, p2 + 1);
                    let p3 = after_ws(s, p2 + 1);
                    if peek(s, p3) == Some(RPAREN) {
                        lemma_ws_run_le(s, p3 + 1);
                    }
                }
            }
        }
    }
}

/// Folding multiplying operators stays within the input.
pub proof fn lemma_term_more_bounds(s: Seq<u8>, p: nat, acc: ExprSpec)
    requires
        p <= s.len(),
    ensures
        p <= sp_term_more(s, p, acc).next <= s.len(),
    decreases s.len() - p, 1int,
{
    if peek(s, p) is Some {
        let op = peek(s, p)->Some_0;
        if op == STAR || op == SLASH {
            lemma_ws_run_le(s, p + 1);
            let p1 = after_ws(s, p + 1);
            lemma_factor_bounds(s, p1);
            let f = sp_factor(s, p1);
            if f.res is Ok && p < f.next <= s.len() {
                let acc2 = if op == STAR {
                    ExprSpec::Mul(Box::new(acc), Box::new(f.res->Ok_0))
                } else {
                    ExprSpec::Div(Box::new(acc), Box::new(f.res->Ok_0))
                };
                lemma_term_more_bounds(s, f.next, acc2);
            }
        }
    }
}

/// Term recognition stays within the input and consumes at least one byte
/// when it succeeds.
pub proof fn lemma_term_bounds(s: Seq<u8>, p: nat)
    requires
        p <= s.len(),
    ensures
        p <= sp_term(s, p).next <= s.len(),
        sp_term(s, p).res is Ok ==> p < sp_term(s, p).next,
    decreases s.len() - p, 2int,
{
    lemma_factor_bounds(s, p);
    let f = sp_factor(s, p);
    if f.res is Ok && p < f.next <= s.len() {
        lemma_term_more_bounds(s, f.next, f.res->Ok_0);
    }
}

/// Folding adding operators stays within the input.
pub proof fn lemma_expr_more_bounds(s: Seq<u8>, p: nat, acc: ExprSpec)
    requires
        p <= s.len(),
    ensures
        p <= sp_expr_more(s, p, acc).next <= s.len(),
    decreases s.len() - p, 3int,
{
    if peek(s, p) is Some {
        let op = peek(s, p)->Some_0;
        if op == PLUS || op == MINUS {
            lemma_ws_run_le(s, p + 1);
            let p1 = after_ws(s, p + 1);
            lemma_term_bounds(s, p1);
            let t = sp_term(s, p1);
            if t.res is Ok && p < t.next <= s.len() {
                let acc2 = if op == PLUS {
                    ExprSpec::Add(Box::new(acc), Box::new(t.res->Ok_0))
                } else {
                    ExprSpec::Sub(Box::new(acc), Box::new(t.res->Ok_0))
                };
                lemma_expr_more_bounds(s, t.next, acc2);
            }
        }
    }
}

/// Expression recognition stays within the input and consumes at least one
/// byte when it succeeds.
pub proof fn lemma_expression_bounds(s: Seq<u8>, p: nat)
    requires
        p <= s.len(),
    ensures
        p <= sp_expression(s, p).next <= s.len(),
        sp_expression(s, p).res is Ok ==> p < sp_expression(s, p).next,
    decreases s.len() - p, 4int,
{
    if peek(s, p) == Some(MINUS) || peek(s, p) == Some(PLUS) {
        let neg = peek(s, p) == Some(MINUS);
        lemma_ws_run_le(s, p + 1);
        let p1 = after_ws(s, p + 1);
        lemma_term_bounds(s, p1);
        let t = sp_term(s, p1);
        if t.res is Ok && p < t.next <= s.len() {
            let base = if neg {
                ExprSpec::Sub(Box::new(ExprSpec::Num(0)), Box::new(t.res->Ok_0))
            } else {
                t.res->Ok_0
            };
            lemma_expr_more_bounds(s, t.next, base);
        }
    } else {
        lemma_term_bounds(s, p);
        let t = sp_term(s, p);
        if t.res is Ok && p < t.next <= s.len() {
            lemma_expr_more_bounds(s, t.next, t.res->Ok_0);
        }
    }
}

/// Every byte of a digit run is a digit.
proof fn lemma_num_run_digits(s: Seq<u8>, p: nat)
    requires
        p <= s.len(),
    ensures
        forall|k: int|
            p <= k < p + num_run(s, p) ==> k < s.len() && digit(#[trigger] s[k]),
    decreases s.len() - p,
{
    lemma_num_run_le(s, p);
    if p < s.len() && digit(s[p as int]) {
        lemma_num_run_digits(s, p + 1);
    }
}

/// The value of an all-digit sequence is never negative.
proof fn lemma_digits_nonneg(d: Seq<u8>)
    requires
        forall|k: int| 0 <= k < d.len() ==> digit(#[trigger] d[k]),
    ensures
        digits_val(d) >= 0,
    decreases d.len(),
{
    if d.len() > 0 {
        lemma_digits_nonneg(d.drop_last());
    }
}

/// A digit prefix never values more than the whole run.
proof fn lemma_digits_prefix_le(d: Seq<u8>, j: int)
    requires
        forall|k: int| 0 <= k < d.len() ==> digit(#[trigger] d[k]),
        0 <= j <= d.len(),
    ensures
        digits_val(d.subrange(0, j)) <= digits_val(d),
    decreases d.len() - j,
{
    if j < d.len() {
        assert(d.subrange(0, j + 1).drop_last() =~= d.subrange(0, j));
        assert(d.subrange(0, j + 1).last() == d[j]);
        lemma_digits_nonneg(d.subrange(0, j));
        lemma_digits_prefix_le(d, j + 1);
    } else {
        assert(d.subrange(0, j) =~= d);
    }
}

/// Reads an all-digit identifier as a 32-bit signed value; a run whose
/// value is out of range yields nothing.
fn digits_to_i32(d: &Vec<u8>) -> (r: Option<i32>)
    requires
        forall|k: int| 0 <= k < d@.len() ==> digit(#[trigger] d@[k]),
    ensures
        digits_val(d@) <= i32::MAX ==> (r matches Some(v) && v as int == digits_val(d@)),
        digits_val(d@) > i32::MAX ==> r is None,
{
    let mut acc: u64 = 0;
    let mut i: usize = 0;
    proof {
        assert(d@.subrange(0, 0) =~= Seq::<u8>::empty());
    }
    while i < d.len()
        invariant
            0 <= i <= d@.len(),
            acc as int == digits_val(d@.subrange(0, i as int)),
            acc <= i32::MAX as u64,
            forall|k: int| 0 <= k < d@.len() ==> digit(#[trigger] d@[k]),
        decreases d@.len() - i,
    {
        let dig = d[i];
        acc = acc * 10 + ((dig - 48) as u64);
        i = i + 1;
        proof {
            assert(d@.subrange(0, i as int).drop_last() =~= d@.subrange(0, i - 1));
            assert(d@.subrange(0, i as int).last() == d@[i - 1]);
        }
        if acc > (i32::MAX as u64) {
            proof {
                lemma_digits_prefix_le(d@, i as int);
            }
            return None;
        }
    }
    proof {
        assert(d@.subrange(0, d@.len() as int) =~= d@);
    }
    Some(acc as i32)
}


/// A Factor at `pos`: a parenthesized expression, an identifier read or
/// call, or a number.
#[verifier::rlimit(60)]
fn factor_at(input: &Vec<u8>, pos: usize) -> (r: (usize, Result<Expr, CompileError>))
    requires
        pos <= input@.len(),
    ensures
        pos <= r.0 <= input@.len(),
        ({
            let pe = sp_factor(input@, pos as nat);
            &&& r.0 as nat == pe.next
            &&& expr_agrees(r.1, pe.res)
        }),
    decreases input@.len() - pos, 0int,
{
    let ghost s = input@;
    let la = peek_at(input, pos);
    match la {
        None => (pos, Err(CompileError::Expected { what: Expectation::Factor, found: None })),
        Some(c) => {
            if c == LPAREN {
                let p1 = ws_at(input, pos + 1);
                let (q, res) = expression_at(input, p1);
                match res {
                    Err(e) => (q, Err(e)),
                    Ok(x) => {
                        let lb = peek_at(input, q);
                        match lb {
                            Some(d) => {
                                if d == RPAREN {
                                    (ws_at(input, q + 1), Ok(x))
                                } else {
                                    (
                                        q,
                                        Err(
                                            CompileError::Expected {
                                                what: Expectation::Lit(RPAREN),
                                                found: lb,
                                            },
                                        ),
                                    )
                                }
                            }
                            None => (
                                q,
                                Err(
                                    CompileError::Expected {
                                        what: Expectation::Lit(RPAREN),
                                        found: None,
                                    },
                                ),
                            ),
                        }
                    }
                }
            } else if is_digit(c) {
                let (q, nres) = scan_num(input, pos);
                match nres {
                    Err(e) => (q, Err(e)),
                    Ok(digits) => {
                        proof {
                            lemma_num_run_digits(s, pos as nat);
                            assert forall|k: int| 0 <= k < digits@.len() implies digit(
                                #[trigger] digits@[k],
                            ) by {
                                assert(digits@[k] == s[pos + k]);
                            }
                        }
                        match digits_to_i32(&digits) {
                            None => (q, Err(CompileError::Overflow)),
                            Some(v) => (q, Ok(Expr::Num(v))),
                        }
                    }
                }
            } else if is_alpha(c) {
                let (q, nres) = scan_name(input, pos);
                match nres {
                    Err(e) => (q, Err(e)),
                    Ok(name) => {
                        let lb = peek_at(input, q);
                        match lb {
                            Some(d) => {
                                if d == LPAREN {
                                    let p3 = ws_at(input, q + 1);
                                    let lc = peek_at(input, p3);
                                    match lc {
                                        Some(ch) => {
                                            if ch == RPAREN {
                                                (ws_at(input, p3 + 1), Ok(Expr::Call0(name)))
                                            } else {
                                                (
                                                    p3,
                                                    Err(
                                                        CompileError::Expected {
                                                            what: Expectation::Lit(RPAREN),
                                                            found: lc,
                                                        },
                                                    ),
                                                )
                                            }
                                        }
                                        None => (
                                            p3,
                                            Err(
                                                CompileError::Expected {
                                                    what: Expectation::Lit(RPAREN),
                                                    found: None,
                                                },
                                            ),
                                        ),
                                    }
                                } else {
                                    (q, Ok(Expr::Var(name)))
                                }
                            }
                            None => (q, Ok(Expr::Var(name))),
                        }
                    }
                }
            } else {
                (pos, Err(CompileError::Expected { what: Expectation::Factor, found: Some(c) }))
            }
        }
    }
}

/// The multiplying operators and factors that follow a first factor.
fn term_more_at(input: &Vec<u8>, pos: usize, acc: Expr) -> (r: (usize, Result<Expr, CompileError>))
    requires
        pos <= input@.len(),
    ensures
        pos <= r.0 <= input@.len(),
        ({
            let pe = sp_term_more(input@, pos as nat, acc.deep_view());
            &&& r.0 as nat == pe.next
            &&& expr_agrees(r.1, pe.res)
        }),
    decreases input@.len() - pos, 1int,
{
    let ghost s = input@;
    let la = peek_at(input, pos);
    match la {
        None => (pos, Ok(acc)),
        Some(op) => {
            if op == STAR || op == SLASH {
                let p1 = ws_at(input, pos + 1);
                let (q, fres) = factor_at(input, p1);
                proof {
                    lemma_factor_bounds(s, p1 as nat);
                }
                match fres {
                    Err(e) => (q, Err(e)),
                    Ok(x) => {
                        let acc2 = if op == STAR {
                            Expr::Mul(Box::new(acc), Box::new(x))
                        } else {
                            Expr::Div(Box::new(acc), Box::new(x))
                        };
                        term_more_at(input, q, acc2)
                    }
                }
            } else {
                (pos, Ok(acc))
            }
        }
    }
}

/// A Term at `pos`: factors joined by the multiplying operators.
fn term_at(input: &Vec<u8>, pos: usize) -> (r: (usize, Result<Expr, CompileError>))
    requires
        pos <= input@.len(),
    ensures
        pos <= r.0 <= input@.len(),
        ({
            let pe = sp_term(input@, pos as nat);
            &&& r.0 as nat == pe.next
            &&& expr_agrees(r.1, pe.res)
        }),
    decreases input@.len() - pos, 2int,
{
    let ghost s = input@;
    let (q, fres) = factor_at(input, pos);
    proof {
        lemma_factor_bounds(s, pos as nat);
    }
    match fres {
        Err(e) => (q, Err(e)),
        Ok(x) => term_more_at(input, q, x),
    }
}

/// The adding operators and terms that follow a first term.
fn expr_more_at(input: &Vec<u8>, pos: usize, acc: Expr) -> (r: (usize, Result<Expr, CompileError>))
    requires
        pos <= input@.len(),
    ensures
        pos <= r.0 <= input@.len(),
        ({
            let pe = sp_expr_more(input@, pos as nat, acc.deep_view());
            &&& r.0 as nat == pe.next
            &&& expr_agrees(r.1, pe.res)
        }),
    decreases input@.len() - pos, 3int,
{
    let ghost s = input@;
    let la = peek_at(input, pos);
    match la {
        None => (pos, Ok(acc)),
        Some(op) => {
            if op == PLUS || op == MINUS {
                let p1 = ws_at(input, pos + 1);
                let (q, tres) = term_at(input, p1);
                proof {
                    lemma_term_bounds(s, p1 as nat);
                }
                match tres {
                    Err(e) => (q, Err(e)),
                    Ok(x) => {
                        let acc2 = if op == PLUS {
                            Expr::Add(Box::new(acc), Box::new(x))
                        } else {
                            Expr::Sub(Box::new(acc), Box::new(x))
                        };
                        expr_more_at(input, q, acc2)
                    }
                }
            } else {
                (pos, Ok(acc))
            }
        }
    }
}

/// An Expression at `pos`: an optional leading sign, then terms joined by
/// the adding operators.
fn expression_at(input: &Vec<u8>, pos: usize) -> (r: (usize, Result<Expr, CompileError>))
    requires
        pos <= input@.len(),
    ensures
        pos <= r.0 <= input@.len(),
        ({
            let pe = sp_expression(input@, pos as nat);
            &&& r.0 as nat == pe.next
            &&& expr_agrees(r.1, pe.res)
        }),
    decreases input@.len() - pos, 4int,
{
    let ghost s = input@;
    let la = peek_at(input, pos);
    let signed = match la {
        Some(c) => c == MINUS || c == PLUS,
        None => false,
    };
    if signed {
        let neg = match la {
            Some(c) => c == MINUS,
            None => false,
        };
        let p1 = ws_at(input, pos + 1);
        let (q, tres) = term_at(input, p1);
        proof {
            lemma_term_bounds(s, p1 as nat);
        }
        match tres {
            Err(e) => (q, Err(e)),
            Ok(x) => {
                let ghost xv = x.deep_view();
                let base = if neg {
                    Expr::Sub(Box::new(Expr::Num(0)), Box::new(x))
                } else {
                    x
                };
                proof {
                    if neg {
                        assert(Expr::Num(0).deep_view() == ExprSpec::Num(0));
                        assert(base.deep_view() == ExprSpec::Sub(
                            Box::new(ExprSpec::Num(0)),
                            Box::new(xv),
                        ));
                    }
                }
                expr_more_at(input, q, base)
            }
        }
    } else {
        let (q, tres) = term_at(input, pos);
        proof {
            lemma_term_bounds(s, pos as nat);
        }
        match tres {
            Err(e) => (q, Err(e)),
            Ok(x) => expr_more_at(input, q, x),
        }
    }
}


/// Evaluates an expression against a table; the value on success, the
/// fault (undeclared or flag-bound read, callee of a call, zero divisor,
/// out-of-range result) otherwise.
fn eval_expr_at(e: &Expr, tbl: &Table) -> (r: Result<i32, CompileError>)
    requires
        tbl.wf(),
    ensures
        ({
            let ev = sp_eval(e.deep_view(), tbl@);
            match r {
                Ok(v) => ev == Ok::<int, ErrSpec>(v as int),
                Err(er) => ev == Err::<int, ErrSpec>(er@),
            }
        }),
    decreases e,
{
    match e {
        Expr::Num(n) => Ok(*n),
        Expr::Var(x) => {
            match tbl.lookup(x) {
                None => Err(CompileError::Undeclared { name: copy_bytes(x) }),
                Some(Binding::Flag) => Err(CompileError::KindConflict { name: copy_bytes(x) }),
                Some(Binding::IntVal(v)) => Ok(v),
            }
        }
        Expr::Call0(f) => Err(CompileError::Undeclared { name: copy_bytes(f) }),
        Expr::Add(a, b) => {
            let x = match eval_expr_at(a, tbl) {
                Ok(v) => v,
                Err(er) => {
                    return Err(er);
                },
            };
            let y = match eval_expr_at(b, tbl) {
                Ok(v) => v,
                Err(er) => {
                    return Err(er);
                },
            };
            match x.checked_add(y) {
                Some(v) => Ok(v),
                None => Err(CompileError::Overflow),
            }
        }
        Expr::Sub(a, b) => {
            let x = match eval_expr_at(a, tbl) {
                Ok(v) => v,
                Err(er) => {
                    return Err(er);
                },
            };
            let y = match eval_expr_at(b, tbl) {
                Ok(v) => v,
                Err(er) => {
                    return Err(er);
                },
            };
            match x.checked_sub(y) {
                Some(v) => Ok(v),
                None => Err(CompileError::Overflow),
            }
        }
        Expr::Mul(a, b) => {
            let x = match eval_expr_at(a, tbl) {
                Ok(v) => v,
                Err(er) => {
                    return Err(er);
                },
            };
            let y = match eval_expr_at(b, tbl) {
                Ok(v) => v,
                Err(er) => {
                    return Err(er);
                },
            };
            match x.checked_mul(y) {
                Some(v) => Ok(v),
                None => Err(CompileError::Overflow),
            }
        }
        Expr::Div(a, b) => {
            let x = match eval_expr_at(a, tbl) {
                Ok(v) => v,
                Err(er) => {
                    return Err(er);
                },
            };
            let y = match eval_expr_at(b, tbl) {
                Ok(v) => v,
                Err(er) => {
                    return Err(er);
                },
            };
            if y == 0 {
                Err(CompileError::DivByZero)
            } else {
                proof {
                    assert((x as int) * -1 == -(x as int));
                    assert((y as int) * -1 == -(y as int));
                }
                match x.checked_div(y) {
                    Some(v) => Ok(v),
                    None => Err(CompileError::Overflow),
                }
            }
        }
    }
}

/// A fresh identifier equal to `b`.
fn copy_bytes(b: &Vec<u8>) -> (r: Vec<u8>)
    ensures
        r@ == b@,
{
    let mut r: Vec<u8> = Vec::new();
    let mut i: usize = 0;
    while i < b.len()
        invariant
            i <= b@.len(),
            r@ == b@.subrange(0, i as int),
        decreases b@.len() - i,
    {
        r.push(b[i]);
        i = i + 1;
        proof {
            assert(r@ =~= b@.subrange(0, i as int));
        }
    }
    proof {
        assert(r@ =~= b@);
    }
    r
}

/// Emits an expression's stack code: postorder, operands then operation.
fn emit_expr_at(out: &mut Vec<Instr>, e: &Expr)
    ensures
        final(out).deep_view() == old(out).deep_view() + sp_emit_expr(e.deep_view()),
    decreases e,
{
    let ghost out0 = out.deep_view();
    match e {
        Expr::Num(n) => {
            emit_instr(out, Instr::ConstPush(*n));
            proof {
                assert(out.deep_view() =~= out0 + sp_emit_expr(e.deep_view()));
            }
        }
        Expr::Var(x) => {
            emit_instr(out, Instr::LocalGet(copy_bytes(x)));
            proof {
                assert(out.deep_view() =~= out0 + sp_emit_expr(e.deep_view()));
            }
        }
        Expr::Call0(f) => {
            emit_instr(out, Instr::CallFn(copy_bytes(f)));
            proof {
                assert(out.deep_view() =~= out0 + sp_emit_expr(e.deep_view()));
            }
        }
        Expr::Add(a, b) => {
            emit_expr_at(out, a);
            emit_expr_at(out, b);
            emit_instr(out, Instr::AddI32);
            proof {
                assert(out.deep_view() =~= out0 + sp_emit_expr(e.deep_view()));
            }
        }
        Expr::Sub(a, b) => {
            emit_expr_at(out, a);
            emit_expr_at(out, b);
            emit_instr(out, Instr::SubI32);
            proof {
                assert(out.deep_view() =~= out0 + sp_emit_expr(e.deep_view()));
            }
        }
        Expr::Mul(a, b) => {
            emit_expr_at(out, a);
            emit_expr_at(out, b);
            emit_instr(out, Instr::MulI32);
            proof {
                assert(out.deep_view() =~= out0 + sp_emit_expr(e.deep_view()));
            }
        }
        Expr::Div(a, b) => {
            emit_expr_at(out, a);
            emit_expr_at(out, b);
            emit_instr(out, Instr::DivI32);
            proof {
                assert(out.deep_view() =~= out0 + sp_emit_expr(e.deep_view()));
            }
        }
    }
}

/// Whether an assignment-recognition outcome and a modelled one say the
/// same thing.
pub open spec fn asg_agrees(
    r: Result<(Vec<u8>, Expr), CompileError>,
    res: Result<(Seq<u8>, ExprSpec), ErrSpec>,
) -> bool {
    match r {
        Ok(p) => res == Ok::<(Seq<u8>, ExprSpec), ErrSpec>((p.0@, p.1.deep_view())),
        Err(er) => res == Err::<(Seq<u8>, ExprSpec), ErrSpec>(er@),
    }
}

/// An Assignment at `pos`: the target identifier, the equals sign, and the
/// expression.
fn assignment_at(input: &Vec<u8>, pos: usize) -> (r: (
    usize,
    Result<(Vec<u8>, Expr), CompileError>,
))
    requires
        pos <= input@.len(),
    ensures
        pos <= r.0 <= input@.len(),
        ({
            let pa = sp_assignment(input@, pos as nat);
            &&& r.0 as nat == pa.next
            &&& asg_agrees(r.1, pa.res)
        }),
{
    let ghost s = input@;
    let la = peek_at(input, pos);
    match la {
        None => (pos, Err(CompileError::Expected { what: Expectation::Name, found: None })),
        Some(c) => {
            if is_alpha(c) {
                let (q1, nres) = scan_name(input, pos);
                match nres {
                    Err(e) => (q1, Err(e)),
                    Ok(name) => {
                        let lb = peek_at(input, q1);
                        match lb {
                            Some(d) => {
                                if d == EQUALS {
                                    let p2 = ws_at(input, q1 + 1);
                                    let (q2, eres) = expression_at(input, p2);
                                    match eres {
                                        Err(e) => (q2, Err(e)),
                                        Ok(x) => (q2, Ok((name, x))),
                                    }
                                } else {
                                    (
                                        q1,
                                        Err(
                                            CompileError::Expected {
                                                what: Expectation::Lit(EQUALS),
                                                found: lb,
                                            },
                                        ),
                                    )
                                }
                            }
                            None => (
                                q1,
                                Err(
                                    CompileError::Expected {
                                        what: Expectation::Lit(EQUALS),
                                        found: None,
                                    },
                                ),
                            ),
                        }
                    }
                }
            } else {
                (pos, Err(CompileError::Expected { what: Expectation::Name, found: Some(c) }))
            }
        }
    }
}

impl Compiler {
    /// Recognizes one Factor at the cursor.
    pub fn parse_factor(&mut self) -> (r: Result<Expr, CompileError>)
        requires
            old(self).wf(),
        ensures
            final(self).wf(),
            final(self).input@ == old(self).input@,
            final(self).out.deep_view() == old(self).out.deep_view(),
            final(self).table@ == old(self).table@,
            ({
                let pe = sp_factor(old(self).input@, old(self).pos as nat);
                &&& final(self).pos as nat == pe.next
                &&& expr_agrees(r, pe.res)
            }),
    {
        let (q, res) = factor_at(&self.input, self.pos);
        self.pos = q;
        res
    }

    /// Recognizes one Term at the cursor.
    pub fn parse_term(&mut self) -> (r: Result<Expr, CompileError>)
        requires
            old(self).wf(),
        ensures
            final(self).wf(),
            final(self).input@ == old(self).input@,
            final(self).out.deep_view() == old(self).out.deep_view(),
            final(self).table@ == old(self).table@,
            ({
                let pe = sp_term(old(self).input@, old(self).pos as nat);
                &&& final(self).pos as nat == pe.next
                &&& expr_agrees(r, pe.res)
            }),
    {
        let (q, res) = term_at(&self.input, self.pos);
        self.pos = q;
        res
    }

    /// Recognizes one Expression at the cursor.
    pub fn parse_expression(&mut self) -> (r: Result<Expr, CompileError>)
        requires
            old(self).wf(),
        ensures
            final(self).wf(),
            final(self).input@ == old(self).input@,
            final(self).out.deep_view() == old(self).out.deep_view(),
            final(self).table@ == old(self).table@,
            ({
                let pe = sp_expression(old(self).input@, old(self).pos as nat);
                &&& final(self).pos as nat == pe.next
                &&& expr_agrees(r, pe.res)
            }),
    {
        let (q, res) = expression_at(&self.input, self.pos);
        self.pos = q;
        res
    }

    /// Recognizes one Assignment at the cursor: its target name and its
    /// expression, not yet evaluated or emitted.
    pub fn parse_assignment(&mut self) -> (r: Result<(Vec<u8>, Expr), CompileError>)
        requires
            old(self).wf(),
        ensures
            final(self).wf(),
            final(self).input@ == old(self).input@,
            final(self).out.deep_view() == old(self).out.deep_view(),
            final(self).table@ == old(self).table@,
            ({
                let pa = sp_assignment(old(self).input@, old(self).pos as nat);
                &&& final(self).pos as nat == pa.next
                &&& asg_agrees(r, pa.res)
            }),
    {
        let (q, res) = assignment_at(&self.input, self.pos);
        self.pos = q;
        res
    }

    /// Evaluates an expression against this run's table.
    pub fn eval_expr(&self, e: &Expr) -> (r: Result<i32, CompileError>)
        requires
            self.wf(),
        ensures
            ({
                let ev = sp_eval(e.deep_view(), self.table@);
                match r {
                    Ok(v) => ev == Ok::<int, ErrSpec>(v as int),
                    Err(er) => ev == Err::<int, ErrSpec>(er@),
                }
            }),
    {
        eval_expr_at(e, &self.table)
    }

    /// Emits an expression's stack code to this run's sink.
    pub fn emit_expr(&mut self, e: &Expr)
        requires
            old(self).wf(),
        ensures
            final(self).wf(),
            final(self).input@ == old(self).input@,
            final(self).pos == old(self).pos,
            final(self).table@ == old(self).table@,
            final(self).out.deep_view() == old(self).out.deep_view() + sp_emit_expr(e.deep_view()),
    {
        emit_expr_at(&mut self.out, e);
    }

    /// Runs one assignment at the cursor: recognizes it, evaluates its
    /// expression, checks that the target is not flag-bound, then emits
    /// the expression's stack code followed by the store and binds the
    /// computed value to the target. A run that fails at any step emits
    /// nothing and binds nothing, and the failure is returned.
    pub fn run_assignment(&mut self) -> (r: Result<i32, CompileError>)
        requires
            old(self).wf(),
        ensures
            final(self).wf(),
            final(self).input@ == old(self).input@,
            ({
                let a = sp_run_assignment(old(self).input@, old(self).pos as nat, old(self).table@);
                &&& final(self).pos as nat == a.next
                &&& final(self).out.deep_view() == old(self).out.deep_view() + a.out
                &&& final(self).table@ == a.tbl
                &&& match r {
                    Ok(v) => a.res == Ok::<int, ErrSpec>(v as int),
                    Err(er) => a.res == Err::<int, ErrSpec>(er@),
                }
            }),
    {
        let ghost out0 = self.out.deep_view();
        let (name, e) = match self.parse_assignment() {
            Ok(p) => p,
            Err(er) => {
                proof {
                    assert(self.out.deep_view() =~= out0 + Seq::<InstrSpec>::empty());
                }
                return Err(er);
            },
        };
        let v = match self.eval_expr(&e) {
            Ok(v) => v,
            Err(er) => {
                proof {
                    assert(self.out.deep_view() =~= out0 + Seq::<InstrSpec>::empty());
                }
                return Err(er);
            },
        };
        let set_name = copy_bytes(&name);
        match self.table.assign(name, v) {
            Err(er) => {
                proof {
                    assert(self.out.deep_view() =~= out0 + Seq::<InstrSpec>::empty());
                }
                Err(er)
            },
            Ok(()) => {
                self.emit_expr(&e);
                emit_instr(&mut self.out, Instr::LocalSet(set_name));
                proof {
                    let a = sp_run_assignment(old(self).input@, old(self).pos as nat, old(self).table@);
                    assert(self.out.deep_view() =~= out0 + a.out);
                }
                Ok(v)
            },
        }
    }

    /// Reads the value bound to `name`: the value of a value binding, an
    /// undeclared-identifier failure for an unbound name, and a kind
    /// conflict for a name bound as a control-flow flag (which has no
    /// value to read).
    pub fn read_local(&self, name: &Vec<u8>) -> (r: Result<i32, CompileError>)
        requires
            self.wf(),
        ensures
            !tbl_has(self.table@, name@) ==> (r matches Err(e) && e@ == (ErrSpec::Undeclared {
                name: name@,
            })),
            tbl_has(self.table@, name@) ==> match tbl_at(self.table@, name@) {
                Binding::IntVal(v) => r == Ok::<i32, CompileError>(v),
                Binding::Flag => r matches Err(e) && e@ == (ErrSpec::KindConflict { name: name@ }),
            },
    {
        match self.table.lookup(name) {
            None => Err(CompileError::Undeclared { name: copy_bytes(name) }),
            Some(Binding::Flag) => Err(CompileError::KindConflict { name: copy_bytes(name) }),
            Some(Binding::IntVal(v)) => Ok(v),
        }
    }
}

} // verus!



