use tinywat::compiler::Compiler;
use tinywat::diag::{CompileError, Expectation};
use tinywat::expr::Expr;
use tinywat::instr::Instr;

fn eval_str(src: &[u8]) -> Result<i32, CompileError> {
    let mut c = Compiler::new(src.to_vec());
    c.init();
    let e = c.parse_expression()?;
    c.eval_expr(&e)
}

#[test]
fn multiplication_binds_tighter_than_addition() {
    assert_eq!(eval_str(b"1+2*3 "), Ok(7));
}

#[test]
fn parentheses_override_precedence() {
    assert_eq!(eval_str(b"(1+2)*3\n"), Ok(9));
}

#[test]
fn equal_precedence_associates_left_to_right() {
    assert_eq!(eval_str(b"10-4-3 "), Ok(3));
    assert_eq!(eval_str(b"100/10/5 "), Ok(2));
}

#[test]
fn assignment_binds_and_reading_yields_the_value() {
    let mut c = Compiler::new(b"x=5\n".to_vec());
    c.init();
    assert_eq!(c.run_assignment(), Ok(5));
    assert_eq!(c.read_local(&b"x".to_vec()), Ok(5));
}

#[test]
fn reading_an_undeclared_identifier_fails() {
    let mut c = Compiler::new(b"x=5\n".to_vec());
    c.init();
    assert_eq!(c.run_assignment(), Ok(5));
    assert_eq!(
        c.read_local(&b"y".to_vec()),
        Err(CompileError::Undeclared { name: b"y".to_vec() })
    );
}

#[test]
fn evaluating_an_undeclared_read_fails() {
    assert_eq!(
        eval_str(b"y+1 "),
        Err(CompileError::Undeclared { name: b"y".to_vec() })
    );
}

#[test]
fn division_truncates_toward_zero() {
    assert_eq!(eval_str(b"7/2 "), Ok(3));
    assert_eq!(eval_str(b"-7/2 "), Ok(-3));
}

#[test]
fn division_of_a_negative_local_truncates_toward_zero() {
    let mut c = Compiler::new(b"x=0-7 x/2 \n".to_vec());
    c.init();
    assert_eq!(c.run_assignment(), Ok(-7));
    let e = c.parse_expression().unwrap();
    assert_eq!(c.eval_expr(&e), Ok(-3));
}

#[test]
fn division_by_zero_is_a_fault() {
    assert_eq!(eval_str(b"7/0 "), Err(CompileError::DivByZero));
}

#[test]
fn out_of_range_sum_is_a_fault() {
    assert_eq!(eval_str(b"2147483647+1 "), Err(CompileError::Overflow));
    assert_eq!(eval_str(b"0-2147483647-2 "), Err(CompileError::Overflow));
}

#[test]
fn out_of_range_literal_is_a_fault() {
    assert_eq!(eval_str(b"9999999999 "), Err(CompileError::Overflow));
    assert_eq!(eval_str(b"2147483648 "), Err(CompileError::Overflow));
    assert_eq!(eval_str(b"2147483647 "), Ok(2147483647));
}

#[test]
fn leading_minus_subtracts_from_a_zero_base() {
    let mut c = Compiler::new(b"-5 ".to_vec());
    c.init();
    let e = c.parse_expression().unwrap();
    assert_eq!(
        e,
        Expr::Sub(Box::new(Expr::Num(0)), Box::new(Expr::Num(5)))
    );
    assert_eq!(c.eval_expr(&e), Ok(-5));
}

#[test]
fn leading_plus_is_a_no_op() {
    assert_eq!(eval_str(b"+5 "), Ok(5));
}

#[test]
fn assignment_emits_stack_code_and_a_store() {
    let mut c = Compiler::new(b"x=1+2 \n".to_vec());
    c.init();
    assert_eq!(c.run_assignment(), Ok(3));
    assert_eq!(
        c.out,
        vec![
            Instr::ConstPush(1),
            Instr::ConstPush(2),
            Instr::AddI32,
            Instr::LocalSet(b"x".to_vec()),
        ]
    );
}

#[test]
fn reassignment_replaces_the_value() {
    let mut c = Compiler::new(b"x=1 x=2 \n".to_vec());
    c.init();
    assert_eq!(c.run_assignment(), Ok(1));
    assert_eq!(c.run_assignment(), Ok(2));
    assert_eq!(c.read_local(&b"x".to_vec()), Ok(2));
}

#[test]
fn a_parenthesized_call_is_recognized() {
    let mut c = Compiler::new(b"f() ".to_vec());
    c.init();
    let e = c.parse_expression().unwrap();
    assert_eq!(e, Expr::Call0(b"f".to_vec()));
    // The core declares no functions, so the callee reads as undeclared.
    assert_eq!(
        c.eval_expr(&e),
        Err(CompileError::Undeclared { name: b"f".to_vec() })
    );
    c.emit_expr(&e);
    assert_eq!(c.out, vec![Instr::CallFn(b"f".to_vec())]);
}

#[test]
fn assigning_to_a_flag_bound_name_is_a_kind_conflict() {
    let mut c = Compiler::new(b"bb=1\n".to_vec());
    c.init();
    assert_eq!(c.parse_other(), Ok(()));
    assert_eq!(
        c.run_assignment(),
        Err(CompileError::KindConflict { name: b"b".to_vec() })
    );
    // A failed run emits nothing beyond the declaration already made.
    assert_eq!(c.out, vec![Instr::LocalFlag(b'b')]);
}

#[test]
fn reading_a_flag_bound_name_is_a_kind_conflict() {
    let mut c = Compiler::new(b"bx=b\n".to_vec());
    c.init();
    assert_eq!(c.parse_other(), Ok(()));
    assert_eq!(
        c.run_assignment(),
        Err(CompileError::KindConflict { name: b"b".to_vec() })
    );
}

#[test]
fn a_factor_must_start_a_parenthesis_a_letter_or_a_digit() {
    assert_eq!(
        eval_str(b"*3 "),
        Err(CompileError::Expected {
            what: Expectation::Factor,
            found: Some(b'*'),
        })
    );
}

#[test]
fn an_unclosed_parenthesis_is_reported() {
    assert_eq!(
        eval_str(b"(1+2 x"),
        Err(CompileError::Expected {
            what: Expectation::Lit(b')'),
            found: Some(b'x'),
        })
    );
}

#[test]
fn an_assignment_needs_the_equals_sign() {
    let mut c = Compiler::new(b"x 5\n".to_vec());
    c.init();
    assert_eq!(
        c.parse_assignment(),
        Err(CompileError::Expected {
            what: Expectation::Lit(b'='),
            found: Some(b'5'),
        })
    );
}

#[test]
fn blanks_are_skipped_inside_expressions() {
    assert_eq!(eval_str(b"1 + 2 * ( 3 - 1 ) \n"), Ok(5));
}

#[test]
fn an_empty_expression_is_reported_at_its_factor() {
    assert_eq!(
        eval_str(b""),
        Err(CompileError::Expected {
            what: Expectation::Factor,
            found: None,
        })
    );
}
