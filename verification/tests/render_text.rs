use tinywat::compiler::translate;
use tinywat::diag::{CompileError, Expectation};
use tinywat::instr::Instr;
use tinywat::render::{compile_to_text, error_message, render};

#[test]
fn an_empty_loop_renders_to_its_exact_text() {
    let text = compile_to_text(b"pee\n".to_vec()).unwrap();
    let expected = "(module\n\
                    (func $main (result i32)\n\
                    (loop\n\
                    )\n\
                    (return)\n\
                    )\n\
                    (export \"main\" (func $main))\n\
                    )\n";
    assert_eq!(text, expected.as_bytes().to_vec());
}

#[test]
fn a_conditional_with_else_renders_to_its_exact_text() {
    let text = compile_to_text(b"iablcee\n".to_vec()).unwrap();
    let expected = "(module\n\
                    (func $main (result i32)\n\
                    (if $a\n\
                    (local $b i32)\n\
                    (else\n\
                    (local $c i32)\n\
                    )\n\
                    (return)\n\
                    )\n\
                    (export \"main\" (func $main))\n\
                    )\n";
    assert_eq!(text, expected.as_bytes().to_vec());
}

#[test]
fn rendering_twice_is_byte_identical() {
    let a = compile_to_text(b"wabe e\n".to_vec()).unwrap();
    let b = compile_to_text(b"wabe e\n".to_vec()).unwrap();
    assert_eq!(a, b);
}

#[test]
fn a_failed_translation_renders_no_text() {
    assert_eq!(
        compile_to_text(b"pe".to_vec()),
        Err(CompileError::Expected {
            what: Expectation::Statement,
            found: None,
        })
    );
}

#[test]
fn constants_render_in_decimal_with_their_sign() {
    assert_eq!(
        render(&vec![Instr::ConstPush(0)]),
        b"(i32.const 0)\n".to_vec()
    );
    assert_eq!(
        render(&vec![Instr::ConstPush(12345)]),
        b"(i32.const 12345)\n".to_vec()
    );
    assert_eq!(
        render(&vec![Instr::ConstPush(-42)]),
        b"(i32.const -42)\n".to_vec()
    );
    assert_eq!(
        render(&vec![Instr::ConstPush(i32::MAX)]),
        b"(i32.const 2147483647)\n".to_vec()
    );
    assert_eq!(
        render(&vec![Instr::ConstPush(i32::MIN)]),
        b"(i32.const -2147483648)\n".to_vec()
    );
}

#[test]
fn stack_operations_render_one_per_line() {
    let text = render(&vec![
        Instr::LocalGet(b"x".to_vec()),
        Instr::ConstPush(2),
        Instr::MulI32,
        Instr::LocalSet(b"y".to_vec()),
        Instr::CallFn(b"f".to_vec()),
        Instr::AddI32,
        Instr::SubI32,
        Instr::DivI32,
    ]);
    let expected = "(local.get $x)\n\
                    (i32.const 2)\n\
                    (i32.mul)\n\
                    (local.set $y)\n\
                    (call $f)\n\
                    (i32.add)\n\
                    (i32.sub)\n\
                    (i32.div_s)\n";
    assert_eq!(text, expected.as_bytes().to_vec());
}

#[test]
fn a_mismatch_message_names_both_sides() {
    let e = CompileError::Expected {
        what: Expectation::Lit(b'e'),
        found: Some(b'x'),
    };
    assert_eq!(error_message(&e), b"expected e, found x".to_vec());
}

#[test]
fn an_end_of_input_message_says_nothing_was_found() {
    let e = CompileError::Expected {
        what: Expectation::Condition,
        found: None,
    };
    assert_eq!(error_message(&e), b"expected condition, found nothing".to_vec());
}

#[test]
fn the_other_failures_have_their_own_messages() {
    assert_eq!(
        error_message(&CompileError::Undeclared { name: b"y".to_vec() }),
        b"undeclared identifier y".to_vec()
    );
    assert_eq!(
        error_message(&CompileError::KindConflict { name: b"b".to_vec() }),
        b"name bound to the other kind b".to_vec()
    );
    assert_eq!(
        error_message(&CompileError::DivByZero),
        b"division by zero".to_vec()
    );
    assert_eq!(
        error_message(&CompileError::Overflow),
        b"integer overflow".to_vec()
    );
}

#[test]
fn a_translation_failure_formats_as_its_message() {
    let e = translate(b"pe".to_vec()).unwrap_err();
    assert_eq!(
        error_message(&e),
        b"expected statement or block end, found nothing".to_vec()
    );
}
