use tinywat::compiler::Compiler;
use tinywat::diag::{CompileError, Expectation};
use tinywat::instr::Instr;

#[test]
fn the_cursor_starts_loaded_and_advances_one_byte_at_a_time() {
    let mut c = Compiler::new(b"ab".to_vec());
    assert_eq!(c.lookahead(), Some(b'a'));
    assert_eq!(c.consume_char(), Some(b'b'));
    assert_eq!(c.consume_char(), None);
    assert_eq!(c.consume_char(), None);
    assert_eq!(c.lookahead(), None);
}

#[test]
fn init_skips_leading_blanks() {
    let mut c = Compiler::new(b"   x".to_vec());
    c.init();
    assert_eq!(c.lookahead(), Some(b'x'));
}

#[test]
fn whitespace_skipping_stops_cleanly_at_end_of_input() {
    let mut c = Compiler::new(b"  ".to_vec());
    c.consume_whitespace();
    assert_eq!(c.lookahead(), None);
}

#[test]
fn consume_exact_char_takes_the_match_and_the_blanks_after_it() {
    let mut c = Compiler::new(b"i  x".to_vec());
    assert_eq!(c.consume_exact_char(b'i'), Ok(b'i'));
    assert_eq!(c.lookahead(), Some(b'x'));
}

#[test]
fn consume_exact_char_reports_a_mismatch_and_stays_put() {
    let mut c = Compiler::new(b"x".to_vec());
    assert_eq!(
        c.consume_exact_char(b'i'),
        Err(CompileError::Expected {
            what: Expectation::Lit(b'i'),
            found: Some(b'x'),
        })
    );
    assert_eq!(c.lookahead(), Some(b'x'));
}

#[test]
fn consume_exact_char_reports_end_of_input() {
    let mut c = Compiler::new(b"".to_vec());
    assert_eq!(
        c.consume_exact_char(b'i'),
        Err(CompileError::Expected {
            what: Expectation::Lit(b'i'),
            found: None,
        })
    );
}

#[test]
fn consume_name_reads_the_letter_or_digit_run() {
    let mut c = Compiler::new(b"ab1 x".to_vec());
    assert_eq!(c.consume_name(), Ok(b"ab1".to_vec()));
    assert_eq!(c.lookahead(), Some(b'x'));
}

#[test]
fn consume_name_may_read_an_empty_run() {
    let mut c = Compiler::new(b"+a".to_vec());
    assert_eq!(c.consume_name(), Ok(b"".to_vec()));
    assert_eq!(c.lookahead(), Some(b'+'));
}

#[test]
fn consume_name_reports_a_run_cut_off_by_end_of_input() {
    let mut c = Compiler::new(b"abc".to_vec());
    assert_eq!(
        c.consume_name(),
        Err(CompileError::Expected {
            what: Expectation::Name,
            found: None,
        })
    );
}

#[test]
fn consume_num_reads_the_digit_run() {
    let mut c = Compiler::new(b"123+".to_vec());
    assert_eq!(c.consume_num(), Ok(b"123".to_vec()));
    assert_eq!(c.lookahead(), Some(b'+'));
}

#[test]
fn consume_num_reports_a_run_cut_off_by_end_of_input() {
    let mut c = Compiler::new(b"123".to_vec());
    assert_eq!(
        c.consume_num(),
        Err(CompileError::Expected {
            what: Expectation::Number,
            found: None,
        })
    );
}

#[test]
fn expected_names_what_was_wanted_and_what_stood_there() {
    let c = Compiler::new(b"x".to_vec());
    assert_eq!(
        c.expected(Expectation::Condition),
        CompileError::Expected {
            what: Expectation::Condition,
            found: Some(b'x'),
        }
    );
}

#[test]
fn parse_block_stops_at_each_terminator() {
    for term in [b'e', b'l', b'u'] {
        let mut c = Compiler::new(vec![b'b', b'c', term]);
        c.init();
        assert_eq!(c.parse_block(), Ok(()));
        assert_eq!(c.lookahead(), Some(term));
        assert_eq!(
            c.out,
            vec![Instr::LocalFlag(b'b'), Instr::LocalFlag(b'c')]
        );
    }
}

#[test]
fn parse_program_consumes_the_top_level_end_without_skipping() {
    let mut c = Compiler::new(b"be\n".to_vec());
    c.init();
    assert_eq!(c.parse_program(), Ok(()));
    assert_eq!(c.lookahead(), Some(b'\n'));
    assert_eq!(c.out, vec![Instr::LocalFlag(b'b')]);
}

#[test]
fn parse_program_requires_its_end() {
    let mut c = Compiler::new(b"bl".to_vec());
    c.init();
    assert_eq!(
        c.parse_program(),
        Err(CompileError::Expected {
            what: Expectation::Lit(b'e'),
            found: Some(b'l'),
        })
    );
}

#[test]
fn emit_brackets_the_translated_program() {
    let mut c = Compiler::new(b"be".to_vec());
    assert_eq!(c.emit(), Ok(()));
    assert_eq!(
        c.out,
        vec![
            Instr::ModuleOpen,
            Instr::MainOpen,
            Instr::LocalFlag(b'b'),
            Instr::MainReturn,
            Instr::MainClose,
            Instr::ExportMain,
            Instr::ModuleClose,
        ]
    );
}

#[test]
fn a_failed_run_keeps_what_was_already_emitted() {
    let mut c = Compiler::new(b"pbx".to_vec());
    assert!(c.emit().is_err());
    assert_eq!(
        c.out,
        vec![
            Instr::ModuleOpen,
            Instr::MainOpen,
            Instr::LoopOpen,
            Instr::LocalFlag(b'b'),
            Instr::LocalFlag(b'x'),
        ]
    );
}
