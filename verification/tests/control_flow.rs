use tinywat::compiler::{translate, Compiler};
use tinywat::diag::{CompileError, Expectation};
use tinywat::instr::Instr;
use tinywat::table::Binding;

#[test]
fn if_with_else_emits_exact_sequence() {
    let mut c = Compiler::new(b"iablce".to_vec());
    c.init();
    assert_eq!(c.parse_if(), Ok(()));
    assert_eq!(
        c.out,
        vec![
            Instr::IfOpen(b'a'),
            Instr::LocalFlag(b'b'),
            Instr::ElseMarker,
            Instr::LocalFlag(b'c'),
            Instr::IfClose,
        ]
    );
}

#[test]
fn while_emits_condition_before_body() {
    let mut c = Compiler::new(b"wabe".to_vec());
    c.init();
    assert_eq!(c.parse_while(), Ok(()));
    assert_eq!(
        c.out,
        vec![
            Instr::WhileOpen,
            Instr::CondRef(b'a'),
            Instr::LocalFlag(b'b'),
            Instr::WhileClose,
        ]
    );
}

#[test]
fn repeat_emits_condition_after_body() {
    let mut c = Compiler::new(b"rbua".to_vec());
    c.init();
    assert_eq!(c.parse_repeat(), Ok(()));
    assert_eq!(
        c.out,
        vec![
            Instr::RepeatOpen,
            Instr::LocalFlag(b'b'),
            Instr::CondRef(b'a'),
            Instr::RepeatClose,
        ]
    );
}

#[test]
fn pre_check_and_post_check_loops_order_their_emissions_differently() {
    let mut w = Compiler::new(b"wabe".to_vec());
    w.init();
    assert_eq!(w.parse_while(), Ok(()));
    let mut r = Compiler::new(b"rbua".to_vec());
    r.init();
    assert_eq!(r.parse_repeat(), Ok(()));
    // In the pre-check loop the condition reference comes right after the
    // open; in the post-check loop it comes right before the close.
    assert_eq!(w.out[1], Instr::CondRef(b'a'));
    assert_eq!(r.out[2], Instr::CondRef(b'a'));
    assert!(matches!(w.out[1], Instr::CondRef(_)));
    assert!(!matches!(r.out[1], Instr::CondRef(_)));
}

fn is_open(i: &Instr) -> bool {
    matches!(
        i,
        Instr::IfOpen(_) | Instr::WhileOpen | Instr::LoopOpen | Instr::RepeatOpen
    )
}

fn is_close(i: &Instr) -> bool {
    matches!(
        i,
        Instr::IfClose | Instr::WhileClose | Instr::LoopClose | Instr::RepeatClose
    )
}

#[test]
fn nested_program_balances_opens_and_closes() {
    let out = translate(b"iawcdelpbeee\n".to_vec()).unwrap();
    let opens = out.iter().filter(|i| is_open(i)).count();
    let closes = out.iter().filter(|i| is_close(i)).count();
    assert_eq!(opens, 3);
    assert_eq!(closes, 3);
}

#[test]
fn whole_translation_brackets_the_program() {
    let out = translate(b"iawcdelpbeee\n".to_vec()).unwrap();
    assert_eq!(
        out,
        vec![
            Instr::ModuleOpen,
            Instr::MainOpen,
            Instr::IfOpen(b'a'),
            Instr::WhileOpen,
            Instr::CondRef(b'c'),
            Instr::LocalFlag(b'd'),
            Instr::WhileClose,
            Instr::ElseMarker,
            Instr::LoopOpen,
            Instr::LocalFlag(b'b'),
            Instr::LoopClose,
            Instr::IfClose,
            Instr::MainReturn,
            Instr::MainClose,
            Instr::ExportMain,
            Instr::ModuleClose,
        ]
    );
}

#[test]
fn empty_loop_body_emits_adjacent_open_and_close() {
    let out = translate(b"pee\n".to_vec()).unwrap();
    assert_eq!(
        out,
        vec![
            Instr::ModuleOpen,
            Instr::MainOpen,
            Instr::LoopOpen,
            Instr::LoopClose,
            Instr::MainReturn,
            Instr::MainClose,
            Instr::ExportMain,
            Instr::ModuleClose,
        ]
    );
}

#[test]
fn empty_then_block_emits_adjacent_open_and_close() {
    let out = translate(b"iaee\n".to_vec()).unwrap();
    assert_eq!(
        out,
        vec![
            Instr::ModuleOpen,
            Instr::MainOpen,
            Instr::IfOpen(b'a'),
            Instr::IfClose,
            Instr::MainReturn,
            Instr::MainClose,
            Instr::ExportMain,
            Instr::ModuleClose,
        ]
    );
}

#[test]
fn translation_is_deterministic_on_identical_input() {
    let a = translate(b"iawcdelpbeee\n".to_vec()).unwrap();
    let b = translate(b"iawcdelpbeee\n".to_vec()).unwrap();
    assert_eq!(a, b);
}

#[test]
fn blanks_after_keywords_are_skipped() {
    let out = translate(b"  p e e\n".to_vec()).unwrap();
    assert_eq!(
        out,
        vec![
            Instr::ModuleOpen,
            Instr::MainOpen,
            Instr::LoopOpen,
            Instr::LoopClose,
            Instr::MainReturn,
            Instr::MainClose,
            Instr::ExportMain,
            Instr::ModuleClose,
        ]
    );
}

#[test]
fn the_one_byte_empty_program_is_complete() {
    let out = translate(b"e".to_vec()).unwrap();
    assert_eq!(
        out,
        vec![
            Instr::ModuleOpen,
            Instr::MainOpen,
            Instr::MainReturn,
            Instr::MainClose,
            Instr::ExportMain,
            Instr::ModuleClose,
        ]
    );
}

#[test]
fn a_program_needs_nothing_after_its_end() {
    // The terminal state is the outermost end keyword itself.
    assert_eq!(
        translate(b"pee".to_vec()),
        translate(b"pee\n".to_vec())
    );
}

#[test]
fn bytes_after_the_program_end_are_left_unread() {
    let mut c = Compiler::new(b"peex".to_vec());
    assert_eq!(c.emit(), Ok(()));
    assert_eq!(c.lookahead(), Some(b'x'));
    assert_eq!(c.out, translate(b"pee".to_vec()).unwrap());
}

#[test]
fn unterminated_block_is_reported() {
    assert_eq!(
        translate(b"p\n".to_vec()),
        Err(CompileError::Expected {
            what: Expectation::Statement,
            found: None,
        })
    );
}

#[test]
fn repeat_without_until_is_reported() {
    assert_eq!(
        translate(b"rce\n".to_vec()),
        Err(CompileError::Expected {
            what: Expectation::Lit(b'u'),
            found: Some(b'e'),
        })
    );
}

#[test]
fn conditional_missing_its_end_is_reported() {
    // The else block runs to the end of the input before its end marker.
    let mut c = Compiler::new(b"iablc".to_vec());
    c.init();
    assert_eq!(
        c.parse_if(),
        Err(CompileError::Expected {
            what: Expectation::Statement,
            found: None,
        })
    );
}

#[test]
fn other_statement_declares_its_character_in_the_table() {
    let mut c = Compiler::new(b"b".to_vec());
    c.init();
    assert_eq!(c.parse_other(), Ok(()));
    assert_eq!(c.out, vec![Instr::LocalFlag(b'b')]);
    assert!(c.table.contains(&b"b".to_vec()));
    assert_eq!(c.table.lookup(&b"b".to_vec()), Some(Binding::Flag));
    assert!(!c.table.contains(&b"z".to_vec()));
}

#[test]
fn redeclaring_the_same_local_silently_succeeds() {
    let mut c = Compiler::new(b"bb".to_vec());
    c.init();
    assert_eq!(c.parse_other(), Ok(()));
    assert_eq!(c.parse_other(), Ok(()));
    assert_eq!(c.table.lookup(&b"b".to_vec()), Some(Binding::Flag));
    assert_eq!(
        c.out,
        vec![Instr::LocalFlag(b'b'), Instr::LocalFlag(b'b')]
    );
}

#[test]
fn condition_is_an_opaque_single_character() {
    let mut c = Compiler::new(b"#".to_vec());
    c.init();
    assert_eq!(c.parse_condition(), Ok(()));
    assert_eq!(c.out, vec![Instr::CondRef(b'#')]);
}

#[test]
fn the_empty_input_is_an_unterminated_program() {
    assert_eq!(
        translate(Vec::new()),
        Err(CompileError::Expected {
            what: Expectation::Statement,
            found: None,
        })
    );
}

#[test]
fn a_blank_only_input_is_an_unterminated_program() {
    assert_eq!(
        translate(b"   ".to_vec()),
        Err(CompileError::Expected {
            what: Expectation::Statement,
            found: None,
        })
    );
}
