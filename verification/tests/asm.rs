use bytecode_vm::assemble::assemble;
use bytecode_vm::instr::AsmError;
use bytecode_vm::machine::{run_machine, VmError};
use bytecode_vm::operand::Operand;

#[test]
fn malformed_line_aborts_assembly() {
    let r = run_machine("ADD extra token");
    match r {
        Err(VmError::Assembly(e)) => {
            let msg = e.message();
            assert!(msg.contains("ADD extra token"));
            assert_eq!(msg, "Unexpected bytecode line: ADD extra token");
        },
        other => panic!("expected an assembly error, got {:?}", other),
    }
}

#[test]
fn malformed_line_executes_nothing() {
    // The print before the malformed line must not run: assembly aborts
    // before any instruction executes.
    let r = run_machine("LOAD_VAL 7\nPRINT 'x'\nADD extra token");
    match r {
        Err(VmError::Assembly(AsmError::BadLine(line))) => assert_eq!(line, "ADD extra token"),
        other => panic!("expected a bad-line error, got {:?}", other),
    }
}

#[test]
fn unknown_instruction_is_rejected() {
    let r = run_machine("FROBNICATE");
    match r {
        Err(VmError::Assembly(AsmError::UnknownInstruction(name))) => {
            assert_eq!(name, "FROBNICATE")
        },
        other => panic!("expected an unknown-instruction error, got {:?}", other),
    }
}

#[test]
fn wrong_arity_is_rejected() {
    let r = run_machine("ADD 1");
    assert!(matches!(r, Err(VmError::Assembly(AsmError::WrongArity(_)))));
    let r = run_machine("JUMP");
    assert!(matches!(r, Err(VmError::Assembly(AsmError::WrongArity(_)))));
}

#[test]
fn assembling_twice_is_idempotent() {
    let text = "
            LOAD_VAL 0
            WRITE_VAR 'x'
            LABEL :top
            READ_VAR 'x'
            LOAD_VAL 3
            CMP_LT
            POP_JUMP_IF_FALSE :done
            READ_VAR 'x'
            LOAD_VAL 1
            ADD
            WRITE_VAR 'x'
            JUMP :top
            LABEL :done
            RETURN_VALUE
        ";
    let p1 = assemble(text).unwrap();
    let p2 = assemble(text).unwrap();
    assert_eq!(p1, p2);

    let r1 = run_machine(text).unwrap();
    let r2 = run_machine(text).unwrap();
    assert_eq!(r1, r2);
}

#[test]
fn integer_literals_accept_signs_and_leading_zeros() {
    let out = run_machine("LOAD_VAL +5\nRETURN_VALUE").unwrap();
    assert_eq!(out.value.unwrap(), "5");
    let out = run_machine("LOAD_VAL 007\nRETURN_VALUE").unwrap();
    assert_eq!(out.value.unwrap(), "7");
}

#[test]
fn out_of_range_literal_becomes_text() {
    // A run of digits too large for a 64-bit integer is kept as text.
    let out = run_machine("LOAD_VAL 99999999999999999999\nRETURN_VALUE").unwrap();
    assert_eq!(out.value.unwrap(), "99999999999999999999");
}

#[test]
fn quotes_strip_a_single_pair() {
    // Only one pair of surrounding quotes is removed.
    let out = run_machine("LOAD_VAL 'hi'\nRETURN_VALUE").unwrap();
    assert_eq!(out.value.unwrap(), "hi");
    let out = run_machine("LOAD_VAL ''hi''\nRETURN_VALUE").unwrap();
    assert_eq!(out.value.unwrap(), "'hi'");
    let out = run_machine("LOAD_VAL bare\nRETURN_VALUE").unwrap();
    assert_eq!(out.value.unwrap(), "bare");
}

#[test]
fn later_label_definition_wins() {
    // Two LABEL lines with one name: the jump takes the later position.
    let out = run_machine(
        "LABEL :x\nJUMP :x\nLABEL :x\nPUSH 'done'\nRETURN_VALUE",
    )
    .unwrap();
    assert_eq!(out.value.unwrap(), "done");
}

#[test]
fn operand_projections_match_kinds() {
    let i = Operand::I(42);
    let s = Operand::S("hello".to_string());
    let b = Operand::B(true);

    assert_eq!(i.to_i(), Some(42));
    assert_eq!(i.to_s(), None);
    assert_eq!(i.to_bool(), None);

    assert_eq!(s.to_s(), Some("hello"));
    assert_eq!(s.to_i(), None);
    assert_eq!(s.to_bool(), None);

    assert_eq!(b.to_bool(), Some(true));
    assert_eq!(b.to_i(), None);
    assert_eq!(b.to_s(), None);
}

#[test]
fn operand_from_conversions() {
    assert_eq!(Operand::from(7i64), Operand::I(7));
    assert_eq!(Operand::from(true), Operand::B(true));
    assert_eq!(Operand::from(false), Operand::B(false));
}

#[test]
fn operand_display_text_renders_all_kinds() {
    assert_eq!(Operand::I(0).display_text(), "0");
    assert_eq!(Operand::I(-5).display_text(), "-5");
    assert_eq!(Operand::I(i64::MIN).display_text(), "-9223372036854775808");
    assert_eq!(Operand::I(i64::MAX).display_text(), "9223372036854775807");
    assert_eq!(Operand::S("abc".to_string()).display_text(), "abc");
    assert_eq!(Operand::B(true).display_text(), "true");
    assert_eq!(Operand::B(false).display_text(), "false");
}
