use bytecode_vm::instr::ExecFault;
use bytecode_vm::machine::{run_machine, Effect, VmError};

#[test]
fn test_bytecode1() {
    let byte_code = "
            LOAD_VAL 1
            WRITE_VAR 'x'

            LOAD_VAL 2
            WRITE_VAR 'y'

            READ_VAR 'x'
            LOAD_VAL 1
            ADD

            READ_VAR 'y'
            MULTIPLY

            RETURN_VALUE
        ";

    let result = run_machine(byte_code);
    assert_eq!(result.unwrap().value.unwrap(), "4");
}

#[test]
fn test_bytecode2() {
    let byte_code = "
            LOAD_VAL 2
            WRITE_VAR 'x'

            LOAD_VAL 8
            WRITE_VAR 'y'

            READ_VAR 'x'
            LOAD_VAL 1
            ADD

            READ_VAR 'y'
            MULTIPLY

            READ_VAR 'y'
            MULTIPLY

            RETURN_VALUE
            ";

    let result = run_machine(byte_code);
    assert_eq!(result.unwrap().value.unwrap(), "192");
}

#[test]
fn test_loop() {
    // x = 0
    // while x < 3 {
    //   print x
    //   x = x + 1
    // }
    let byte_code = "
            LOAD_VAL 0
            WRITE_VAR 'x'

            LABEL :loop1start
            READ_VAR 'x'
            LOAD_VAL 3
            CMP_LT
            POP_JUMP_IF_FALSE :loop1end

            READ_VAR 'x'
            PRINT 'x'

            READ_VAR 'x'
            LOAD_VAL 1
            ADD
            WRITE_VAR 'x'

            JUMP :loop1start

            LABEL :loop1end
            READ_VAR 'x'
            RETURN_VALUE
        ";
    let result = run_machine(byte_code);
    assert_eq!(result.unwrap().value.unwrap(), "3");
}

#[test]
fn test_send_channel() {
    let byte_code = "
            PUSH 'val'
            PUSH 'channel_name'
            SEND_CHANNEL
            ";

    run_machine(byte_code).unwrap();
}

#[test]
fn test_recv_channel() {
    let byte_code = "
            PUSH 'channel_name'
            RECV_CHANNEL
            RETURN_VALUE
            ";

    let result = run_machine(byte_code);
    assert_eq!(result.unwrap().value.unwrap(), "recv_channel_value");
}

#[test]
fn test_spawn() {
    let byte_code = "
            PUSH 'channel_recv'
            PUSH 'channel_send'
            SPAWN
            ";

    let out = run_machine(byte_code).unwrap();
    assert!(out.value.is_none());
    assert!(out.effects.iter().any(|e| matches!(e, Effect::SpawnTasks)));
}

#[test]
fn loop_prints_in_order() {
    let byte_code = "
            LOAD_VAL 0
            WRITE_VAR 'x'
            LABEL :top
            READ_VAR 'x'
            LOAD_VAL 3
            CMP_LT
            POP_JUMP_IF_FALSE :done
            READ_VAR 'x'
            PRINT 'x'
            READ_VAR 'x'
            LOAD_VAL 1
            ADD
            WRITE_VAR 'x'
            JUMP :top
            LABEL :done
            READ_VAR 'x'
            RETURN_VALUE
        ";
    let out = run_machine(byte_code).unwrap();
    let prints: Vec<String> = out
        .effects
        .iter()
        .filter_map(|e| match e {
            Effect::Print(s) => Some(s.clone()),
            _ => None,
        })
        .collect();
    assert_eq!(prints, vec!["0".to_string(), "1".to_string(), "2".to_string()]);
    assert_eq!(out.value.unwrap(), "3");
}

#[test]
fn recv_channel_ignores_channel_name() {
    let a = run_machine("PUSH 'alpha'\nRECV_CHANNEL\nRETURN_VALUE").unwrap();
    let b = run_machine("PUSH 'beta'\nRECV_CHANNEL\nRETURN_VALUE").unwrap();
    assert_eq!(a.value.unwrap(), "recv_channel_value");
    assert_eq!(b.value.unwrap(), "recv_channel_value");
}

#[test]
fn send_channel_logs_diagnostic() {
    let out = run_machine("PUSH 'val'\nPUSH 'channel_name'\nSEND_CHANNEL").unwrap();
    let logs: Vec<String> = out
        .effects
        .iter()
        .filter_map(|e| match e {
            Effect::Log(s) => Some(s.clone()),
            _ => None,
        })
        .collect();
    assert_eq!(logs, vec!["SEND (ch=channel_name, val=val)".to_string()]);
}

#[test]
fn unbound_variable_faults() {
    let r = run_machine("READ_VAR 'x'\nRETURN_VALUE");
    match r {
        Err(VmError::Exec(ExecFault::UnboundVariable(name))) => assert_eq!(name, "x"),
        other => panic!("expected an unbound-variable fault, got {:?}", other),
    }
}

#[test]
fn binary_op_underflow_faults() {
    let r = run_machine("LOAD_VAL 1\nADD");
    assert!(matches!(r, Err(VmError::Exec(ExecFault::StackUnderflow))));
    let r = run_machine("MULTIPLY");
    assert!(matches!(r, Err(VmError::Exec(ExecFault::StackUnderflow))));
    let r = run_machine("CMP_LT");
    assert!(matches!(r, Err(VmError::Exec(ExecFault::StackUnderflow))));
}

#[test]
fn kind_mismatch_faults() {
    let r = run_machine("LOAD_VAL 'a'\nLOAD_VAL 1\nADD");
    assert!(matches!(r, Err(VmError::Exec(ExecFault::KindMismatch))));
    let r = run_machine("WRITE_VAR 'x'\nRETURN_VALUE");
    assert!(matches!(r, Err(VmError::Exec(ExecFault::StackUnderflow))));
    let r = run_machine("LOAD_VAL 1\nWRITE_VAR 2");
    assert!(matches!(r, Err(VmError::Exec(ExecFault::KindMismatch))));
}

#[test]
fn unresolved_label_faults_at_jump_time() {
    let r = run_machine("JUMP :nowhere");
    match r {
        Err(VmError::Exec(ExecFault::UnresolvedLabel(name))) => assert_eq!(name, ":nowhere"),
        other => panic!("expected an unresolved-label fault, got {:?}", other),
    }
    // The same reference stands in dead code: assembly accepts it, and the
    // run halts without ever reaching the jump.
    let r = run_machine("RETURN_VALUE\nJUMP :nowhere");
    assert!(r.unwrap().value.is_none());
}

#[test]
fn addition_overflow_faults() {
    let r = run_machine("LOAD_VAL 9223372036854775807\nLOAD_VAL 1\nADD");
    assert!(matches!(r, Err(VmError::Exec(ExecFault::ArithmeticOverflow))));
    let r = run_machine("LOAD_VAL 9223372036854775807\nLOAD_VAL 2\nMULTIPLY");
    assert!(matches!(r, Err(VmError::Exec(ExecFault::ArithmeticOverflow))));
}

#[test]
fn empty_program_reports_no_value() {
    let out = run_machine("").unwrap();
    assert!(out.value.is_none());
    assert!(out.effects.is_empty());

    let out = run_machine("\n   \n\t\n").unwrap();
    assert!(out.value.is_none());
}

#[test]
fn cmp_lt_renders_booleans() {
    let out = run_machine("LOAD_VAL 1\nLOAD_VAL 2\nCMP_LT\nRETURN_VALUE").unwrap();
    assert_eq!(out.value.unwrap(), "true");
    let out = run_machine("LOAD_VAL 2\nLOAD_VAL 1\nCMP_LT\nRETURN_VALUE").unwrap();
    assert_eq!(out.value.unwrap(), "false");
}

#[test]
fn negative_values_render_with_sign() {
    let out = run_machine("LOAD_VAL -5\nRETURN_VALUE").unwrap();
    assert_eq!(out.value.unwrap(), "-5");
    let out = run_machine("LOAD_VAL -9223372036854775808\nRETURN_VALUE").unwrap();
    assert_eq!(out.value.unwrap(), "-9223372036854775808");
}
