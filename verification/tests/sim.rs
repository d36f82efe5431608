use mips_sim::decode::{decode, decode_fields, Instr};
use mips_sim::machine::{addi, check_registers, wrapping_add_i32, Fault, TraceRecord};
use mips_sim::run::{execute_instructions, RunOutcome};

#[test]
fn decode_addi_word() {
    assert_eq!(decode(0x2001_0005), Instr::Addi { rs: 0, rt: 1, imm: 5 });
}

#[test]
fn decode_negative_immediate() {
    assert_eq!(decode(0x1021_ffff), Instr::Beq { rs: 1, rt: 1, imm: -1 });
}

#[test]
fn decode_bne_word() {
    assert_eq!(decode(0x1400_0005), Instr::Bne { rs: 0, rt: 0, imm: 5 });
}

#[test]
fn decode_zero_word_is_unimplemented() {
    assert_eq!(decode(0x0000_0000), Instr::Unimplemented { opcode: 0 });
}

#[test]
fn decode_fields_extracts_all_positions() {
    // opcode 8, rs 2, rt 3, rd 4, imm 0x2001 (rd is part of the immediate)
    let w: u32 = (8 << 26) | (2 << 21) | (3 << 16) | 0x2001;
    let f = decode_fields(w);
    assert_eq!(f.opcode, 8);
    assert_eq!(f.rs, 2);
    assert_eq!(f.rt, 3);
    assert_eq!(f.rd, 4);
    assert_eq!(f.imm, 0x2001);
    assert_eq!(f.funct, 1);
}

#[test]
fn wrapping_add_wraps_both_ways() {
    assert_eq!(wrapping_add_i32(i32::MAX, 1), i32::MIN);
    assert_eq!(wrapping_add_i32(i32::MIN, -1), i32::MAX);
    assert_eq!(wrapping_add_i32(-5, 3), -2);
}

#[test]
fn zero_word_faults_before_any_trace() {
    let out = execute_instructions(&vec![0x0000_0000], true, 10);
    match out {
        RunOutcome::Fatal { fault, trace } => {
            assert_eq!(fault, Fault::UnimplementedOpcode { opcode: 0, pc: 0 });
            assert!(trace.is_empty());
        }
        _ => panic!("expected a fatal outcome"),
    }
}

#[test]
fn addi_writes_register_and_halts() {
    let out = execute_instructions(&vec![0x2001_0005], true, 10);
    match out {
        RunOutcome::Halted { machine, trace } => {
            assert_eq!(machine.registers[1], 5);
            assert_eq!(machine.pc, 1);
            assert_eq!(
                trace,
                vec![TraceRecord::Addi { pc: 0, word: 0x2001_0005, rs: 0, rt: 1, imm: 5, result: 5 }]
            );
        }
        _ => panic!("expected a normal halt"),
    }
}

#[test]
fn self_branch_loops_back_to_zero() {
    // addi $1, $0, 1 then beq $1, $1, -1: an infinite self-branch.
    let prog = vec![0x2001_0001, 0x1021_ffff];
    let out = execute_instructions(&prog, false, 2);
    match out {
        RunOutcome::Stopped { machine, trace } => {
            assert_eq!(machine.pc, 0);
            assert_eq!(machine.registers[1], 1);
            assert!(trace.is_empty());
        }
        _ => panic!("expected the budget to run out"),
    }
    // A larger budget still never halts or faults.
    match execute_instructions(&prog, false, 101) {
        RunOutcome::Stopped { .. } => {}
        _ => panic!("expected the budget to run out"),
    }
}

#[test]
fn branch_to_negative_target_faults() {
    // beq $0, $0, -5 at pc 0: taken, target -5.
    let w: u32 = 0x1000_fffb;
    let out = execute_instructions(&vec![w], true, 10);
    match out {
        RunOutcome::Fatal { fault, trace } => {
            assert_eq!(fault, Fault::IllegalBranchTarget { target: -5 });
            // The branch itself executed, so its trace record is kept.
            assert_eq!(
                trace,
                vec![TraceRecord::Branch {
                    pc: 0,
                    word: w,
                    beq: true,
                    rs: 0,
                    rt: 0,
                    imm: -5,
                    taken: true,
                    target: -5,
                }]
            );
        }
        _ => panic!("expected a fatal outcome"),
    }
}

#[test]
fn branch_past_end_faults() {
    // beq $0, $0, 2 in a one-word program: target 2 > length 1.
    let out = execute_instructions(&vec![0x1000_0002], false, 10);
    match out {
        RunOutcome::Fatal { fault, .. } => {
            assert_eq!(fault, Fault::IllegalBranchTarget { target: 2 });
        }
        _ => panic!("expected a fatal outcome"),
    }
}

#[test]
fn branch_to_exact_end_halts_normally() {
    // beq $0, $0, 2 in a two-word program: target 2 == length, permitted.
    let prog = vec![0x1000_0002, 0x2001_0005];
    match execute_instructions(&prog, false, 10) {
        RunOutcome::Halted { machine, .. } => {
            assert_eq!(machine.pc, 2);
            // The skipped addi never ran.
            assert_eq!(machine.registers[1], 0);
        }
        _ => panic!("expected a normal halt"),
    }
}

#[test]
fn branch_not_taken_advances_by_one() {
    // bne $0, $0, 5: condition false, fall through and halt at pc 2.
    let prog = vec![0x1400_0005, 0x2001_0001];
    match execute_instructions(&prog, true, 10) {
        RunOutcome::Halted { machine, trace } => {
            assert_eq!(machine.pc, 2);
            assert_eq!(machine.registers[1], 1);
            assert_eq!(
                trace[0],
                TraceRecord::Branch {
                    pc: 0,
                    word: 0x1400_0005,
                    beq: false,
                    rs: 0,
                    rt: 0,
                    imm: 5,
                    taken: false,
                    target: 0,
                }
            );
        }
        _ => panic!("expected a normal halt"),
    }
}

#[test]
fn empty_program_halts_immediately() {
    let out = execute_instructions(&Vec::new(), true, 10);
    match out {
        RunOutcome::Halted { machine, trace } => {
            assert_eq!(machine.pc, 0);
            assert!(trace.is_empty());
            assert_eq!(machine.registers, vec![0i32; 32]);
        }
        _ => panic!("expected a normal halt"),
    }
}

#[test]
fn write_to_register_zero_is_reset() {
    // addi $0, $0, 7: the write is transient; register 0 reads 0 again.
    let out = execute_instructions(&vec![0x2000_0007], true, 10);
    match out {
        RunOutcome::Halted { machine, trace } => {
            assert_eq!(machine.registers[0], 0);
            // The handler's own trace still shows the transient value.
            assert_eq!(
                trace,
                vec![TraceRecord::Addi { pc: 0, word: 0x2000_0007, rs: 0, rt: 0, imm: 7, result: 7 }]
            );
        }
        _ => panic!("expected a normal halt"),
    }
}

#[test]
fn two_runs_agree_exactly() {
    // addi $1,$0,5; addi $1,$1,7; bne $1,$1,-2 (never taken).
    let prog = vec![0x2001_0005, 0x2021_0007, 0x1421_fffe];
    let first = execute_instructions(&prog, true, 100);
    let second = execute_instructions(&prog, true, 100);
    match (first, second) {
        (
            RunOutcome::Halted { machine: m1, trace: t1 },
            RunOutcome::Halted { machine: m2, trace: t2 },
        ) => {
            assert_eq!(m1.registers, m2.registers);
            assert_eq!(m1.pc, m2.pc);
            assert_eq!(t1, t2);
            assert_eq!(m1.registers[1], 12);
        }
        _ => panic!("expected two normal halts"),
    }
}

#[test]
fn trace_mode_off_keeps_no_records() {
    let out = execute_instructions(&vec![0x2001_0005], false, 10);
    match out {
        RunOutcome::Halted { machine, trace } => {
            assert!(trace.is_empty());
            assert_eq!(machine.registers[1], 5);
        }
        _ => panic!("expected a normal halt"),
    }
}

#[test]
fn check_registers_rejects_unknown_opcode() {
    let mut registers = vec![0i32; 32];
    // opcode 63: not in the closed table.
    let r = check_registers(0xfc00_0000, &mut registers, 4);
    assert_eq!(r, Err(Fault::UnimplementedOpcode { opcode: 63, pc: 4 }));
}

#[test]
fn addi_handler_wraps_on_overflow() {
    let mut registers = vec![0i32; 32];
    registers[2] = i32::MAX;
    // addi $3, $2, 1
    let w: u32 = (8 << 26) | (2 << 21) | (3 << 16) | 1;
    let t = addi(2, 3, 1, &mut registers, 0, w);
    assert_eq!(registers[3], i32::MIN);
    assert_eq!(
        t,
        TraceRecord::Addi { pc: 0, word: w, rs: 2, rt: 3, imm: 1, result: i32::MIN }
    );
}
