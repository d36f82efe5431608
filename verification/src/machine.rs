//! Register file, instruction handlers, execution dispatcher and the
//! single-cycle transition semantics.

use vstd::prelude::*;
use crate::decode::{decode, decode_spec, lemma_field_bounds, Instr};

verus! {

/// Number of general-purpose registers.
pub const REGISTER_COUNT: usize = 32;

/// A fatal condition raised during execution. Both kinds are terminal: the
/// run stops immediately and no further instruction is fetched.
#[derive(Clone, Copy, PartialEq, Eq, Structural, Debug)]
pub enum Fault {
    /// The decoded primary opcode has no registered handler (this includes
    /// the R-type encoding, opcode 0). Carries the offending opcode and the
    /// program counter at which it was fetched.
    UnimplementedOpcode { opcode: u32, pc: i32 },
    /// A taken branch would place the program counter outside the valid
    /// range. Carries the computed target.
    IllegalBranchTarget { target: i64 },
}

/// A structured description of one executed instruction and its
/// architectural effect; rendering it as text is the embedder's business.
#[derive(Clone, Copy, PartialEq, Eq, Structural, Debug)]
pub enum TraceRecord {
    /// An executed `addi`: `result` is the value written to register `rt`.
    Addi { pc: i32, word: u32, rs: u32, rt: u32, imm: i32, result: i32 },
    /// An executed `beq` (`beq == true`) or `bne`. `taken` says whether the
    /// branch redirects the program counter; `target` is the redirection
    /// target and is meaningful only when `taken` holds.
    Branch { pc: i32, word: u32, beq: bool, rs: u32, rt: u32, imm: i32, taken: bool, target: i64 },
}

/// The architectural state: 32 signed 32-bit registers and the program
/// counter, counted in instruction words.
pub struct Machine {
    pub registers: Vec<i32>,
    pub pc: i32,
}

/// The register file of a freshly started machine: all zeroes.
pub open spec fn init_regs() -> Seq<i32> {
    Seq::new(32, |i: int| 0i32)
}

impl Machine {
    /// Well-formedness: exactly 32 registers and a non-negative program
    /// counter.
    pub open spec fn wf(self) -> bool {
        &&& self.registers@.len() == 32
        &&& 0 <= self.pc
    }

    /// The hardwired-zero invariant: register 0 reads as 0. It holds
    /// whenever an instruction is about to be fetched.
    pub open spec fn zero_fixed(self) -> bool {
        self.registers@[0] == 0
    }

    /// A fresh machine: all registers zero, program counter 0.
    pub fn new() -> (m: Machine)
        ensures
            m.wf(),
            m.zero_fixed(),
            m.registers@ == init_regs(),
            m.pc == 0,
    {
        let mut registers: Vec<i32> = Vec::new();
        let mut i: usize = 0;
        while i < REGISTER_COUNT
            invariant
                i <= 32,
                registers@.len() == i,
                forall|j: int| 0 <= j < i ==> registers@[j] == 0i32,
            decreases 32 - i,
        {
            registers.push(0);
            i = i + 1;
        }
        proof {
            assert(registers@ =~= init_regs());
        }
        Machine { registers, pc: 0 }
    }
}

/// Two's-complement wraparound of the sum of two register values.
pub open spec fn wrap_add_i32(a: int, b: int) -> i32 {
    let s = a + b;
    if s > i32::MAX as int {
        (s - 0x1_0000_0000) as i32
    } else if s < i32::MIN as int {
        (s + 0x1_0000_0000) as i32
    } else {
        s as i32
    }
}

/// Adds two register values with fixed-width wraparound (no trap on
/// overflow).
pub fn wrapping_add_i32(a: i32, b: i32) -> (r: i32)
    ensures
        r == wrap_add_i32(a as int, b as int),
{
    let s: i64 = a as i64 + b as i64;
    if s > i32::MAX as i64 {
        (s - 0x1_0000_0000) as i32
    } else if s < i32::MIN as i64 {
        (s + 0x1_0000_0000) as i32
    } else {
        s as i32
    }
}

/// Whether a branch's condition holds: equality for `beq`, inequality for
/// `bne`.
pub open spec fn branch_taken(a: i32, b: i32, beq: bool) -> bool {
    if beq {
        a == b
    } else {
        a != b
    }
}

/// The pending redirection a branch leaves behind: the sign-extended
/// immediate when the condition holds, 0 (no redirection) otherwise.
pub open spec fn branch_jump(a: i32, b: i32, beq: bool, imm: i32) -> i32 {
    if branch_taken(a, b, beq) {
        imm
    } else {
        0
    }
}

/// The trace record a branch instruction produces. A branch whose pending
/// redirection is 0 (condition false, or a taken branch with offset 0)
/// advances sequentially and is reported as not taken.
pub open spec fn branch_trace(
    regs: Seq<i32>,
    pc: i32,
    word: u32,
    beq: bool,
    rs: u32,
    rt: u32,
    imm: i32,
) -> TraceRecord {
    let jump = branch_jump(regs[rs as int], regs[rt as int], beq, imm);
    TraceRecord::Branch {
        pc,
        word,
        beq,
        rs,
        rt,
        imm,
        taken: jump != 0,
        target: ((pc + jump) as i64),
    }
}

/// ADDI handler: `registers[rt] = registers[rs] + imm` with wraparound.
pub fn addi(rs: u32, rt: u32, imm: i32, registers: &mut Vec<i32>, pc: i32, word: u32) -> (t:
    TraceRecord)
    requires
        old(registers)@.len() == 32,
        rs < 32,
        rt < 32,
    ensures
        final(registers)@ == old(registers)@.update(
            rt as int,
            wrap_add_i32(old(registers)@[rs as int] as int, imm as int),
        ),
        t == (TraceRecord::Addi {
            pc,
            word,
            rs,
            rt,
            imm,
            result: wrap_add_i32(old(registers)@[rs as int] as int, imm as int),
        }),
{
    let v: i32 = wrapping_add_i32(registers[rs as usize], imm);
    registers[rt as usize] = v;
    TraceRecord::Addi { pc, word, rs, rt, imm, result: v }
}

/// BEQ handler: compares `registers[rs]` and `registers[rt]` for equality
/// and yields the pending redirection; no register is written.
pub fn beq(rs: u32, rt: u32, imm: i32, registers: &Vec<i32>, pc: i32, word: u32) -> (r: (
    i32,
    TraceRecord,
))
    requires
        registers@.len() == 32,
        rs < 32,
        rt < 32,
    ensures
        r.0 == branch_jump(registers@[rs as int], registers@[rt as int], true, imm),
        r.1 == branch_trace(registers@, pc, word, true, rs, rt, imm),
{
    let jump: i32 = if registers[rs as usize] == registers[rt as usize] {
        imm
    } else {
        0
    };
    let target: i64 = pc as i64 + jump as i64;
    (jump, TraceRecord::Branch { pc, word, beq: true, rs, rt, imm, taken: jump != 0, target })
}

/// BNE handler: compares `registers[rs]` and `registers[rt]` for inequality
/// and yields the pending redirection; no register is written.
pub fn bne(rs: u32, rt: u32, imm: i32, registers: &Vec<i32>, pc: i32, word: u32) -> (r: (
    i32,
    TraceRecord,
))
    requires
        registers@.len() == 32,
        rs < 32,
        rt < 32,
    ensures
        r.0 == branch_jump(registers@[rs as int], registers@[rt as int], false, imm),
        r.1 == branch_trace(registers@, pc, word, false, rs, rt, imm),
{
    let jump: i32 = if registers[rs as usize] != registers[rt as usize] {
        imm
    } else {
        0
    };
    let target: i64 = pc as i64 + jump as i64;
    (jump, TraceRecord::Branch { pc, word, beq: false, rs, rt, imm, taken: jump != 0, target })
}

/// What dispatching one decoded word does to the register file, before the
/// loop's own bookkeeping: the new register contents, the pending
/// redirection (0 means none) and the trace record — or the fatal fault.
pub enum DispatchV {
    Go { regs: Seq<i32>, jump: i32, trace: TraceRecord },
    Fatal { fault: Fault },
}

/// Dispatch semantics: `addi` writes one register; `beq`/`bne` leave the
/// registers alone and may leave a pending redirection; every other opcode
/// is a fatal unimplemented-instruction condition.
pub open spec fn dispatch_spec(regs: Seq<i32>, pc: i32, w: u32) -> DispatchV {
    match decode_spec(w) {
        Instr::Addi { rs, rt, imm } => DispatchV::Go {
            regs: regs.update(rt as int, wrap_add_i32(regs[rs as int] as int, imm as int)),
            jump: 0,
            trace: TraceRecord::Addi {
                pc,
                word: w,
                rs,
                rt,
                imm,
                result: wrap_add_i32(regs[rs as int] as int, imm as int),
            },
        },
        Instr::Beq { rs, rt, imm } => DispatchV::Go {
            regs,
            jump: branch_jump(regs[rs as int], regs[rt as int], true, imm),
            trace: branch_trace(regs, pc, w, true, rs, rt, imm),
        },
        Instr::Bne { rs, rt, imm } => DispatchV::Go {
            regs,
            jump: branch_jump(regs[rs as int], regs[rt as int], false, imm),
            trace: branch_trace(regs, pc, w, false, rs, rt, imm),
        },
        Instr::Unimplemented { opcode } => DispatchV::Fatal {
            fault: Fault::UnimplementedOpcode { opcode, pc },
        },
    }
}

/// Decodes one instruction word and dispatches it to its handler. Returns
/// the pending redirection and the trace record, or the fatal fault for an
/// opcode outside the closed table.
pub fn check_registers(instruction: u32, registers: &mut Vec<i32>, pc: i32) -> (r: Result<
    (i32, TraceRecord),
    Fault,
>)
    requires
        old(registers)@.len() == 32,
    ensures
        ({
            match dispatch_spec(old(registers)@, pc, instruction) {
                DispatchV::Go { regs, jump, trace } => r == Ok::<(i32, TraceRecord), Fault>(
                    (jump, trace),
                ) && final(registers)@ == regs,
                DispatchV::Fatal { fault } => r == Err::<(i32, TraceRecord), Fault>(fault)
                    && final(registers)@ == old(registers)@,
            }
        }),
{
    proof {
        lemma_field_bounds(instruction);
    }
    match decode(instruction) {
        Instr::Addi { rs, rt, imm } => {
            let t = addi(rs, rt, imm, registers, pc, instruction);
            Ok((0, t))
        },
        Instr::Beq { rs, rt, imm } => {
            let (jump, t) = beq(rs, rt, imm, registers, pc, instruction);
            Ok((jump, t))
        },
        Instr::Bne { rs, rt, imm } => {
            let (jump, t) = bne(rs, rt, imm, registers, pc, instruction);
            Ok((jump, t))
        },
        Instr::Unimplemented { opcode } => Err(Fault::UnimplementedOpcode { opcode, pc }),
    }
}

/// What one whole cycle does to the machine: the new register contents and
/// program counter plus the trace record, or the fatal fault. A fatal
/// illegal branch still carries the branch's own trace record (the handler
/// completed; only resolution failed); an unimplemented opcode carries none.
pub enum StepV {
    Go { regs: Seq<i32>, pc: i32, trace: TraceRecord },
    Fatal { fault: Fault, record: Option<TraceRecord> },
}

/// Like [`StepV`], at the executable level: the machine itself is mutated in
/// place, so only the trace record (and, on a fault, the fault) is yielded.
#[derive(Clone, Copy, PartialEq, Eq, Structural, Debug)]
pub enum StepOutcome {
    Go { trace: TraceRecord },
    Fatal { fault: Fault, record: Option<TraceRecord> },
}

/// Branch resolution, performed by the loop after dispatch: register 0 is
/// reset to zero unconditionally, then the pending redirection is consumed.
/// A non-zero redirection moves the program counter by that offset; a
/// target that is negative or strictly greater than the program length is a
/// fatal illegal-branch condition (landing exactly one past the end is
/// permitted and terminates the run normally at the next fetch). Without a
/// redirection the program counter advances by one.
pub open spec fn resolve_spec(
    regs: Seq<i32>,
    pc: i32,
    len: int,
    jump: i32,
    trace: TraceRecord,
) -> StepV {
    let regs0 = regs.update(0, 0i32);
    if jump != 0 {
        let target = pc + jump;
        if target < 0 || target > len {
            StepV::Fatal {
                fault: Fault::IllegalBranchTarget { target: (target as i64) },
                record: Some(trace),
            }
        } else {
            StepV::Go { regs: regs0, pc: (target as i32), trace }
        }
    } else {
        StepV::Go { regs: regs0, pc: ((pc + 1) as i32), trace }
    }
}

/// One full fetch-decode-execute cycle on a program of `len` words whose
/// word at the current program counter is `w`.
pub open spec fn step_spec(regs: Seq<i32>, pc: i32, len: int, w: u32) -> StepV {
    match dispatch_spec(regs, pc, w) {
        DispatchV::Go { regs: regs1, jump, trace } => resolve_spec(regs1, pc, len, jump, trace),
        DispatchV::Fatal { fault } => StepV::Fatal { fault, record: None },
    }
}

/// Executes one cycle: dispatch, zero-register enforcement, branch
/// resolution. On success the machine is exactly the state `step_spec`
/// describes; on a fault the run must stop and the machine is not to be
/// consulted further.
pub fn step(m: &mut Machine, program_len: usize, w: u32) -> (r: StepOutcome)
    requires
        old(m).wf(),
        program_len <= 0x7fff_ffff,
        (old(m).pc as int) < program_len as int,
    ensures
        ({
            match step_spec(old(m).registers@, old(m).pc, program_len as int, w) {
                StepV::Go { regs, pc, trace } => r == (StepOutcome::Go { trace })
                    && final(m).registers@ == regs && final(m).pc == pc && final(m).wf()
                    && final(m).zero_fixed(),
                StepV::Fatal { fault, record } => r == (StepOutcome::Fatal { fault, record }),
            }
        }),
{
    let pc0: i32 = m.pc;
    match check_registers(w, &mut m.registers, pc0) {
        Err(fault) => StepOutcome::Fatal { fault, record: None },
        Ok((jump, trace)) => {
            proof {
                lemma_field_bounds(w);
                assert(dispatch_spec(old(m).registers@, pc0, w) is Go);
                assert(m.registers@ == dispatch_spec(old(m).registers@, pc0, w)->Go_regs);
                match decode_spec(w) {
                    Instr::Addi { rs, rt, imm } => {
                        assert(m.registers@ == old(m).registers@.update(
                            rt as int,
                            wrap_add_i32(old(m).registers@[rs as int] as int, imm as int),
                        ));
                    },
                    _ => {
                        assert(m.registers@ == old(m).registers@);
                    },
                }
                assert(m.registers@.len() == 32);
            }
            // Enforce the hardwired-zero invariant before the next fetch.
            m.registers[0] = 0;
            if jump != 0 {
                let target: i64 = pc0 as i64 + jump as i64;
                if target < 0 || target > program_len as i64 {
                    StepOutcome::Fatal {
                        fault: Fault::IllegalBranchTarget { target },
                        record: Some(trace),
                    }
                } else {
                    m.pc = target as i32;
                    StepOutcome::Go { trace }
                }
            } else {
                m.pc = pc0 + 1;
                StepOutcome::Go { trace }
            }
        },
    }
}

} // verus!
