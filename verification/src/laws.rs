//! The architectural laws of the simulator, stated over the specification
//! functions and proved once and for all.

use vstd::prelude::*;
use crate::decode::{decode_spec, lemma_field_bounds, Instr};
use crate::machine::{branch_taken, branch_trace, step_spec, wrap_add_i32, Fault, StepV};
use crate::run::run_spec;

verus! {

/// ADDI law: a cycle that executes a valid `addi` cannot fault, writes the
/// source register's prior value plus the sign-extended immediate (with
/// fixed-width wraparound) into the destination register — unless the
/// destination is the hardwired-zero register, which reads 0 again — and
/// advances the program counter by exactly one.
pub proof fn law_addi(regs: Seq<i32>, pc: i32, len: int, w: u32, rs: u32, rt: u32, imm: i32)
    requires
        regs.len() == 32,
        0 <= pc < len,
        len <= 0x7fff_ffff,
        decode_spec(w) == (Instr::Addi { rs, rt, imm }),
    ensures
        step_spec(regs, pc, len, w) is Go,
        rt != 0 ==> step_spec(regs, pc, len, w)->Go_regs[rt as int] == wrap_add_i32(
            regs[rs as int] as int,
            imm as int,
        ),
        step_spec(regs, pc, len, w)->Go_regs[0] == 0,
        step_spec(regs, pc, len, w)->Go_pc == pc + 1,
{
    lemma_field_bounds(w);
}

/// Hardwired-zero law: whatever instruction a cycle executes — even one
/// whose destination register is 0 — register 0 reads as zero again before
/// the next fetch, and the register file keeps its 32 slots.
pub proof fn law_zero_register(regs: Seq<i32>, pc: i32, len: int, w: u32)
    requires
        regs.len() == 32,
    ensures
        step_spec(regs, pc, len, w) is Go ==> step_spec(regs, pc, len, w)->Go_regs[0] == 0,
        step_spec(regs, pc, len, w) is Go ==> step_spec(regs, pc, len, w)->Go_regs.len() == 32,
{
    lemma_field_bounds(w);
}

/// Branch law, condition false: a `beq`/`bne` whose condition does not hold
/// cannot fault and advances the program counter by exactly one; it leaves
/// the registers as they were (they already satisfied the hardwired-zero
/// invariant).
pub proof fn law_branch_not_taken(
    regs: Seq<i32>,
    pc: i32,
    len: int,
    w: u32,
    rs: u32,
    rt: u32,
    imm: i32,
    is_beq: bool,
)
    requires
        regs.len() == 32,
        0 <= pc < len,
        len <= 0x7fff_ffff,
        decode_spec(w) == (if is_beq {
            Instr::Beq { rs, rt, imm }
        } else {
            Instr::Bne { rs, rt, imm }
        }),
        !branch_taken(regs[rs as int], regs[rt as int], is_beq),
    ensures
        step_spec(regs, pc, len, w) is Go,
        step_spec(regs, pc, len, w)->Go_pc == pc + 1,
        regs[0] == 0 ==> step_spec(regs, pc, len, w)->Go_regs == regs,
{
    lemma_field_bounds(w);
    if regs[0] == 0 {
        assert(regs.update(0, 0i32) =~= regs);
    }
}

/// Branch law, condition holds: a `beq`/`bne` whose condition holds, with a
/// non-zero offset, redirects the program counter by the sign-extended
/// immediate — unless the target is negative or beyond the program length,
/// in which case the cycle faults with that target. (A taken branch whose
/// offset is 0 leaves no redirection and advances sequentially, like a
/// branch whose condition fails.)
pub proof fn law_branch_taken(
    regs: Seq<i32>,
    pc: i32,
    len: int,
    w: u32,
    rs: u32,
    rt: u32,
    imm: i32,
    is_beq: bool,
)
    requires
        regs.len() == 32,
        0 <= pc < len,
        len <= 0x7fff_ffff,
        decode_spec(w) == (if is_beq {
            Instr::Beq { rs, rt, imm }
        } else {
            Instr::Bne { rs, rt, imm }
        }),
        branch_taken(regs[rs as int], regs[rt as int], is_beq),
        imm != 0,
    ensures
        0 <= pc + imm <= len ==> step_spec(regs, pc, len, w) is Go && step_spec(
            regs,
            pc,
            len,
            w,
        )->Go_pc == pc + imm,
        pc + imm < 0 || pc + imm > len ==> step_spec(regs, pc, len, w) == (StepV::Fatal {
            fault: Fault::IllegalBranchTarget { target: ((pc + imm) as i64) },
            record: Some(branch_trace(regs, pc, w, is_beq, rs, rt, imm)),
        }),
{
    lemma_field_bounds(w);
}

/// Determinism law: the outcome of a bounded run — final registers, program
/// counter, fault and trace — is a function of the program, the starting
/// state and the step budget alone, so two runs of the same instruction
/// sequence from equal states agree in every observable way.
pub proof fn law_deterministic(
    prog1: Seq<u32>,
    prog2: Seq<u32>,
    regs1: Seq<i32>,
    regs2: Seq<i32>,
    pc1: i32,
    pc2: i32,
    fuel: nat,
)
    requires
        prog1 == prog2,
        regs1 == regs2,
        pc1 == pc2,
    ensures
        run_spec(prog1, regs1, pc1, fuel) == run_spec(prog2, regs2, pc2, fuel),
{
}

/// Hardwired-zero law over whole runs: starting from a register file whose
/// register 0 is zero, register 0 is zero again in the final register file,
/// however the run ends.
pub proof fn law_zero_register_run(prog: Seq<u32>, regs: Seq<i32>, pc: i32, fuel: nat)
    requires
        regs.len() == 32,
        regs[0] == 0,
    ensures
        run_spec(prog, regs, pc, fuel) is Halted ==> run_spec(prog, regs, pc, fuel)->Halted_regs[0]
            == 0,
        run_spec(prog, regs, pc, fuel) is Stopped ==> run_spec(
            prog,
            regs,
            pc,
            fuel,
        )->Stopped_regs[0] == 0,
    decreases fuel,
{
    if pc as int >= prog.len() || fuel == 0 {
    } else {
        let w = prog[pc as int];
        law_zero_register(regs, pc, prog.len() as int, w);
        match step_spec(regs, pc, prog.len() as int, w) {
            StepV::Fatal { .. } => {
            },
            StepV::Go { regs: regs2, pc: pc2, trace } => {
                law_zero_register_run(prog, regs2, pc2, (fuel - 1) as nat);
            },
        }
    }
}

} // verus!
