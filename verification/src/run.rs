//! The fetch-decode-execute loop: a bounded run over a loaded program, with
//! its full semantics written down as a recursive specification function.

use vstd::prelude::*;
use crate::machine::{init_regs, step, step_spec, Fault, Machine, StepOutcome, StepV, TraceRecord};

verus! {

/// What a bounded run yields, at the specification level: the machine halts
/// normally (the program counter reached the program length), stops fatally,
/// or runs out of its step budget while still running. Every variant carries
/// the trace records of the instructions that completed.
pub enum RunV {
    Halted { regs: Seq<i32>, pc: i32, trace: Seq<TraceRecord> },
    Fatal { fault: Fault, trace: Seq<TraceRecord> },
    Stopped { regs: Seq<i32>, pc: i32, trace: Seq<TraceRecord> },
}

/// The given record, prepended to the trace of a run outcome.
pub open spec fn with_first_trace(tr: TraceRecord, v: RunV) -> RunV {
    match v {
        RunV::Halted { regs, pc, trace } => RunV::Halted { regs, pc, trace: seq![tr] + trace },
        RunV::Fatal { fault, trace } => RunV::Fatal { fault, trace: seq![tr] + trace },
        RunV::Stopped { regs, pc, trace } => RunV::Stopped { regs, pc, trace: seq![tr] + trace },
    }
}

/// A whole sequence of records, prepended to the trace of a run outcome.
pub open spec fn with_trace_prefix(prefix: Seq<TraceRecord>, v: RunV) -> RunV {
    match v {
        RunV::Halted { regs, pc, trace } => RunV::Halted { regs, pc, trace: prefix + trace },
        RunV::Fatal { fault, trace } => RunV::Fatal { fault, trace: prefix + trace },
        RunV::Stopped { regs, pc, trace } => RunV::Stopped { regs, pc, trace: prefix + trace },
    }
}

pub proof fn lemma_trace_prefix_nil(v: RunV)
    ensures
        with_trace_prefix(Seq::<TraceRecord>::empty(), v) == v,
{
    match v {
        RunV::Halted { regs, pc, trace } => {
            assert(Seq::<TraceRecord>::empty() + trace =~= trace);
        },
        RunV::Fatal { fault, trace } => {
            assert(Seq::<TraceRecord>::empty() + trace =~= trace);
        },
        RunV::Stopped { regs, pc, trace } => {
            assert(Seq::<TraceRecord>::empty() + trace =~= trace);
        },
    }
}

pub proof fn lemma_trace_prefix_push(prefix: Seq<TraceRecord>, tr: TraceRecord, v: RunV)
    ensures
        with_trace_prefix(prefix, with_first_trace(tr, v)) == with_trace_prefix(
            prefix.push(tr),
            v,
        ),
{
    match v {
        RunV::Halted { regs, pc, trace } => {
            assert(prefix + (seq![tr] + trace) =~= prefix.push(tr) + trace);
        },
        RunV::Fatal { fault, trace } => {
            assert(prefix + (seq![tr] + trace) =~= prefix.push(tr) + trace);
        },
        RunV::Stopped { regs, pc, trace } => {
            assert(prefix + (seq![tr] + trace) =~= prefix.push(tr) + trace);
        },
    }
}

/// The trace records of a fatal cycle: the faulting instruction's own
/// record where its handler completed (an illegal branch), nothing where it
/// never ran (an unimplemented opcode).
pub open spec fn fatal_trace(tr: Option<TraceRecord>) -> Seq<TraceRecord> {
    match tr {
        Option::Some(t) => seq![t],
        Option::None => Seq::<TraceRecord>::empty(),
    }
}

/// The run semantics: starting from the given registers and program counter,
/// execute cycles of `step_spec` until the program counter reaches the
/// program length (normal halt), a cycle faults, or the step budget runs
/// out.
pub open spec fn run_spec(prog: Seq<u32>, regs: Seq<i32>, pc: i32, fuel: nat) -> RunV
    decreases fuel,
{
    if pc as int >= prog.len() {
        RunV::Halted { regs, pc, trace: Seq::<TraceRecord>::empty() }
    } else if fuel == 0 {
        RunV::Stopped { regs, pc, trace: Seq::<TraceRecord>::empty() }
    } else {
        match step_spec(regs, pc, prog.len() as int, prog[pc as int]) {
            StepV::Fatal { fault, record } => RunV::Fatal { fault, trace: fatal_trace(record) },
            StepV::Go { regs: regs2, pc: pc2, trace } => with_first_trace(
                trace,
                run_spec(prog, regs2, pc2, (fuel - 1) as nat),
            ),
        }
    }
}

/// What a bounded run yields, at the executable level. When trace mode is
/// off the trace vector is left empty; the architectural outcome does not
/// depend on trace mode.
pub enum RunOutcome {
    Halted { machine: Machine, trace: Vec<TraceRecord> },
    Fatal { fault: Fault, trace: Vec<TraceRecord> },
    Stopped { machine: Machine, trace: Vec<TraceRecord> },
}

/// The trace an execution keeps: everything in trace mode, nothing
/// otherwise.
pub open spec fn kept_trace(t: Seq<TraceRecord>, trace_mode: bool) -> Seq<TraceRecord> {
    if trace_mode {
        t
    } else {
        Seq::<TraceRecord>::empty()
    }
}

/// The executable outcome agrees with the specification-level one: same
/// variant, same registers, program counter and fault, and the trace kept
/// according to the trace mode.
pub open spec fn outcome_matches(o: RunOutcome, v: RunV, trace_mode: bool) -> bool {
    match o {
        RunOutcome::Halted { machine, trace } => {
            &&& v is Halted
            &&& machine.registers@ == v->Halted_regs
            &&& machine.pc == v->Halted_pc
            &&& trace@ == kept_trace(v->Halted_trace, trace_mode)
        },
        RunOutcome::Fatal { fault, trace } => {
            &&& v is Fatal
            &&& fault == v->Fatal_fault
            &&& trace@ == kept_trace(v->Fatal_trace, trace_mode)
        },
        RunOutcome::Stopped { machine, trace } => {
            &&& v is Stopped
            &&& machine.registers@ == v->Stopped_regs
            &&& machine.pc == v->Stopped_pc
            &&& trace@ == kept_trace(v->Stopped_trace, trace_mode)
        },
    }
}

/// Simulates the execution of the instruction words against a fresh
/// machine, for at most `max_steps` cycles. The outcome is exactly what
/// `run_spec` describes for the same program and budget — in particular it
/// is a function of the program and the budget alone, so two runs of the
/// same program from a fresh register file agree in every observable way.
pub fn execute_instructions(instructions: &Vec<u32>, trace_mode: bool, max_steps: u64) -> (r:
    RunOutcome)
    requires
        instructions@.len() <= 0x7fff_ffff,
    ensures
        outcome_matches(r, run_spec(instructions@, init_regs(), 0, max_steps as nat), trace_mode),
{
    let ghost full: RunV = run_spec(instructions@, init_regs(), 0, max_steps as nat);
    let mut m = Machine::new();
    let mut trace: Vec<TraceRecord> = Vec::new();
    let ghost mut all_trace: Seq<TraceRecord> = Seq::<TraceRecord>::empty();
    let mut fuel: u64 = max_steps;
    proof {
        lemma_trace_prefix_nil(run_spec(instructions@, m.registers@, m.pc, fuel as nat));
    }
    while fuel > 0 && m.pc < (instructions.len() as i32)
        invariant
            m.wf(),
            instructions@.len() <= 0x7fff_ffff,
            full == run_spec(instructions@, init_regs(), 0, max_steps as nat),
            trace@ == kept_trace(all_trace, trace_mode),
            with_trace_prefix(all_trace, run_spec(instructions@, m.registers@, m.pc, fuel as nat))
                == full,
        decreases fuel,
    {
        let ghost pre_regs = m.registers@;
        let ghost pre_pc = m.pc;
        let ghost pre_fuel = fuel as nat;
        let w: u32 = instructions[m.pc as usize];
        match step(&mut m, instructions.len(), w) {
            StepOutcome::Go { trace: tr } => {
                proof {
                    assert(run_spec(instructions@, pre_regs, pre_pc, pre_fuel)
                        == with_first_trace(
                        tr,
                        run_spec(instructions@, m.registers@, m.pc, (pre_fuel - 1) as nat),
                    ));
                    lemma_trace_prefix_push(
                        all_trace,
                        tr,
                        run_spec(instructions@, m.registers@, m.pc, (pre_fuel - 1) as nat),
                    );
                    all_trace = all_trace.push(tr);
                }
                if trace_mode {
                    trace.push(tr);
                }
                fuel = fuel - 1;
            },
            StepOutcome::Fatal { fault, record: fatal_tr } => {
                proof {
                    assert(run_spec(instructions@, pre_regs, pre_pc, pre_fuel) == (RunV::Fatal {
                        fault,
                        trace: fatal_trace(fatal_tr),
                    }));
                    assert(full == (RunV::Fatal { fault, trace: all_trace + fatal_trace(fatal_tr) }));
                }
                match fatal_tr {
                    Some(tr) => {
                        proof {
                            assert(all_trace + fatal_trace(fatal_tr) =~= all_trace.push(tr));
                        }
                        if trace_mode {
                            trace.push(tr);
                        }
                    },
                    None => {
                        proof {
                            assert(all_trace + fatal_trace(fatal_tr) =~= all_trace);
                        }
                    },
                }
                return RunOutcome::Fatal { fault, trace };
            },
        }
    }
    proof {
        assert(all_trace + Seq::<TraceRecord>::empty() =~= all_trace);
    }
    if m.pc >= (instructions.len() as i32) {
        RunOutcome::Halted { machine: m, trace }
    } else {
        RunOutcome::Stopped { machine: m, trace }
    }
}

} // verus!
