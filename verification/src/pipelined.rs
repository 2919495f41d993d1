//! Five-stage pipelined datapath with forwarding, load-use interlock,
//! branch resolution and a two-bit branch predictor.

use vstd::prelude::*;

use crate::branch_predictor::BranchPredictor;
use crate::branch_predictor::PredictorHeuristic;
use crate::cpu::CPUHistory;
use crate::cpu::CPUState;
use crate::error::ExecutionError;
use crate::error::SimulatorError;
use crate::error::SimulatorResult;
use crate::inclusive::InclusiveCache;
use crate::instruction::Instruction;
use crate::instruction::NOP;
use crate::instruction::Opcode;
use crate::machine;
use crate::machine::PipeCore;
use crate::machine::PipeRun;
use crate::machine::PipeVerdict;
use crate::pipeline::PipelineState;
use crate::single_cycle::counters_bounded;
use crate::single_cycle::counters_small;
use crate::single_cycle::lemma_counters_headroom;
use crate::single_cycle::lemma_counters_step;
use crate::stages;
use crate::system_call::SyscallIO;

verus! {

/// One cycle's front half: the overflow and hazard tests, then IF, ID,
/// EX, MEM and WB.  On success the specification machine's verdict for
/// this cycle is the resolution of the latches just written; on an error
/// the machine fails on this cycle.
#[verifier::rlimit(100)]
fn cycle_front(
    cpu: &mut CPUState,
    mem: &mut InclusiveCache,
    io: &mut SyscallIO,
    current_state: &PipelineState,
    next_state: &mut PipelineState,
    lv: Ghost<Seq<int>>,
    heur: Ghost<PredictorHeuristic>,
    pr: Ghost<bool>,
    gh0: Ghost<CPUHistory>,
    gcycles: Ghost<int>,
) -> (r: SimulatorResult<()>)
    requires
        old(cpu).wf(),
        old(mem).wf(),
        old(io).wf(),
        current_state.wf(),
        *old(next_state) == *current_state,
        counters_small(gh0@),
        counters_bounded(gh0@, old(cpu).history, gcycles@),
        0 <= gcycles@,
        gcycles@ + 1 <= 0x4000_0000,
    ensures
        final(cpu).wf(),
        final(mem).wf(),
        final(io).wf(),
        final(next_state).wf(),
        final(cpu).policy == old(cpu).policy,
        final(cpu).stack_base == old(cpu).stack_base,
        final(cpu).stack_size == old(cpu).stack_size,
        InclusiveCache::same_shape(*old(mem), *final(mem)),
        final(io).input == old(io).input,
        old(cpu).history.cycle_count <= final(cpu).history.cycle_count <= old(
            cpu,
        ).history.cycle_count + 1,
        r is Err ==> !(r->Err_0 matches SimulatorError::ExecutionError(
            ExecutionError::ExecutionLimitReached(_),
        )),
        r is Err ==> machine::pipe_step(
            (PipeCore {
                core: machine::core_of(*old(cpu), *old(mem), *old(io)),
                latch: *current_state,
                levels: lv@,
                heuristic: heur@,
                predicted: pr@,
            }),
        ) == PipeVerdict::Fail,
        r is Ok ==> machine::pipe_step(
            (PipeCore {
                core: machine::core_of(*old(cpu), *old(mem), *old(io)),
                latch: *current_state,
                levels: lv@,
                heuristic: heur@,
                predicted: pr@,
            }),
        ) == machine::pipe_resolve(
            machine::core_of(*final(cpu), *final(mem), *final(io)),
            *final(next_state),
            lv@,
            heur@,
            pr@,
        ),
        r is Ok ==> ({
            let hpre = old(cpu).history;
            let hpost = final(cpu).history;
            &&& hpost.cycle_count == hpre.cycle_count + 1
            &&& hpre.inst_count <= hpost.inst_count <= hpre.inst_count + 1
            &&& hpre.mem_stall_count <= hpost.mem_stall_count <= hpre.mem_stall_count
                + 0x1_0000_0000
            &&& hpre.mem_stall_worst_count <= hpost.mem_stall_worst_count
                <= hpre.mem_stall_worst_count + 0x1_0000_0000
        }),
{
    let ghost pp = PipeCore {
        core: machine::core_of(*cpu, *mem, *io),
        latch: *current_state,
        levels: lv@,
        heuristic: heur@,
        predicted: pr@,
    };
    proof {
        lemma_counters_headroom(gh0@, cpu.history, gcycles@);
        crate::decode_helper::lemma_nop_fields();
    }

    // Check for stack overflow
    if cpu.stack_overflow() {
        proof {
            assert(machine::pipe_step(pp) == PipeVerdict::Fail);
        }
        return Err(
            SimulatorError::ExecutionError(
                ExecutionError::StackOverflow(cpu.gpr[2].read(), cpu.stack_base, cpu.stack_size),
            ),
        );
    }

    // Increment the CPU cycle count
    cpu.update_cycle_count(1);

    let load_hazard = match current_state.load_hazard() {
        Ok(b) => b,
        Err(e) => {
            proof {
                assert(machine::pipe_step(pp) == PipeVerdict::Fail);
            }
            return Err(e);
        },
    };
    if load_hazard {
        // Must insert a NOP and stall the front of the pipeline
        next_state.id_ex.inst = Instruction::default();
        cpu.update_inst_count(-1);
    } else {
        match stages::instruction_fetch(cpu, mem, next_state) {
            Ok(()) => {},
            Err(e) => {
                proof {
                    assert(!crate::storage::pg_load_ok(pp.core.pages, pp.core.pc, 4));
                    assert(machine::pipe_step(pp) == PipeVerdict::Fail);
                }
                return Err(e);
            },
        }
        match stages::instruction_decode(cpu, current_state, next_state) {
            Ok(()) => {},
            Err(e) => {
                proof {
                    assert(!crate::decode_helper::decode_ok(current_state.if_id.raw_inst));
                    assert(machine::pipe_step(pp) == PipeVerdict::Fail);
                }
                return Err(e);
            },
        }
    }

    let ghost cx = machine::core_of(*cpu, *mem, *io);
    let ghost nx0 = *next_state;
    proof {
        assert(machine::pipe_step(pp) == machine::pipe_ex(cx, pp.latch, nx0, lv@, heur@, pr@));
        lemma_counters_headroom(gh0@, cpu.history, gcycles@ + 1);
    }
    let ghost mem_x = *mem;
    let ghost io_x = *io;
    match stages::execute(cpu, mem, io, current_state, next_state) {
        Ok(()) => {},
        Err(e) => {
            proof {
                assert(current_state.id_ex.inst.opcode == Opcode::System);
                crate::system_call::lemma_syscall_step(
                    stages::fw_op1(*current_state),
                    stages::fw_op2(*current_state),
                    mem_x,
                    *mem,
                    io_x,
                    *io,
                    Err(e),
                );
                assert(machine::pipe_ex(cx, pp.latch, nx0, lv@, heur@, pr@) == PipeVerdict::Fail);
                assert(machine::pipe_step(pp) == PipeVerdict::Fail);
            }
            return Err(e);
        },
    }
    proof {
        if current_state.id_ex.inst.opcode == Opcode::System {
            crate::system_call::lemma_syscall_step(
                stages::fw_op1(*current_state),
                stages::fw_op2(*current_state),
                mem_x,
                *mem,
                io_x,
                *io,
                Ok(next_state.ex_mem.exec_result),
            );
        }
    }
    let ghost cx1 = machine::core_of(*cpu, *mem, *io);
    let ghost nx1 = *next_state;
    proof {
        assert(machine::pipe_ex(cx, pp.latch, nx0, lv@, heur@, pr@) == machine::pipe_mem(
            cx1,
            pp.latch,
            nx1,
            lv@,
            heur@,
            pr@,
        ));
    }
    match stages::memory_access(cpu, mem, current_state, next_state) {
        Ok(()) => {},
        Err(e) => {
            proof {
                assert(!crate::storage::pg_load_ok(
                    cx1.pages,
                    current_state.ex_mem.exec_result as u32,
                    current_state.ex_mem.inst.controls.mem_step,
                ));
                assert(machine::pipe_mem(cx1, pp.latch, nx1, lv@, heur@, pr@)
                    == PipeVerdict::Fail);
                assert(machine::pipe_step(pp) == PipeVerdict::Fail);
            }
            return Err(e);
        },
    }
    stages::write_back(cpu, current_state);
    proof {
        assert(machine::pipe_mem(cx1, pp.latch, nx1, lv@, heur@, pr@) == machine::pipe_resolve(
            machine::core_of(*cpu, *mem, *io),
            *next_state,
            lv@,
            heur@,
            pr@,
        ));
    }
    Ok(())
}

/// One cycle's back half: branch resolution on the new EX/MEM latch,
/// predictor training, and the next cycle's prediction on the new ID/EX
/// latch.  The specification machine's resolution verdict is exactly the
/// state this leaves behind.
#[verifier::rlimit(100)]
fn cycle_back(
    cpu: &mut CPUState,
    mem: &InclusiveCache,
    io: &SyscallIO,
    next_state: &mut PipelineState,
    branch_predictor: &mut BranchPredictor,
    predicted_branch_taken: &mut bool,
)
    requires
        old(cpu).wf(),
        old(next_state).wf(),
        old(branch_predictor).wf(),
        !(old(next_state).ex_mem.inst.opcode == Opcode::System && old(next_state).ex_mem.op2 == 3),
        i64::MIN + 4 <= old(cpu).history.inst_count <= i64::MAX - 4,
    ensures
        final(cpu).wf(),
        final(next_state).wf(),
        final(branch_predictor).wf(),
        final(branch_predictor).spec_heuristic() == old(branch_predictor).spec_heuristic(),
        final(cpu).policy == old(cpu).policy,
        final(cpu).stack_base == old(cpu).stack_base,
        final(cpu).stack_size == old(cpu).stack_size,
        final(cpu).gpr == old(cpu).gpr,
        final(cpu).history.cycle_count == old(cpu).history.cycle_count,
        final(cpu).history.mem_stall_count == old(cpu).history.mem_stall_count,
        final(cpu).history.mem_stall_worst_count == old(cpu).history.mem_stall_worst_count,
        old(cpu).history.inst_count - 3 <= final(cpu).history.inst_count <= old(
            cpu,
        ).history.inst_count,
        machine::pipe_resolve(
            machine::core_of(*old(cpu), *mem, *io),
            *old(next_state),
            machine::levels_of(*old(branch_predictor)),
            old(branch_predictor).spec_heuristic(),
            *old(predicted_branch_taken),
        ) == PipeVerdict::Next(
            (PipeCore {
                core: machine::core_of(*final(cpu), *mem, *io),
                latch: *final(next_state),
                levels: machine::levels_of(*final(branch_predictor)),
                heuristic: old(branch_predictor).spec_heuristic(),
                predicted: *final(predicted_branch_taken),
            }),
        ),
{
    let ghost lv0 = machine::levels_of(*branch_predictor);
    let ghost pr0 = *predicted_branch_taken;
    proof {
        crate::decode_helper::lemma_nop_fields();
    }

    // Branch resolution on the new EX/MEM latch
    let exec_inst = next_state.ex_mem.inst;
    let exec_result = next_state.ex_mem.exec_result;
    if exec_inst.controls.branch {
        // Do branch, conditional or unconditional
        proof {
            assert(exec_inst.attributes.imm is Some);
        }
        let imm = match exec_inst.attributes.imm {
            Some(v) => v,
            None => vstd::pervasive::unreached(),
        };
        let exec_pc = next_state.ex_mem.pc;
        let actual_new_pc: u32;
        let branch_taken: bool;
        if !(exec_inst.opcode == Opcode::Branch && exec_result != 0) {
            // Branch taken
            branch_taken = true;
            actual_new_pc = match exec_inst.opcode {
                Opcode::Jalr => (exec_result as u32) & !1u32,
                Opcode::Branch => {
                    match next_state.ex_mem.taken_pc {
                        Some(t) => t,
                        None => vstd::pervasive::unreached(),
                    }
                },
                _ => exec_pc.wrapping_add(imm),
            };
        } else {
            // Branch not taken
            branch_taken = false;
            actual_new_pc = exec_pc.wrapping_add(4);
        }

        let mut do_jump: bool = true;
        if exec_inst.opcode == Opcode::Branch {
            // Train the branch predictor
            branch_predictor.update(exec_pc, branch_taken);
            proof {
                assert(machine::levels_of(*branch_predictor) =~= machine::levels_after(
                    lv0,
                    old(branch_predictor).spec_heuristic(),
                    exec_pc,
                    branch_taken,
                ));
            }
            if branch_taken == *predicted_branch_taken {
                do_jump = false;
            }
        }

        if do_jump {
            cpu.pc.write(actual_new_pc);
            // Flush the fetched and decoded instructions
            next_state.if_id.raw_inst = NOP;
            next_state.id_ex.inst = Instruction::default();
            // Two in-flight instructions were replaced by NOPs
            cpu.update_inst_count(-2);
        }
    }

    // Branch prediction on the new ID/EX latch
    *predicted_branch_taken = false;
    let id_inst = next_state.id_ex.inst;
    if id_inst.opcode == Opcode::Branch {
        if branch_predictor.predict(next_state.id_ex.pc) {
            // Predicted taken: redirect to the precomputed target
            let taken_pc = match next_state.id_ex.taken_pc {
                Some(t) => t,
                None => vstd::pervasive::unreached(),
            };
            cpu.pc.write(taken_pc);
            // Flush the fetched instruction
            next_state.if_id.raw_inst = NOP;
            cpu.update_inst_count(-1);
            *predicted_branch_taken = true;
        }
    }
}

/// Runs the pipelined datapath until a SYSTEM exit call reaches EX, an
/// error arises, or the cycle budget runs out.  Each cycle advances the
/// four latches, with a NOP injected on a load-use hazard, a flush on a
/// mispredicted branch, and a redirect on a predicted-taken branch.
/// Returns the PC of the exiting instruction.
#[verifier::rlimit(100)]
pub fn run(cpu: &mut CPUState, mem: &mut InclusiveCache, io: &mut SyscallIO, max_cycles: u64) -> (r:
    SimulatorResult<u32>)
    requires
        old(cpu).wf(),
        old(mem).wf(),
        old(io).wf(),
        counters_small(old(cpu).history),
        max_cycles <= 0x4000_0000,
    ensures
        final(cpu).wf(),
        final(mem).wf(),
        final(io).wf(),
        final(cpu).policy == old(cpu).policy,
        final(cpu).stack_base == old(cpu).stack_base,
        final(cpu).stack_size == old(cpu).stack_size,
        InclusiveCache::same_shape(*old(mem), *final(mem)),
        final(io).input == old(io).input,
        old(cpu).history.cycle_count <= final(cpu).history.cycle_count <= old(
            cpu,
        ).history.cycle_count + max_cycles,
        // The budget error is reported only when the budget was really
        // spent to the last cycle
        r == Err::<u32, SimulatorError>(
            SimulatorError::ExecutionError(ExecutionError::ExecutionLimitReached(max_cycles)),
        ) ==> final(cpu).history.cycle_count == old(cpu).history.cycle_count + max_cycles,
        // The run is exactly what the specification machine computes from
        // the initial state: a machine exit forces success, and a success
        // returns the machine's exit PC with the machine's final state
        ({
            let verdict = machine::pipe_run(
                machine::pipe_init(
                    machine::core_of(*old(cpu), *old(mem), *old(io)),
                    old(cpu).policy.heuristic,
                ),
                max_cycles as nat,
            );
            &&& (verdict is Exited ==> r is Ok)
            &&& (r is Ok ==> verdict == PipeRun::Exited(
                r->Ok_0,
                machine::core_of(*final(cpu), *final(mem), *final(io)),
            ))
        }),
{
    let mut current_state = PipelineState::default();
    let mut next_state = PipelineState::default();

    let mut branch_predictor = BranchPredictor::new(cpu.policy.heuristic);
    let mut predicted_branch_taken: bool = false;

    let ghost h0 = old(cpu).history;
    let ghost p0 = machine::pipe_init(
        machine::core_of(*old(cpu), *old(mem), *old(io)),
        old(cpu).policy.heuristic,
    );
    proof {
        assert(current_state == machine::latch0());
        assert(machine::levels_of(branch_predictor) =~= Seq::new(4096nat, |i: int| 1int));
    }
    let mut cycles: u64 = 0;
    while cycles < max_cycles
        invariant
            cpu.wf(),
            mem.wf(),
            io.wf(),
            branch_predictor.wf(),
            branch_predictor.spec_heuristic() == old(cpu).policy.heuristic,
            current_state.wf(),
            next_state == current_state,
            cpu.policy == old(cpu).policy,
            cpu.stack_base == old(cpu).stack_base,
            cpu.stack_size == old(cpu).stack_size,
            InclusiveCache::same_shape(*old(mem), *mem),
            io.input == old(io).input,
            cycles <= max_cycles,
            max_cycles <= 0x4000_0000,
            h0 == old(cpu).history,
            counters_small(h0),
            counters_bounded(h0, cpu.history, cycles as int),
            p0 == machine::pipe_init(
                machine::core_of(*old(cpu), *old(mem), *old(io)),
                old(cpu).policy.heuristic,
            ),
            machine::pipe_run(p0, cycles as nat) == PipeRun::Running(
                (PipeCore {
                    core: machine::core_of(*cpu, *mem, *io),
                    latch: current_state,
                    levels: machine::levels_of(branch_predictor),
                    heuristic: old(cpu).policy.heuristic,
                    predicted: predicted_branch_taken,
                }),
            ),
        decreases max_cycles - cycles,
    {
        proof {
            lemma_counters_headroom(h0, cpu.history, cycles as int);
            crate::decode_helper::lemma_nop_fields();
        }
        let ghost h1 = cpu.history;
        let ghost pp = PipeCore {
            core: machine::core_of(*cpu, *mem, *io),
            latch: current_state,
            levels: machine::levels_of(branch_predictor),
            heuristic: old(cpu).policy.heuristic,
            predicted: predicted_branch_taken,
        };

        match cycle_front(
            cpu,
            mem,
            io,
            &current_state,
            &mut next_state,
            Ghost(pp.levels),
            Ghost(pp.heuristic),
            Ghost(pp.predicted),
            Ghost(h0),
            Ghost(cycles as int),
        ) {
            Ok(()) => {},
            Err(e) => {
                proof {
                    assert(machine::pipe_step(pp) == PipeVerdict::Fail);
                    assert(machine::pipe_run(p0, (cycles + 1) as nat) == PipeRun::Failed);
                    machine::lemma_pipe_run_absorbs(p0, (cycles + 1) as nat, max_cycles as nat);
                }
                return Err(e);
            },
        }

        let ghost cr = machine::core_of(*cpu, *mem, *io);
        let ghost nx2 = next_state;

        // Termination: a SYSTEM instruction with the exit code in a7
        let exec_inst = next_state.ex_mem.inst;
        if exec_inst.opcode == Opcode::System && next_state.ex_mem.op2 == 3 {
            proof {
                assert(machine::pipe_resolve(cr, nx2, pp.levels, pp.heuristic, pp.predicted)
                    == PipeVerdict::Exit(nx2.ex_mem.pc, cr));
                assert(machine::pipe_step(pp) == PipeVerdict::Exit(nx2.ex_mem.pc, cr));
                assert(machine::pipe_run(p0, (cycles + 1) as nat) == PipeRun::Exited(
                    nx2.ex_mem.pc,
                    cr,
                ));
                machine::lemma_pipe_run_absorbs(p0, (cycles + 1) as nat, max_cycles as nat);
            }
            return Ok(next_state.ex_mem.pc);
        }

        cycle_back(
            cpu,
            mem,
            io,
            &mut next_state,
            &mut branch_predictor,
            &mut predicted_branch_taken,
        );

        proof {
            lemma_counters_step(h0, h1, cpu.history, cycles as int);
            let pn = PipeCore {
                core: machine::core_of(*cpu, *mem, *io),
                latch: next_state,
                levels: machine::levels_of(branch_predictor),
                heuristic: pp.heuristic,
                predicted: predicted_branch_taken,
            };
            assert(machine::pipe_resolve(cr, nx2, pp.levels, pp.heuristic, pp.predicted)
                == PipeVerdict::Next(pn));
            assert(machine::pipe_step(pp) == PipeVerdict::Next(pn));
            assert(machine::pipe_run(p0, (cycles + 1) as nat) == PipeRun::Running(pn));
        }

        // Advance the pipeline state
        current_state = next_state;
        cycles = cycles + 1;
    }

    Err(SimulatorError::ExecutionError(ExecutionError::ExecutionLimitReached(max_cycles)))
}

} // verus!
