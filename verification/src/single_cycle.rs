//! Single-cycle datapath: each cycle runs IF, ID, EX, MEM and WB to
//! completion with no pipeline registers.

use vstd::prelude::*;

use crate::cpu::CPUHistory;
use crate::cpu::CPUState;
use crate::error::ExecutionError;
use crate::error::SimulatorError;
use crate::error::SimulatorResult;
use crate::inclusive::InclusiveCache;
use crate::instruction::Opcode;
use crate::stages_simple::execute;
use crate::stages_simple::instruction_decode;
use crate::stages_simple::instruction_fetch;
use crate::stages_simple::memory_access;
use crate::stages_simple::register_read;
use crate::stages_simple::write_back;
use crate::system_call::SyscallIO;

verus! {

/// The counters a driver starts from: nonnegative and small enough that a
/// full run cannot overflow them.
pub open spec fn counters_small(h: CPUHistory) -> bool {
    &&& 0 <= h.cycle_count <= 0x1_0000_0000_0000
    &&& 0 <= h.inst_count <= 0x1_0000_0000_0000
    &&& 0 <= h.mem_stall_count <= 0x1_0000_0000_0000
    &&& 0 <= h.mem_stall_worst_count <= 0x1_0000_0000_0000
}

/// How the counters may have moved after `cycles` cycles: one cycle each,
/// at most one committed instruction gained and three lost per cycle, and
/// at most one full pair of worst-case accesses of stall per cycle.
pub open spec fn counters_bounded(h0: CPUHistory, h: CPUHistory, cycles: int) -> bool {
    &&& h.cycle_count == h0.cycle_count + cycles
    &&& h0.inst_count - 3 * cycles <= h.inst_count <= h0.inst_count + cycles
    &&& h0.mem_stall_count <= h.mem_stall_count <= h0.mem_stall_count + cycles * 0x1_0000_0000
    &&& h0.mem_stall_worst_count <= h.mem_stall_worst_count <= h0.mem_stall_worst_count + cycles
        * 0x1_0000_0000
}

/// After one more cycle whose additions stay within a cycle's budget, the
/// counters are still bounded.
pub proof fn lemma_counters_step(h0: CPUHistory, h1: CPUHistory, h2: CPUHistory, cycles: int)
    requires
        cycles >= 0,
        counters_bounded(h0, h1, cycles),
        h2.cycle_count == h1.cycle_count + 1,
        h1.inst_count - 3 <= h2.inst_count <= h1.inst_count + 1,
        h1.mem_stall_count <= h2.mem_stall_count <= h1.mem_stall_count + 0x1_0000_0000,
        h1.mem_stall_worst_count <= h2.mem_stall_worst_count <= h1.mem_stall_worst_count
            + 0x1_0000_0000,
    ensures
        counters_bounded(h0, h2, cycles + 1),
{
    assert((cycles + 1) * 0x1_0000_0000 == cycles * 0x1_0000_0000 + 0x1_0000_0000)
        by (nonlinear_arith);
    assert(3 * (cycles + 1) == 3 * cycles + 3) by (nonlinear_arith);
}

/// Bounded counters that started small keep headroom for one more cycle.
pub proof fn lemma_counters_headroom(h0: CPUHistory, h: CPUHistory, cycles: int)
    requires
        counters_small(h0),
        counters_bounded(h0, h, cycles),
        0 <= cycles <= 0x4000_0000,
    ensures
        crate::stages_simple::history_headroom(h),
        h.mem_stall_count >= 0,
        h.mem_stall_worst_count >= 0,
{
    vstd::arithmetic::mul::lemma_mul_inequality(cycles, 0x4000_0000, 0x1_0000_0000);
}

/// Runs the single-cycle datapath until the program exits via the SYSTEM
/// exit call, an error arises, or the cycle budget runs out.  Returns the
/// PC of the exiting instruction.
#[verifier::rlimit(50)]
pub fn run(cpu: &mut CPUState, mem: &mut InclusiveCache, io: &mut SyscallIO, max_cycles: u64) -> (r:
    SimulatorResult<u32>)
    requires
        old(cpu).wf(),
        old(mem).wf(),
        old(io).wf(),
        counters_small(old(cpu).history),
        max_cycles <= 0x4000_0000,
    ensures
        final(cpu).wf(),
        final(mem).wf(),
        final(io).wf(),
        final(cpu).policy == old(cpu).policy,
        final(cpu).stack_base == old(cpu).stack_base,
        final(cpu).stack_size == old(cpu).stack_size,
        InclusiveCache::same_shape(*old(mem), *final(mem)),
        final(io).input == old(io).input,
        old(cpu).history.cycle_count <= final(cpu).history.cycle_count <= old(
            cpu,
        ).history.cycle_count + max_cycles,
        // The budget error is reported only when the budget was really
        // spent to the last cycle
        r == Err::<u32, SimulatorError>(
            SimulatorError::ExecutionError(ExecutionError::ExecutionLimitReached(max_cycles)),
        ) ==> final(cpu).history.cycle_count == old(cpu).history.cycle_count + max_cycles,
        // On a normal exit, the returned PC holds a decodable SYSTEM
        // instruction in the final memory
        r is Ok ==> crate::storage::load_ok(final(mem).mmu, r->Ok_0, 4)
            && crate::decode_helper::decode_ok(
            crate::storage::loaded_value(final(mem).mmu, r->Ok_0, 4),
        ) && crate::decode_helper::decoded(
            crate::storage::loaded_value(final(mem).mmu, r->Ok_0, 4),
        ).opcode == Opcode::System,
        // On a normal exit the exit code was in a7, which write-back never
        // touches on the final cycle
        r is Ok ==> final(cpu).gpr.len() == 32 && final(cpu).gpr[17].value() == 3,
        // The run is exactly what the specification machine computes from
        // the initial state: a machine exit forces success, and a success
        // returns the machine's exit PC with the machine's final state
        ({
            let verdict = crate::machine::sc_run(
                crate::machine::core_of(*old(cpu), *old(mem), *old(io)),
                max_cycles as nat,
            );
            &&& (verdict is Exited ==> r is Ok)
            &&& (r is Ok ==> verdict == crate::machine::RunVerdict::Exited(
                r->Ok_0,
                crate::machine::core_of(*final(cpu), *final(mem), *final(io)),
            ))
        }),
{
    let ghost h0 = old(cpu).history;
    let ghost s0 = crate::machine::core_of(*old(cpu), *old(mem), *old(io));
    let mut cycles: u64 = 0;
    while cycles < max_cycles
        invariant
            cpu.wf(),
            mem.wf(),
            io.wf(),
            cpu.policy == old(cpu).policy,
            cpu.stack_base == old(cpu).stack_base,
            cpu.stack_size == old(cpu).stack_size,
            InclusiveCache::same_shape(*old(mem), *mem),
            io.input == old(io).input,
            cycles <= max_cycles,
            max_cycles <= 0x4000_0000,
            h0 == old(cpu).history,
            counters_small(h0),
            counters_bounded(h0, cpu.history, cycles as int),
            s0 == crate::machine::core_of(*old(cpu), *old(mem), *old(io)),
            crate::machine::sc_run(s0, cycles as nat) == crate::machine::RunVerdict::Running(
                crate::machine::core_of(*cpu, *mem, *io),
            ),
        decreases max_cycles - cycles,
    {
        proof {
            lemma_counters_headroom(h0, cpu.history, cycles as int);
        }
        let ghost h1 = cpu.history;
        let ghost sp = crate::machine::core_of(*cpu, *mem, *io);

        // Detect stack overflow
        if cpu.stack_overflow() {
            proof {
                assert(crate::machine::sc_step(sp) == crate::machine::StepVerdict::Fail);
                assert(crate::machine::sc_run(s0, (cycles + 1) as nat)
                    == crate::machine::RunVerdict::Failed);
                crate::machine::lemma_sc_run_absorbs(s0, (cycles + 1) as nat, max_cycles as nat);
            }
            return Err(
                SimulatorError::ExecutionError(
                    ExecutionError::StackOverflow(
                        cpu.gpr[2].read(),
                        cpu.stack_base,
                        cpu.stack_size,
                    ),
                ),
            );
        }

        // Increment the CPU cycle count
        cpu.update_cycle_count(1);

        // Read and increment the PC
        let pc = cpu.pc.read();
        cpu.pc.write(pc.wrapping_add(4));

        // IF
        let raw_inst = match instruction_fetch(pc, cpu, mem) {
            Ok(v) => v,
            Err(e) => {
                proof {
                    assert(!crate::storage::pg_load_ok(sp.pages, sp.pc, 4));
                    assert(crate::machine::sc_step(sp) == crate::machine::StepVerdict::Fail);
                    assert(crate::machine::sc_run(s0, (cycles + 1) as nat)
                        == crate::machine::RunVerdict::Failed);
                    crate::machine::lemma_sc_run_absorbs(
                        s0,
                        (cycles + 1) as nat,
                        max_cycles as nat,
                    );
                }
                return Err(e);
            },
        };
        // ID
        let inst = match instruction_decode(raw_inst) {
            Ok(i) => i,
            Err(e) => {
                proof {
                    assert(raw_inst == crate::storage::pg_loaded_value(sp.pages, sp.pc, 4));
                    assert(crate::machine::sc_step(sp) == crate::machine::StepVerdict::Fail);
                    assert(crate::machine::sc_run(s0, (cycles + 1) as nat)
                        == crate::machine::RunVerdict::Failed);
                    crate::machine::lemma_sc_run_absorbs(
                        s0,
                        (cycles + 1) as nat,
                        max_cycles as nat,
                    );
                }
                return Err(e);
            },
        };
        let (rs1, rs2) = register_read(&inst, cpu);
        proof {
            assert(rs1 == crate::machine::reg_sel(sp.gpr, inst.attributes.rs1) as i32);
            assert(rs2 == crate::machine::reg_sel(sp.gpr, inst.attributes.rs2) as i32);
        }
        // EX
        proof {
            lemma_counters_headroom(h0, cpu.history, cycles as int + 1);
        }
        let ghost mem_x = *mem;
        let ghost io_x = *io;
        let exec_result = match execute(cpu, mem, io, &inst, rs1, rs2) {
            Ok(v) => v,
            Err(e) => {
                proof {
                    assert(inst.opcode == Opcode::System);
                    crate::system_call::lemma_syscall_step(
                        rs1,
                        rs2,
                        mem_x,
                        *mem,
                        io_x,
                        *io,
                        Err(e),
                    );
                    assert(crate::machine::sc_step(sp) == crate::machine::StepVerdict::Fail);
                    assert(crate::machine::sc_run(s0, (cycles + 1) as nat)
                        == crate::machine::RunVerdict::Failed);
                    crate::machine::lemma_sc_run_absorbs(
                        s0,
                        (cycles + 1) as nat,
                        max_cycles as nat,
                    );
                }
                return Err(e);
            },
        };
        let ghost spx = sp;
        proof {
            if inst.opcode == Opcode::System {
                crate::system_call::lemma_syscall_step(
                    rs1,
                    rs2,
                    mem_x,
                    *mem,
                    io_x,
                    *io,
                    Ok(exec_result),
                );
                spx = crate::machine::CoreState { cursor: io.cursor as int, output: io.output@, ..sp };
            }
            assert(crate::machine::sc_step(sp) == crate::machine::sc_mem(spx, inst, exec_result, rs2));
        }
        // MEM
        let ghost mem_m = *mem;
        let wb_result = match memory_access(pc, &inst, cpu, mem, exec_result, rs2) {
            Ok(v) => v,
            Err(e) => {
                proof {
                    assert(!crate::storage::pg_load_ok(
                        sp.pages,
                        exec_result as u32,
                        inst.controls.mem_step,
                    ));
                    assert(crate::machine::sc_mem(spx, inst, exec_result, rs2)
                        == crate::machine::StepVerdict::Fail);
                    assert(crate::machine::sc_step(sp) == crate::machine::StepVerdict::Fail);
                    assert(crate::machine::sc_run(s0, (cycles + 1) as nat)
                        == crate::machine::RunVerdict::Failed);
                    crate::machine::lemma_sc_run_absorbs(
                        s0,
                        (cycles + 1) as nat,
                        max_cycles as nat,
                    );
                }
                return Err(e);
            },
        };
        // WB
        write_back(pc, &inst, cpu, wb_result);

        proof {
            lemma_counters_step(h0, h1, cpu.history, cycles as int);
        }

        // System call: exit
        if inst.opcode == Opcode::System && rs2 == 3 {
            proof {
                let a7 = cpu.gpr[17].value();
                assert(a7 as i32 == 3 ==> a7 == 3) by (bit_vector);
                assert(crate::machine::sc_mem(spx, inst, exec_result, rs2)
                    == crate::machine::StepVerdict::Exit(
                    pc,
                    crate::machine::core_of(*cpu, *mem, *io),
                ));
                assert(crate::machine::sc_step(sp) == crate::machine::StepVerdict::Exit(
                    pc,
                    crate::machine::core_of(*cpu, *mem, *io),
                ));
                assert(crate::machine::sc_run(s0, (cycles + 1) as nat)
                    == crate::machine::RunVerdict::Exited(
                    pc,
                    crate::machine::core_of(*cpu, *mem, *io),
                ));
                crate::machine::lemma_sc_run_absorbs(s0, (cycles + 1) as nat, max_cycles as nat);
            }
            return Ok(pc);
        }

        // Update the PC on a taken branch
        if inst.controls.branch && !(inst.opcode == Opcode::Branch && exec_result != 0) {
            proof {
                assert(inst.attributes.imm is Some);
            }
            let imm = match inst.attributes.imm {
                Some(v) => v,
                None => vstd::pervasive::unreached(),
            };
            let new_pc = match inst.opcode {
                Opcode::Jalr => (exec_result as u32) & !1u32,
                _ => pc.wrapping_add(imm),
            };
            cpu.pc.write(new_pc);
        }

        proof {
            assert(crate::machine::sc_mem(spx, inst, exec_result, rs2)
                == crate::machine::StepVerdict::Next(crate::machine::core_of(*cpu, *mem, *io)));
            assert(crate::machine::sc_step(sp) == crate::machine::StepVerdict::Next(
                crate::machine::core_of(*cpu, *mem, *io),
            ));
            assert(crate::machine::sc_run(s0, (cycles + 1) as nat)
                == crate::machine::RunVerdict::Running(crate::machine::core_of(*cpu, *mem, *io)));
        }
        cycles = cycles + 1;
    }

    Err(SimulatorError::ExecutionError(ExecutionError::ExecutionLimitReached(max_cycles)))
}

} // verus!
