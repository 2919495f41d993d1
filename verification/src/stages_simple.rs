//! Primitive implementation of the five stage kernels: fetch, decode,
//! register read, execute, memory access and write back.  Both datapaths
//! drive these.

use vstd::prelude::*;

use crate::alu::ALUSrc;
use crate::alu::alu;
use crate::alu::spec_alu;
use crate::cpu::CPUState;
use crate::decode_helper;
use crate::error::SimulatorError;
use crate::error::SimulatorResult;
use crate::inclusive::InclusiveCache;
use crate::instruction::Function;
use crate::instruction::Instruction;
use crate::instruction::Opcode;
use crate::storage::AccessType;
use crate::storage;
use crate::system_call::SyscallIO;
use crate::system_call::syscall;
use crate::system_call::syscall_post;

verus! {

/// The history counters are far enough from their bounds to absorb one
/// more cycle's worth of accounting.
pub open spec fn history_headroom(h: crate::cpu::CPUHistory) -> bool {
    &&& h.cycle_count < 0x7000_0000_0000_0000
    &&& h.inst_count < 0x7000_0000_0000_0000
    &&& h.inst_count > -0x7000_0000_0000_0000
    &&& h.mem_stall_count < 0x7000_0000_0000_0000
    &&& h.mem_stall_count >= 0
    &&& h.mem_stall_worst_count < 0x7000_0000_0000_0000
    &&& h.mem_stall_worst_count >= 0
}

/// The register selected by an optional 5-bit field, defaulting to x0.
pub open spec fn reg_of(cpu: CPUState, field: Option<u32>) -> u32 {
    match field {
        Some(v) => cpu.gpr[v as int].value(),
        None => cpu.gpr[0].value(),
    }
}

/// IF: fetches the instruction word at `pc` through the hierarchy,
/// charging the realistic and the worst-case stall to the CPU history.
pub fn instruction_fetch(pc: u32, cpu: &mut CPUState, mem: &mut InclusiveCache) -> (r:
    SimulatorResult<u32>)
    requires
        old(cpu).wf(),
        old(mem).wf(),
        history_headroom(old(cpu).history),
    ensures
        final(cpu).wf(),
        final(mem).wf(),
        InclusiveCache::same_shape(*old(mem), *final(mem)),
        final(mem).mmu == old(mem).mmu,
        storage::load_ok(old(mem).mmu, pc, 4) ==> r == Ok::<u32, SimulatorError>(
            storage::loaded_value(old(mem).mmu, pc, 4),
        ) && final(cpu).history.mem_stall_count == old(cpu).history.mem_stall_count + old(
            mem,
        ).service_stall(0, pc, AccessType::Read) && final(cpu).history.mem_stall_worst_count == old(
            cpu,
        ).history.mem_stall_worst_count + old(mem).miss_penalty && final(cpu).history.cycle_count
            == old(cpu).history.cycle_count && final(cpu).history.inst_count == old(
            cpu,
        ).history.inst_count && final(cpu).gpr == old(cpu).gpr && final(cpu).pc == old(cpu).pc
            && final(cpu).policy == old(cpu).policy && final(cpu).stack_base == old(cpu).stack_base
            && final(cpu).stack_size == old(cpu).stack_size,
        !storage::load_ok(old(mem).mmu, pc, 4) ==> r is Err && *final(cpu) == *old(cpu)
            && r->Err_0 matches SimulatorError::MemoryError(_),
        old(cpu).history.mem_stall_count <= final(cpu).history.mem_stall_count <= old(
            cpu,
        ).history.mem_stall_count + 0x8000_0000,
        old(cpu).history.mem_stall_worst_count <= final(cpu).history.mem_stall_worst_count <= old(
            cpu,
        ).history.mem_stall_worst_count + 0x8000_0000,
    {
        proof {
            old(mem).lemma_service_stall_bounds(0, pc, AccessType::Read);
        }
        let mut stall_count = Some(0);
        let mut stall_count_worst = Some(0);
        let raw_inst = match mem.get(pc, 4, &mut stall_count, &mut stall_count_worst) {
            Ok(v) => v,
            Err(e) => {
                return Err(e);
            },
        };
        cpu.history.mem_stall_count = cpu.history.mem_stall_count + (stall_count.unwrap() as i64);
        cpu.history.mem_stall_worst_count = cpu.history.mem_stall_worst_count + (
        stall_count_worst.unwrap() as i64);
        Ok(raw_inst)
    }

/// ID: decodes a raw instruction word.
pub fn instruction_decode(raw_inst: u32) -> (r: SimulatorResult<Instruction>)
    ensures
        decode_helper::decode_ok(raw_inst) ==> r == Ok::<Instruction, SimulatorError>(
            decode_helper::decoded(raw_inst),
        ),
        !decode_helper::decode_ok(raw_inst) ==> r == Err::<Instruction, SimulatorError>(
            SimulatorError::InvalidInstructionError(raw_inst, 0),
        ),
        r is Ok ==> r->Ok_0.wf(),
{
    Instruction::new(raw_inst)
}

/// ID: reads the two source registers an instruction selects (x0 when a
/// format has no such field).
pub fn register_read(inst: &Instruction, cpu: &CPUState) -> (r: (i32, i32))
    requires
        cpu.wf(),
        inst.wf(),
    ensures
        r.0 == reg_of(*cpu, inst.attributes.rs1) as i32,
        r.1 == reg_of(*cpu, inst.attributes.rs2) as i32,
{
    proof {
        decode_helper::lemma_fields_in_range(inst.raw_inst);
    }
    let rs1_index = match inst.attributes.rs1 {
        Some(v) => v,
        None => 0,
    };
    let rs2_index = match inst.attributes.rs2 {
        Some(v) => v,
        None => 0,
    };
    let rs1 = cpu.gpr[rs1_index as usize].read() as i32;
    let rs2 = cpu.gpr[rs2_index as usize].read() as i32;
    (rs1, rs2)
}

/// The effective second ALU operand: the register value, or the
/// instruction's immediate.
pub open spec fn effective_op2(inst: Instruction, op2: i32) -> i32 {
    if inst.controls.alu_src == ALUSrc::REG {
        op2
    } else {
        inst.attributes.imm->Some_0 as i32
    }
}

/// EX: for a SYSTEM instruction, performs the system call; otherwise runs
/// the ALU on the operands, with the immediate substituted for the second
/// operand when the instruction says so.  Commits one instruction to the
/// count.
pub fn execute(
    cpu: &mut CPUState,
    mem: &mut InclusiveCache,
    io: &mut SyscallIO,
    inst: &Instruction,
    op1: i32,
    op2: i32,
) -> (r: SimulatorResult<i32>)
    requires
        old(cpu).wf(),
        old(mem).wf(),
        old(io).wf(),
        inst.wf(),
        history_headroom(old(cpu).history),
    ensures
        final(cpu).wf(),
        final(mem).wf(),
        final(io).wf(),
        final(cpu).history.inst_count == old(cpu).history.inst_count + 1,
        final(cpu).history == (crate::cpu::CPUHistory {
            inst_count: final(cpu).history.inst_count,
            ..old(cpu).history
        }),
        *final(cpu) == (CPUState { history: final(cpu).history, ..*old(cpu) }),
        inst.opcode != Opcode::System ==> r == Ok::<i32, SimulatorError>(
            spec_alu(inst.controls.alu_op, op1, effective_op2(*inst, op2)),
        ) && *final(mem) == *old(mem) && *final(io) == *old(io),
        inst.opcode == Opcode::System ==> syscall_post(
            op1,
            op2,
            *old(mem),
            *final(mem),
            *old(io),
            *final(io),
            r,
        ),
        r is Err ==> !(r->Err_0 matches SimulatorError::ExecutionError(
            crate::error::ExecutionError::ExecutionLimitReached(_),
        )),
{
    // Commit the instruction
    cpu.update_inst_count(1);

    if inst.opcode == Opcode::System {
        // Handle system calls
        let r = syscall(op1, op2, mem, io);
        proof {
            if r is Err {
                assert(op2 != 1 && op2 != 2 && op2 != 3);
                if op2 == 0 {
                    assert(r->Err_0 matches SimulatorError::MemoryError(_));
                } else if op2 == 4 || op2 == 5 {
                    if op2 == 5 {
                        let s2 = old(io).input@;
                        let start = crate::system_call::skip_spaces(s2, old(io).cursor as int);
                        let body = if start < s2.len() && s2[start] == 45 {
                            start + 1
                        } else {
                            start
                        };
                        crate::system_call::lemma_digits_end_bounds(s2, body);
                    }
                    assert(r == Err::<i32, SimulatorError>(
                        SimulatorError::ExecutionError(
                            crate::error::ExecutionError::InputExhausted,
                        ),
                    ));
                } else {
                    assert(r == Err::<i32, SimulatorError>(
                        SimulatorError::ExecutionError(
                            crate::error::ExecutionError::UnknownSystemCall(op2),
                        ),
                    ));
                }
            }
        }
        r
    } else {
        // Handle ALU operations
        proof {
            // Only formats that carry an immediate select the IMM source
            assert(inst.controls.alu_src == ALUSrc::IMM ==> inst.attributes.imm is Some);
        }
        let op2 = match inst.controls.alu_src {
            ALUSrc::REG => op2,
            ALUSrc::IMM => {
                match inst.attributes.imm {
                    Some(v) => v as i32,
                    None => vstd::pervasive::unreached(),
                }
            },
        };
        Ok(alu(inst, op1, op2))
    }
}

/// The value the MEM stage hands to write-back when no load happened:
/// the immediate for LUI, pc plus immediate for AUIPC, the return address
/// for JAL and JALR, and the execution result otherwise.
pub open spec fn wb_value(pc: u32, inst: Instruction, exec_result: i32) -> u32 {
    let imm = match inst.attributes.imm {
        Some(v) => v,
        None => 0,
    };
    match inst.function {
        Function::LUI => imm,
        Function::AUIPC => pc.wrapping_add(imm),
        Function::JAL => pc.wrapping_add(4),
        Function::JALR => pc.wrapping_add(4),
        _ => exec_result as u32,
    }
}

/// MEM: performs the load or store the instruction asks for, charging
/// stalls, and computes the write-back value.
pub fn memory_access(
    pc: u32,
    inst: &Instruction,
    cpu: &mut CPUState,
    mem: &mut InclusiveCache,
    exec_result: i32,
    op2: i32,
) -> (r: SimulatorResult<u32>)
    requires
        old(cpu).wf(),
        old(mem).wf(),
        inst.wf(),
        history_headroom(old(cpu).history),
    ensures
        final(cpu).wf(),
        final(mem).wf(),
        InclusiveCache::same_shape(*old(mem), *final(mem)),
        final(cpu).history == (crate::cpu::CPUHistory {
            mem_stall_count: final(cpu).history.mem_stall_count,
            mem_stall_worst_count: final(cpu).history.mem_stall_worst_count,
            ..old(cpu).history
        }),
        *final(cpu) == (CPUState { history: final(cpu).history, ..*old(cpu) }),
        forall|a2: u32| final(mem).mmu.spec_allocated(a2) == old(mem).mmu.spec_allocated(a2),
        !inst.controls.mem_read && !inst.controls.mem_write ==> r == Ok::<u32, SimulatorError>(
            wb_value(pc, *inst, exec_result),
        ) && *final(mem) == *old(mem) && *final(cpu) == *old(cpu),
        inst.controls.mem_read ==> {
            &&& storage::load_ok(old(mem).mmu, exec_result as u32, inst.controls.mem_step) ==> r
                == Ok::<u32, SimulatorError>(
                storage::loaded_value(old(mem).mmu, exec_result as u32, inst.controls.mem_step),
            ) && final(mem).mmu == old(mem).mmu
            &&& !storage::load_ok(old(mem).mmu, exec_result as u32, inst.controls.mem_step) ==> r
                is Err && r->Err_0 matches SimulatorError::MemoryError(_)
        },
        old(cpu).history.mem_stall_count <= final(cpu).history.mem_stall_count <= old(
            cpu,
        ).history.mem_stall_count + 0x8000_0000,
        old(cpu).history.mem_stall_worst_count <= final(cpu).history.mem_stall_worst_count <= old(
            cpu,
        ).history.mem_stall_worst_count + 0x8000_0000,
        r is Err ==> *final(cpu) == *old(cpu),
        r is Ok && inst.controls.mem_read ==> final(cpu).history.mem_stall_count == old(
            cpu,
        ).history.mem_stall_count + old(mem).service_stall(
            0,
            exec_result as u32,
            AccessType::Read,
        ) && final(cpu).history.mem_stall_worst_count == old(cpu).history.mem_stall_worst_count
            + old(mem).miss_penalty,
        r is Ok && inst.controls.mem_write ==> final(cpu).history.mem_stall_count == old(
            cpu,
        ).history.mem_stall_count + old(mem).service_stall(
            0,
            exec_result as u32,
            AccessType::Write,
        ) && final(cpu).history.mem_stall_worst_count == old(cpu).history.mem_stall_worst_count
            + old(mem).miss_penalty,
        inst.controls.mem_write ==> {
            &&& storage::load_ok(old(mem).mmu, exec_result as u32, inst.controls.mem_step) ==> r
                == Ok::<u32, SimulatorError>(wb_value(pc, *inst, exec_result)) && (forall|i: int|
                0 <= i < inst.controls.mem_step ==> #[trigger] final(mem).mmu.spec_byte(
                    (exec_result as u32).wrapping_add(i as u32),
                ) == storage::stored_byte(op2 as u32, i)) && final(mem).mmu.pages()
                == storage::pg_store(
                old(mem).mmu.pages(),
                exec_result as u32,
                inst.controls.mem_step,
                op2 as u32,
            )
            &&& !storage::load_ok(old(mem).mmu, exec_result as u32, inst.controls.mem_step) ==> r
                is Err && r->Err_0 matches SimulatorError::MemoryError(_)
        },
{
    let mut mem_result: u32 = 0;

    let address = exec_result as u32;
    let mem_step = inst.controls.mem_step;

    let mut stall_count = Some(0);
    let mut stall_count_worst = Some(0);

    proof {
        // A load or store always has a 1-, 2- or 4-byte width
        assert(inst.controls.mem_read || inst.controls.mem_write ==> mem_step == 1 || mem_step == 2
            || mem_step == 4);
        old(mem).lemma_service_stall_bounds(0, exec_result as u32, AccessType::Read);
        old(mem).lemma_service_stall_bounds(0, exec_result as u32, AccessType::Write);
    }

    if inst.controls.mem_read {
        mem_result = match mem.get(address, mem_step, &mut stall_count, &mut stall_count_worst) {
            Ok(v) => v,
            Err(e) => {
                return Err(e);
            },
        };
    } else if inst.controls.mem_write {
        match mem.set(address, mem_step, op2 as u32, &mut stall_count, &mut stall_count_worst) {
            Ok(()) => {},
            Err(e) => {
                return Err(e);
            },
        }
    }

    cpu.history.mem_stall_count = cpu.history.mem_stall_count + (stall_count.unwrap() as i64);
    cpu.history.mem_stall_worst_count = cpu.history.mem_stall_worst_count + (
    stall_count_worst.unwrap() as i64);

    if inst.controls.mem_read {
        // Hand over the loaded value
        Ok(mem_result)
    } else {
        // Hand over the execution result, with the special cases
        let imm = match inst.attributes.imm {
            Some(v) => v,
            None => 0,
        };
        match inst.function {
            Function::LUI => Ok(imm),
            Function::AUIPC => Ok(pc.wrapping_add(imm)),
            Function::JAL | Function::JALR => Ok(pc.wrapping_add(4)),
            _ => Ok(exec_result as u32),
        }
    }
}

/// WB: writes the result to the selected register; x0 stays hard-wired
/// to zero.
pub fn write_back(pc: u32, inst: &Instruction, cpu: &mut CPUState, wb_result: u32)
    requires
        old(cpu).wf(),
        inst.wf(),
    ensures
        final(cpu).wf(),
        *final(cpu) == (CPUState { gpr: final(cpu).gpr, ..*old(cpu) }),
        final(cpu).gpr.len() == 32,
        inst.controls.reg_write && inst.attributes.rd->Some_0 != 0 ==> final(cpu).gpr@
            == old(cpu).gpr@.update(
            inst.attributes.rd->Some_0 as int,
            (crate::cpu::Register { data: wb_result }),
        ),
        !(inst.controls.reg_write && inst.attributes.rd->Some_0 != 0) ==> final(cpu).gpr == old(
            cpu,
        ).gpr,
{
    proof {
        decode_helper::lemma_fields_in_range(inst.raw_inst);
        // Every register-writing instruction has a destination field
        assert(inst.controls.reg_write ==> inst.attributes.rd is Some);
    }
    if inst.controls.reg_write {
        let rd = match inst.attributes.rd {
            Some(v) => v as usize,
            None => vstd::pervasive::unreached(),
        };
        // You don't write to x0
        if rd != 0 {
            let reg = &mut cpu.gpr[rd];
            reg.write(wb_result);
            proof {
                assert(final(cpu).gpr@ =~= old(cpu).gpr@.update(
                    inst.attributes.rd->Some_0 as int,
                    (crate::cpu::Register { data: wb_result }),
                ));
            }
        }
    }
}

} // verus!
