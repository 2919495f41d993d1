//! The five stage kernels adapted for pipelined execution: each reads the
//! current pipeline state and writes the next one.

use vstd::prelude::*;

use crate::cpu::CPUState;
use crate::decode_helper;
use crate::error::SimulatorError;
use crate::error::SimulatorResult;
use crate::inclusive::InclusiveCache;
use crate::instruction::Instruction;
use crate::instruction::Opcode;
use crate::pipeline::PipelineState;
use crate::stages_simple;
use crate::storage;
use crate::system_call::SyscallIO;
use crate::system_call::syscall_post;

verus! {

/// IF: advances the PC by one word and fetches the instruction at the old
/// PC into the IF/ID latch.
pub fn instruction_fetch(
    cpu: &mut CPUState,
    mem: &mut InclusiveCache,
    next_state: &mut PipelineState,
) -> (r: SimulatorResult<()>)
    requires
        old(cpu).wf(),
        old(mem).wf(),
        stages_simple::history_headroom(old(cpu).history),
    ensures
        final(cpu).wf(),
        final(mem).wf(),
        InclusiveCache::same_shape(*old(mem), *final(mem)),
        final(mem).mmu == old(mem).mmu,
        final(next_state).id_ex == old(next_state).id_ex,
        final(next_state).ex_mem == old(next_state).ex_mem,
        final(next_state).mem_wb == old(next_state).mem_wb,
        final(cpu).gpr == old(cpu).gpr,
        final(cpu).policy == old(cpu).policy,
        final(cpu).stack_base == old(cpu).stack_base,
        final(cpu).stack_size == old(cpu).stack_size,
        final(cpu).history.cycle_count == old(cpu).history.cycle_count,
        final(cpu).history.inst_count == old(cpu).history.inst_count,
        old(cpu).history.mem_stall_count <= final(cpu).history.mem_stall_count <= old(cpu).history.mem_stall_count + 0x8000_0000,
        old(cpu).history.mem_stall_worst_count <= final(cpu).history.mem_stall_worst_count <= old(cpu).history.mem_stall_worst_count + 0x8000_0000,
        storage::load_ok(old(mem).mmu, old(cpu).pc.value(), 4) ==> r is Ok,
        r is Err ==> r->Err_0 matches SimulatorError::MemoryError(_),
        r is Ok ==> {
            &&& storage::load_ok(old(mem).mmu, old(cpu).pc.value(), 4)
            &&& final(next_state).if_id.pc == old(cpu).pc.value()
            &&& final(next_state).if_id.raw_inst == storage::loaded_value(
                old(mem).mmu,
                old(cpu).pc.value(),
                4,
            )
            &&& final(cpu).pc.value() == old(cpu).pc.value().wrapping_add(4)
        },
        r is Err ==> *final(next_state) == *old(next_state),
{
    // Increment PC by one word
    let pc = cpu.pc.read();
    let new_pc = pc.wrapping_add(4);
    cpu.pc.write(new_pc);

    // Fetch the raw instruction
    let raw_inst = match stages_simple::instruction_fetch(pc, cpu, mem) {
        Ok(v) => v,
        Err(e) => {
            return Err(e);
        },
    };

    // Update the IF/ID register
    next_state.if_id.pc = pc;
    next_state.if_id.raw_inst = raw_inst;
    Ok(())
}

/// The first operand the ID stage latches: the just-written-back value on
/// a WB hazard, the register file otherwise.
pub open spec fn id_op1(cpu: CPUState, current: PipelineState, inst: Instruction) -> i32 {
    if inst.attributes.rs1 != Some(0u32) && current.mem_wb.inst.controls.reg_write
        && inst.attributes.rs1 == current.mem_wb.inst.attributes.rd {
        current.mem_wb.wb_result as i32
    } else {
        stages_simple::reg_of(cpu, inst.attributes.rs1) as i32
    }
}

/// The second operand the ID stage latches, symmetrical to `id_op1`.
pub open spec fn id_op2(cpu: CPUState, current: PipelineState, inst: Instruction) -> i32 {
    if inst.attributes.rs2 != Some(0u32) && current.mem_wb.inst.controls.reg_write
        && inst.attributes.rs2 == current.mem_wb.inst.attributes.rd {
        current.mem_wb.wb_result as i32
    } else {
        stages_simple::reg_of(cpu, inst.attributes.rs2) as i32
    }
}

/// ID: decodes the latched word, reads (or forwards) the operands, and
/// precomputes the branch target.
pub fn instruction_decode(
    cpu: &CPUState,
    current_state: &PipelineState,
    next_state: &mut PipelineState,
) -> (r: SimulatorResult<()>)
    requires
        cpu.wf(),
    ensures
        final(next_state).if_id == old(next_state).if_id,
        final(next_state).ex_mem == old(next_state).ex_mem,
        final(next_state).mem_wb == old(next_state).mem_wb,
        !decode_helper::decode_ok(current_state.if_id.raw_inst) ==> r == Err::<
            (),
            SimulatorError,
        >(SimulatorError::InvalidInstructionError(current_state.if_id.raw_inst, 0)) && *final(next_state) == *old(next_state),
        decode_helper::decode_ok(current_state.if_id.raw_inst) ==> r is Ok && {
            let inst = decode_helper::decoded(current_state.if_id.raw_inst);
            &&& final(next_state).id_ex.pc == current_state.if_id.pc
            &&& final(next_state).id_ex.inst == inst
            &&& final(next_state).id_ex.inst.wf()
            &&& final(next_state).id_ex.op1 == id_op1(*cpu, *current_state, inst)
            &&& final(next_state).id_ex.op2 == id_op2(*cpu, *current_state, inst)
            &&& (inst.opcode == Opcode::Branch ==> final(next_state).id_ex.taken_pc == Some(
                current_state.if_id.pc.wrapping_add(inst.attributes.imm->Some_0),
            ))
            &&& (inst.opcode != Opcode::Branch ==> final(next_state).id_ex.taken_pc is None)
        },
{
    // Decode the latched instruction
    let raw_inst = current_state.if_id.raw_inst;
    let inst = match stages_simple::instruction_decode(raw_inst) {
        Ok(i) => i,
        Err(e) => {
            return Err(e);
        },
    };

    proof {
        decode_helper::lemma_fields_in_range(raw_inst);
    }

    // WB hazard -> forwarded value; otherwise the register file
    let op1: i32;
    if current_state.wb_hazard_op1(&inst) {
        op1 = current_state.mem_wb.wb_result as i32;
    } else {
        let rs1_index = match inst.attributes.rs1 {
            Some(v) => v,
            None => 0,
        };
        op1 = cpu.gpr[rs1_index as usize].read() as i32;
    }

    let op2: i32;
    if current_state.wb_hazard_op2(&inst) {
        op2 = current_state.mem_wb.wb_result as i32;
    } else {
        let rs2_index = match inst.attributes.rs2 {
            Some(v) => v,
            None => 0,
        };
        op2 = cpu.gpr[rs2_index as usize].read() as i32;
    }

    let pc = current_state.if_id.pc;
    next_state.id_ex.pc = pc;
    next_state.id_ex.inst = inst;
    next_state.id_ex.op1 = op1;
    next_state.id_ex.op2 = op2;

    if inst.opcode == Opcode::Branch {
        // Precompute the branch target
        proof {
            assert(inst.attributes.imm is Some);
        }
        let imm = match inst.attributes.imm {
            Some(v) => v,
            None => vstd::pervasive::unreached(),
        };
        next_state.id_ex.taken_pc = Some(pc.wrapping_add(imm));
    } else {
        // No precomputed branch target
        next_state.id_ex.taken_pc = None;
    }
    Ok(())
}

/// The first operand EX uses, after three-way forwarding: the EX/MEM
/// result, then the MEM/WB result, then the latched operand.
pub open spec fn fw_op1(current: PipelineState) -> i32 {
    if current.id_ex.inst.attributes.rs1 != Some(0u32) && current.ex_mem.inst.controls.reg_write
        && current.ex_mem.inst.attributes.rd == current.id_ex.inst.attributes.rs1 {
        current.ex_mem.exec_result
    } else if current.id_ex.inst.attributes.rs1 != Some(0u32)
        && current.mem_wb.inst.controls.reg_write && current.mem_wb.inst.attributes.rd
        == current.id_ex.inst.attributes.rs1 {
        current.mem_wb.wb_result as i32
    } else {
        current.id_ex.op1
    }
}

/// The second operand EX uses, symmetrical to `fw_op1`.
pub open spec fn fw_op2(current: PipelineState) -> i32 {
    if current.id_ex.inst.attributes.rs2 != Some(0u32) && current.ex_mem.inst.controls.reg_write
        && current.ex_mem.inst.attributes.rd == current.id_ex.inst.attributes.rs2 {
        current.ex_mem.exec_result
    } else if current.id_ex.inst.attributes.rs2 != Some(0u32)
        && current.mem_wb.inst.controls.reg_write && current.mem_wb.inst.attributes.rd
        == current.id_ex.inst.attributes.rs2 {
        current.mem_wb.wb_result as i32
    } else {
        current.id_ex.op2
    }
}

/// EX: forwards the freshest operand values and executes the ID/EX
/// instruction, latching the result into EX/MEM.
pub fn execute(
    cpu: &mut CPUState,
    mem: &mut InclusiveCache,
    io: &mut SyscallIO,
    current_state: &PipelineState,
    next_state: &mut PipelineState,
) -> (r: SimulatorResult<()>)
    requires
        old(cpu).wf(),
        old(mem).wf(),
        old(io).wf(),
        current_state.wf(),
        stages_simple::history_headroom(old(cpu).history),
    ensures
        final(cpu).wf(),
        final(mem).wf(),
        final(io).wf(),
        final(next_state).if_id == old(next_state).if_id,
        final(next_state).id_ex == old(next_state).id_ex,
        final(next_state).mem_wb == old(next_state).mem_wb,
        final(cpu).history.inst_count == old(cpu).history.inst_count + 1,
        final(cpu).history == (crate::cpu::CPUHistory {
            inst_count: final(cpu).history.inst_count,
            ..old(cpu).history
        }),
        *final(cpu) == (CPUState { history: final(cpu).history, ..*old(cpu) }),
        InclusiveCache::same_shape(*old(mem), *final(mem)),
        final(mem).mmu == old(mem).mmu,
        final(io).input == old(io).input,
        current_state.id_ex.inst.opcode != Opcode::System ==> r is Ok,
        r is Err ==> !(r->Err_0 matches SimulatorError::ExecutionError(
            crate::error::ExecutionError::ExecutionLimitReached(_),
        )),
        r is Err ==> current_state.id_ex.inst.opcode == Opcode::System && syscall_post(
            fw_op1(*current_state),
            fw_op2(*current_state),
            *old(mem),
            *final(mem),
            *old(io),
            *final(io),
            Err(r->Err_0),
        ),
        r is Ok ==> {
            &&& final(next_state).ex_mem.pc == current_state.id_ex.pc
            &&& final(next_state).ex_mem.inst == current_state.id_ex.inst
            &&& final(next_state).ex_mem.op2 == fw_op2(*current_state)
            &&& final(next_state).ex_mem.taken_pc == current_state.id_ex.taken_pc
            &&& current_state.id_ex.inst.opcode != Opcode::System ==> final(next_state).ex_mem.exec_result == crate::alu::spec_alu(
                current_state.id_ex.inst.controls.alu_op,
                fw_op1(*current_state),
                stages_simple::effective_op2(current_state.id_ex.inst, fw_op2(*current_state)),
            ) && *final(mem) == *old(mem) && *final(io) == *old(io)
            &&& current_state.id_ex.inst.opcode == Opcode::System ==> syscall_post(
                fw_op1(*current_state),
                fw_op2(*current_state),
                *old(mem),
                *final(mem),
                *old(io),
                *final(io),
                Ok(final(next_state).ex_mem.exec_result),
            )
        },
        r is Err ==> *final(next_state) == *old(next_state),
{
    let pc = current_state.id_ex.pc;
    let inst = current_state.id_ex.inst;

    // EX hazard -> MEM hazard -> the latched operand
    let op1: i32;
    if current_state.ex_hazard_op1() {
        op1 = current_state.ex_mem.exec_result;
    } else if current_state.mem_hazard_op1() {
        op1 = current_state.mem_wb.wb_result as i32;
    } else {
        op1 = current_state.id_ex.op1;
    }

    let op2: i32;
    if current_state.ex_hazard_op2() {
        op2 = current_state.ex_mem.exec_result;
    } else if current_state.mem_hazard_op2() {
        op2 = current_state.mem_wb.wb_result as i32;
    } else {
        op2 = current_state.id_ex.op2;
    }

    let exec_result = match stages_simple::execute(cpu, mem, io, &inst, op1, op2) {
        Ok(v) => v,
        Err(e) => {
            return Err(e);
        },
    };

    next_state.ex_mem.pc = pc;
    next_state.ex_mem.inst = inst;
    next_state.ex_mem.exec_result = exec_result;
    next_state.ex_mem.op2 = op2;
    next_state.ex_mem.taken_pc = current_state.id_ex.taken_pc;
    Ok(())
}

/// MEM: performs the latched load or store and computes the write-back
/// value into MEM/WB.
pub fn memory_access(
    cpu: &mut CPUState,
    mem: &mut InclusiveCache,
    current_state: &PipelineState,
    next_state: &mut PipelineState,
) -> (r: SimulatorResult<()>)
    requires
        old(cpu).wf(),
        old(mem).wf(),
        current_state.wf(),
        stages_simple::history_headroom(old(cpu).history),
    ensures
        final(cpu).wf(),
        final(mem).wf(),
        InclusiveCache::same_shape(*old(mem), *final(mem)),
        forall|a2: u32| final(mem).mmu.spec_allocated(a2) == old(mem).mmu.spec_allocated(a2),
        final(next_state).if_id == old(next_state).if_id,
        final(next_state).id_ex == old(next_state).id_ex,
        final(next_state).ex_mem == old(next_state).ex_mem,
        final(cpu).history == (crate::cpu::CPUHistory {
            mem_stall_count: final(cpu).history.mem_stall_count,
            mem_stall_worst_count: final(cpu).history.mem_stall_worst_count,
            ..old(cpu).history
        }),
        *final(cpu) == (CPUState { history: final(cpu).history, ..*old(cpu) }),
        old(cpu).history.mem_stall_count <= final(cpu).history.mem_stall_count <= old(cpu).history.mem_stall_count + 0x8000_0000,
        old(cpu).history.mem_stall_worst_count <= final(cpu).history.mem_stall_worst_count <= old(cpu).history.mem_stall_worst_count + 0x8000_0000,
        !current_state.ex_mem.inst.controls.mem_read
            && !current_state.ex_mem.inst.controls.mem_write ==> r is Ok && final(next_state).mem_wb.wb_result == stages_simple::wb_value(
            current_state.ex_mem.pc,
            current_state.ex_mem.inst,
            current_state.ex_mem.exec_result,
        ) && *final(mem) == *old(mem),
        current_state.ex_mem.inst.controls.mem_read ==> {
            &&& storage::load_ok(
                old(mem).mmu,
                current_state.ex_mem.exec_result as u32,
                current_state.ex_mem.inst.controls.mem_step,
            ) ==> r is Ok && final(next_state).mem_wb.wb_result == storage::loaded_value(
                old(mem).mmu,
                current_state.ex_mem.exec_result as u32,
                current_state.ex_mem.inst.controls.mem_step,
            ) && final(mem).mmu == old(mem).mmu
            &&& !storage::load_ok(
                old(mem).mmu,
                current_state.ex_mem.exec_result as u32,
                current_state.ex_mem.inst.controls.mem_step,
            ) ==> r is Err
        },
        current_state.ex_mem.inst.controls.mem_write ==> {
            &&& storage::load_ok(
                old(mem).mmu,
                current_state.ex_mem.exec_result as u32,
                current_state.ex_mem.inst.controls.mem_step,
            ) ==> r is Ok && final(next_state).mem_wb.wb_result == stages_simple::wb_value(
                current_state.ex_mem.pc,
                current_state.ex_mem.inst,
                current_state.ex_mem.exec_result,
            ) && (forall|i: int|
                0 <= i < current_state.ex_mem.inst.controls.mem_step
                    ==> #[trigger] final(mem).mmu.spec_byte(
                    (current_state.ex_mem.exec_result as u32).wrapping_add(i as u32),
                ) == storage::stored_byte(current_state.ex_mem.op2 as u32, i)) && final(mem).mmu.pages() == storage::pg_store(
                old(mem).mmu.pages(),
                current_state.ex_mem.exec_result as u32,
                current_state.ex_mem.inst.controls.mem_step,
                current_state.ex_mem.op2 as u32,
            )
            &&& !storage::load_ok(
                old(mem).mmu,
                current_state.ex_mem.exec_result as u32,
                current_state.ex_mem.inst.controls.mem_step,
            ) ==> r is Err
        },
        r is Ok ==> {
            &&& final(next_state).mem_wb.pc == current_state.ex_mem.pc
            &&& final(next_state).mem_wb.inst == current_state.ex_mem.inst
        },
        r is Err ==> *final(next_state) == *old(next_state) && (r->Err_0 matches
            SimulatorError::MemoryError(_)),
{
    let pc = current_state.ex_mem.pc;
    let inst = current_state.ex_mem.inst;
    let exec_result = current_state.ex_mem.exec_result;
    let op2 = current_state.ex_mem.op2;

    let wb_result = match stages_simple::memory_access(pc, &inst, cpu, mem, exec_result, op2) {
        Ok(v) => v,
        Err(e) => {
            return Err(e);
        },
    };

    next_state.mem_wb.pc = pc;
    next_state.mem_wb.inst = inst;
    next_state.mem_wb.wb_result = wb_result;
    Ok(())
}

/// WB: writes the MEM/WB result to its destination register; x0 stays
/// hard-wired to zero.
pub fn write_back(cpu: &mut CPUState, current_state: &PipelineState)
    requires
        old(cpu).wf(),
        current_state.wf(),
    ensures
        final(cpu).wf(),
        *final(cpu) == (CPUState { gpr: final(cpu).gpr, ..*old(cpu) }),
        final(cpu).gpr.len() == 32,
        current_state.mem_wb.inst.controls.reg_write
            && current_state.mem_wb.inst.attributes.rd->Some_0 != 0 ==> final(cpu).gpr@ == old(cpu).gpr@.update(
            current_state.mem_wb.inst.attributes.rd->Some_0 as int,
            (crate::cpu::Register { data: current_state.mem_wb.wb_result }),
        ),
        !(current_state.mem_wb.inst.controls.reg_write
            && current_state.mem_wb.inst.attributes.rd->Some_0 != 0) ==> final(cpu).gpr == old(cpu).gpr,
{
    let pc = current_state.mem_wb.pc;
    let inst = current_state.mem_wb.inst;
    let wb_result = current_state.mem_wb.wb_result;

    stages_simple::write_back(pc, &inst, cpu, wb_result);
}

} // verus!
