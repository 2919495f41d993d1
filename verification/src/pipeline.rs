//! Pipeline state: the four latches IF/ID, ID/EX, EX/MEM and MEM/WB, and
//! the hazard tests the driver runs on them.

use vstd::prelude::*;

use crate::decode_helper;
use crate::error::SimulatorError;
use crate::error::SimulatorResult;
use crate::instruction::Instruction;
use crate::instruction::NOP;
use crate::instruction::Opcode;

verus! {

/// Compares two optional register fields.
fn opt_eq(a: Option<u32>, b: Option<u32>) -> (r: bool)
    ensures
        r == (a == b),
{
    match (a, b) {
        (None, None) => true,
        (Some(x), Some(y)) => x == y,
        _ => false,
    }
}

/// Pipeline state: the four pipeline registers.
#[derive(Clone, Copy)]
pub struct PipelineState {
    pub if_id: IFIDRegister,
    pub id_ex: IDEXRegister,
    pub ex_mem: EXMEMRegister,
    pub mem_wb: MEMWBRegister,
}

/// An instruction whose write-back value is finalized only after the MEM
/// stage: a load, or LUI/AUIPC/JAL/JALR.
pub open spec fn uses_late_result(op: Opcode) -> bool {
    op == Opcode::Lui || op == Opcode::AuiPc || op == Opcode::Jal || op == Opcode::Jalr || op
        == Opcode::Load
}

/// A load-use hazard: the instruction in ID/EX resolves its result only
/// after MEM, and the instruction just fetched reads that register.
pub open spec fn spec_load_hazard(s: PipelineState) -> bool {
    uses_late_result(s.id_ex.inst.opcode) && {
        let fetched = decode_helper::decoded(s.if_id.raw_inst);
        fetched.attributes.rs1 == s.id_ex.inst.attributes.rd || fetched.attributes.rs2
            == s.id_ex.inst.attributes.rd
    }
}

impl PipelineState {
    /// All latched instructions are well formed, and branch latches carry
    /// their precomputed target.
    pub open spec fn wf(self) -> bool {
        &&& self.id_ex.inst.wf()
        &&& self.ex_mem.inst.wf()
        &&& self.mem_wb.inst.wf()
        &&& self.ex_mem.inst.opcode == Opcode::Branch ==> self.ex_mem.taken_pc is Some
        &&& self.id_ex.inst.opcode == Opcode::Branch ==> self.id_ex.taken_pc is Some
    }

    /// Detects a load-use hazard between ID/EX and the freshly fetched
    /// instruction, which is decoded for the test.
    pub fn load_hazard(&self) -> (r: SimulatorResult<bool>)
        ensures
            decode_helper::decode_ok(self.if_id.raw_inst) ==> r == Ok::<bool, SimulatorError>(
                spec_load_hazard(*self),
            ),
            !decode_helper::decode_ok(self.if_id.raw_inst) && uses_late_result(
                self.id_ex.inst.opcode,
            ) ==> r == Err::<bool, SimulatorError>(
                SimulatorError::InvalidInstructionError(self.if_id.raw_inst, 0),
            ),
            !decode_helper::decode_ok(self.if_id.raw_inst) && !uses_late_result(
                self.id_ex.inst.opcode,
            ) ==> r == Ok::<bool, SimulatorError>(false),
    {
        match self.id_ex.inst.opcode {
            Opcode::Lui | Opcode::AuiPc | Opcode::Jal | Opcode::Jalr | Opcode::Load => {
                let if_id_inst = match Instruction::new(self.if_id.raw_inst) {
                    Ok(i) => i,
                    Err(e) => {
                        return Err(e);
                    },
                };
                Ok(
                    opt_eq(if_id_inst.attributes.rs1, self.id_ex.inst.attributes.rd) || opt_eq(
                        if_id_inst.attributes.rs2,
                        self.id_ex.inst.attributes.rd,
                    ),
                )
            },
            _ => Ok(false),
        }
    }

    /// Operand 1 can be forwarded from the previous execution result.
    pub fn ex_hazard_op1(&self) -> (r: bool)
        ensures
            r == (self.id_ex.inst.attributes.rs1 != Some(0u32)
                && self.ex_mem.inst.controls.reg_write && self.ex_mem.inst.attributes.rd
                == self.id_ex.inst.attributes.rs1),
    {
        !opt_eq(self.id_ex.inst.attributes.rs1, Some(0)) && self.ex_mem.inst.controls.reg_write
            && opt_eq(self.ex_mem.inst.attributes.rd, self.id_ex.inst.attributes.rs1)
    }

    /// Operand 2 can be forwarded from the previous execution result.
    pub fn ex_hazard_op2(&self) -> (r: bool)
        ensures
            r == (self.id_ex.inst.attributes.rs2 != Some(0u32)
                && self.ex_mem.inst.controls.reg_write && self.ex_mem.inst.attributes.rd
                == self.id_ex.inst.attributes.rs2),
    {
        !opt_eq(self.id_ex.inst.attributes.rs2, Some(0)) && self.ex_mem.inst.controls.reg_write
            && opt_eq(self.ex_mem.inst.attributes.rd, self.id_ex.inst.attributes.rs2)
    }

    /// Operand 1 can be forwarded from the previous memory access result;
    /// checked only when the EX-stage forward does not apply.
    pub fn mem_hazard_op1(&self) -> (r: bool)
        ensures
            r == (self.id_ex.inst.attributes.rs1 != Some(0u32)
                && self.mem_wb.inst.controls.reg_write && self.mem_wb.inst.attributes.rd
                == self.id_ex.inst.attributes.rs1),
    {
        !opt_eq(self.id_ex.inst.attributes.rs1, Some(0)) && self.mem_wb.inst.controls.reg_write
            && opt_eq(self.mem_wb.inst.attributes.rd, self.id_ex.inst.attributes.rs1)
    }

    /// Operand 2 can be forwarded from the previous memory access result;
    /// checked only when the EX-stage forward does not apply.
    pub fn mem_hazard_op2(&self) -> (r: bool)
        ensures
            r == (self.id_ex.inst.attributes.rs2 != Some(0u32)
                && self.mem_wb.inst.controls.reg_write && self.mem_wb.inst.attributes.rd
                == self.id_ex.inst.attributes.rs2),
    {
        !opt_eq(self.id_ex.inst.attributes.rs2, Some(0)) && self.mem_wb.inst.controls.reg_write
            && opt_eq(self.mem_wb.inst.attributes.rd, self.id_ex.inst.attributes.rs2)
    }

    /// Operand 1 of the instruction in ID was just written back and must
    /// be forwarded around the register file.
    pub fn wb_hazard_op1(&self, inst: &Instruction) -> (r: bool)
        ensures
            r == (inst.attributes.rs1 != Some(0u32) && self.mem_wb.inst.controls.reg_write
                && inst.attributes.rs1 == self.mem_wb.inst.attributes.rd),
    {
        !opt_eq(inst.attributes.rs1, Some(0)) && self.mem_wb.inst.controls.reg_write && opt_eq(
            inst.attributes.rs1,
            self.mem_wb.inst.attributes.rd,
        )
    }

    /// Operand 2 of the instruction in ID was just written back and must
    /// be forwarded around the register file.
    pub fn wb_hazard_op2(&self, inst: &Instruction) -> (r: bool)
        ensures
            r == (inst.attributes.rs2 != Some(0u32) && self.mem_wb.inst.controls.reg_write
                && inst.attributes.rs2 == self.mem_wb.inst.attributes.rd),
    {
        !opt_eq(inst.attributes.rs2, Some(0)) && self.mem_wb.inst.controls.reg_write && opt_eq(
            inst.attributes.rs2,
            self.mem_wb.inst.attributes.rd,
        )
    }
}

impl Default for PipelineState {
    /// All latches carry the NOP with zeroed data.
    fn default() -> (r: Self)
        ensures
            r.wf(),
            r.if_id.raw_inst == NOP,
            r.if_id.pc == 0,
            r.id_ex.inst == decode_helper::decoded(NOP),
            r.ex_mem.inst == decode_helper::decoded(NOP),
            r.mem_wb.inst == decode_helper::decoded(NOP),
            r.ex_mem.op2 == 0,
            r.id_ex.pc == 0,
            r.ex_mem.pc == 0,
            r.mem_wb.pc == 0,
            r.id_ex.op1 == 0,
            r.id_ex.op2 == 0,
            r.id_ex.taken_pc is None,
            r.ex_mem.exec_result == 0,
            r.ex_mem.taken_pc is None,
            r.mem_wb.wb_result == 0,
    {
        proof {
            decode_helper::lemma_nop_fields();
        }
        PipelineState {
            if_id: IFIDRegister::default(),
            id_ex: IDEXRegister::default(),
            ex_mem: EXMEMRegister::default(),
            mem_wb: MEMWBRegister::default(),
        }
    }
}

/// IF/ID register.
#[derive(Clone, Copy)]
pub struct IFIDRegister {
    /// Program counter.
    pub pc: u32,
    /// Raw instruction.
    pub raw_inst: u32,
}

impl Default for IFIDRegister {
    /// PC zero, with the NOP encoding latched.
    fn default() -> (r: Self)
        ensures
            r.pc == 0,
            r.raw_inst == NOP,
    {
        Self { pc: 0, raw_inst: NOP }
    }
}

/// ID/EX register.
#[derive(Clone, Copy)]
pub struct IDEXRegister {
    /// Program counter.
    pub pc: u32,
    /// Wrapped instruction.
    pub inst: Instruction,
    /// Operand 1.
    pub op1: i32,
    /// Operand 2.
    pub op2: i32,
    /// PC if the branch is taken.
    pub taken_pc: Option<u32>,
}

impl Default for IDEXRegister {
    /// The decoded NOP with zero operands.
    fn default() -> (r: Self)
        ensures
            r.pc == 0,
            r.inst == decode_helper::decoded(NOP),
            r.inst.wf(),
            r.op1 == 0,
            r.op2 == 0,
            r.taken_pc is None,
    {
        Self { pc: 0, inst: Instruction::default(), op1: 0, op2: 0, taken_pc: None }
    }
}

/// EX/MEM register.
#[derive(Clone, Copy)]
pub struct EXMEMRegister {
    /// Program counter.
    pub pc: u32,
    /// Wrapped instruction.
    pub inst: Instruction,
    /// Execution result.
    pub exec_result: i32,
    /// Operand 2.
    pub op2: i32,
    /// PC if the branch is taken.
    pub taken_pc: Option<u32>,
}

impl Default for EXMEMRegister {
    /// The decoded NOP with zeroed data.
    fn default() -> (r: Self)
        ensures
            r.pc == 0,
            r.inst == decode_helper::decoded(NOP),
            r.inst.wf(),
            r.exec_result == 0,
            r.op2 == 0,
            r.taken_pc is None,
    {
        Self { pc: 0, inst: Instruction::default(), exec_result: 0, op2: 0, taken_pc: None }
    }
}

/// MEM/WB register.
#[derive(Clone, Copy)]
pub struct MEMWBRegister {
    /// Program counter.
    pub pc: u32,
    /// Wrapped instruction.
    pub inst: Instruction,
    /// The write-back result, computed during the MEM stage.
    pub wb_result: u32,
}

impl Default for MEMWBRegister {
    /// The decoded NOP with a zero result.
    fn default() -> (r: Self)
        ensures
            r.pc == 0,
            r.inst == decode_helper::decoded(NOP),
            r.inst.wf(),
            r.wb_result == 0,
    {
        Self { pc: 0, inst: Instruction::default(), wb_result: 0 }
    }
}

} // verus!
