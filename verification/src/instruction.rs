//! Instruction representation: a raw 32-bit word together with everything
//! decoding derives from it — opcode, format, mnemonic, field attributes
//! and control signals.

use vstd::prelude::*;

use crate::alu::ALUOp;
use crate::alu::ALUSrc;
use crate::decode_helper;
use crate::error::SimulatorError;
use crate::error::SimulatorResult;

verus! {

/// NOP: `ADDI x0, x0, 0`.
pub const NOP: u32 = 0x13;

/// Wrapped instruction, immutable after decode.
#[derive(Clone, Copy, Debug, PartialEq)]
pub struct Instruction {
    /// Raw representation.
    pub raw_inst: u32,
    /// Opcode.
    pub opcode: Opcode,
    /// Format.
    pub format: Format,
    /// Function mnemonic.
    pub function: Function,
    /// Subfields.
    pub attributes: Attributes,
    /// Control signals.
    pub controls: Controls,
}

impl Instruction {
    /// An instruction is well formed when it is exactly what decoding its
    /// raw word yields.
    pub open spec fn wf(self) -> bool {
        decode_helper::decode_ok(self.raw_inst) && self == decode_helper::decoded(self.raw_inst)
    }

    /// Decodes a raw word.  Succeeds on every well-formed RV32I word and
    /// fails with `InvalidInstructionError` on any other.
    pub fn new(raw_inst: u32) -> (r: SimulatorResult<Self>)
        ensures
            decode_helper::decode_ok(raw_inst) ==> r == Ok::<Self, SimulatorError>(
                decode_helper::decoded(raw_inst),
            ),
            !decode_helper::decode_ok(raw_inst) ==> r == Err::<Self, SimulatorError>(
                SimulatorError::InvalidInstructionError(raw_inst, 0),
            ),
            r is Ok ==> r->Ok_0.wf(),
    {
        let opcode = match decode_helper::raw_to_opcode(raw_inst) {
            Ok(o) => o,
            Err(e) => {
                return Err(e);
            },
        };
        let format = decode_helper::opcode_to_format(opcode);
        let attributes = Attributes::default();
        let function = Function::default();
        let controls = Controls::default();

        let mut inst = Self { raw_inst, opcode, format, function, attributes, controls };

        match decode_helper::parse(&mut inst) {
            Ok(()) => Ok(inst),
            Err(e) => Err(e),
        }
    }
}

impl Default for Instruction {
    /// The decoded NOP (`ADDI x0, x0, 0`).
    fn default() -> (r: Self)
        ensures
            r == decode_helper::decoded(NOP),
            r.wf(),
    {
        proof {
            assert(0x13u32 & 0x7f == 0x13 && ((0x13u32 >> 12) & 0x7) == 0) by (bit_vector);
        }
        match Instruction::new(NOP) {
            Ok(inst) => inst,
            Err(_) => vstd::pervasive::unreached(),
        }
    }
}

/// RV32I opcode.
#[derive(Clone, Copy, Debug, PartialEq, Eq, Structural)]
pub enum Opcode {
    Lui,
    AuiPc,
    Jal,
    Jalr,
    Branch,
    Load,
    Store,
    Op,
    OpImm,
    System,
}

/// RV32I instruction format.
#[derive(Clone, Copy, Debug, PartialEq, Eq, Structural)]
pub enum Format {
    R,
    I,
    S,
    B,
    U,
    J,
    Sys,
}

/// RV32I function mnemonic.
#[derive(Clone, Copy, Debug, PartialEq, Eq, Structural)]
pub enum Function {
    LUI,
    AUIPC,
    JAL,
    JALR,
    BEQ,
    BNE,
    BLT,
    BGE,
    BLTU,
    BGEU,
    LB,
    LH,
    LW,
    LBU,
    LHU,
    SB,
    SH,
    SW,
    ADDI,
    SLTI,
    SLTIU,
    XORI,
    ORI,
    ANDI,
    SLLI,
    SRLI,
    SRAI,
    ADD,
    SUB,
    SLL,
    SLT,
    SLTU,
    XOR,
    SRL,
    SRA,
    OR,
    AND,
    ECALL,
}

impl Default for Function {
    /// The placeholder mnemonic used before decoding resolves the real one.
    fn default() -> (r: Self)
        ensures
            r == Function::ADDI,
    {
        Function::ADDI
    }
}

/// Instruction attributes: the subfields a format carries.
#[derive(Clone, Copy, Debug, PartialEq)]
pub struct Attributes {
    pub opcode: Option<u32>,
    pub rs1: Option<u32>,
    pub rs2: Option<u32>,
    pub rd: Option<u32>,
    pub funct3: Option<u32>,
    pub funct7: Option<u32>,
    pub imm: Option<u32>,
}

impl Default for Attributes {
    /// All subfields absent.
    fn default() -> (r: Self)
        ensures
            r == (Attributes {
                opcode: None,
                rs1: None,
                rs2: None,
                rd: None,
                funct3: None,
                funct7: None,
                imm: None,
            }),
    {
        Attributes {
            opcode: None,
            rs1: None,
            rs2: None,
            rd: None,
            funct3: None,
            funct7: None,
            imm: None,
        }
    }
}

/// Control signals derived from opcode and function.
#[derive(Clone, Copy, Debug, PartialEq)]
pub struct Controls {
    pub branch: bool,
    pub mem_read: bool,
    pub mem_write: bool,
    pub reg_write: bool,
    pub mem_step: u32,
    pub alu_op: ALUOp,
    pub alu_src: ALUSrc,
}

impl Default for Controls {
    /// All signals off, with the ADD operation and register source.
    fn default() -> (r: Self)
        ensures
            r == (Controls {
                branch: false,
                mem_read: false,
                mem_write: false,
                reg_write: false,
                mem_step: 0,
                alu_op: ALUOp::ADD,
                alu_src: ALUSrc::REG,
            }),
    {
        Controls {
            branch: false,
            mem_read: false,
            mem_write: false,
            reg_write: false,
            mem_step: 0,
            alu_op: ALUOp::ADD,
            alu_src: ALUSrc::REG,
        }
    }
}

} // verus!
