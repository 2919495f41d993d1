//! Decoding helper functions: from a raw 32-bit word to opcode, format,
//! field attributes, mnemonic and control signals.
//!
//! Every step is specified as a pure function of the raw word, and the
//! executable decoders are proved to return exactly those values.

use vstd::prelude::*;

use crate::alu::ALUOp;
use crate::alu::ALUSrc;
use crate::error::SimulatorError;
use crate::error::SimulatorResult;
use crate::instruction::Attributes;
use crate::instruction::Controls;
use crate::instruction::Format;
use crate::instruction::Function;
use crate::instruction::Instruction;
use crate::instruction::Opcode;

verus! {

/// Low 7 bits: the opcode field.
pub open spec fn s_opcode(w: u32) -> u32 {
    w & 0x7f
}

/// Bits 11:7, the rd field.
pub open spec fn s_rd(w: u32) -> u32 {
    (w >> 7) & 0x1f
}

/// Bits 14:12, the funct3 field.
pub open spec fn s_funct3(w: u32) -> u32 {
    (w >> 12) & 0x7
}

/// Bits 19:15, the rs1 field.
pub open spec fn s_rs1(w: u32) -> u32 {
    (w >> 15) & 0x1f
}

/// Bits 24:20, the rs2 field.
pub open spec fn s_rs2(w: u32) -> u32 {
    (w >> 20) & 0x1f
}

/// Bits 31:25, the funct7 field.
pub open spec fn s_funct7(w: u32) -> u32 {
    (w >> 25) & 0x7f
}

/// Bit 30, which discriminates ADD/SUB, SRL/SRA and SRLI/SRAI.
pub open spec fn s_bit30(w: u32) -> u32 {
    (w & 0x40000000) >> 30
}

/// The opcode a raw word maps to, if any.
pub open spec fn opcode_of(w: u32) -> Option<Opcode> {
    let op = w & 0x7f;
    if op == 0x37 {
        Some(Opcode::Lui)
    } else if op == 0x17 {
        Some(Opcode::AuiPc)
    } else if op == 0x6f {
        Some(Opcode::Jal)
    } else if op == 0x67 {
        Some(Opcode::Jalr)
    } else if op == 0x63 {
        Some(Opcode::Branch)
    } else if op == 0x03 {
        Some(Opcode::Load)
    } else if op == 0x23 {
        Some(Opcode::Store)
    } else if op == 0x33 {
        Some(Opcode::Op)
    } else if op == 0x13 {
        Some(Opcode::OpImm)
    } else if op == 0x73 {
        Some(Opcode::System)
    } else {
        None
    }
}

/// The format each opcode decodes under.
pub open spec fn format_of(opcode: Opcode) -> Format {
    match opcode {
        Opcode::Lui => Format::U,
        Opcode::AuiPc => Format::U,
        Opcode::Jal => Format::J,
        Opcode::Jalr => Format::I,
        Opcode::Branch => Format::B,
        Opcode::Load => Format::I,
        Opcode::Store => Format::S,
        Opcode::Op => Format::R,
        Opcode::OpImm => Format::I,
        Opcode::System => Format::Sys,
    }
}

/// The format of a raw word, read directly off its low 7 bits.
pub open spec fn spec_format_of_raw(w: u32) -> Format {
    let op = w & 0x7f;
    if op == 0x37 || op == 0x17 {
        Format::U
    } else if op == 0x6f {
        Format::J
    } else if op == 0x67 || op == 0x03 || op == 0x13 {
        Format::I
    } else if op == 0x63 {
        Format::B
    } else if op == 0x23 {
        Format::S
    } else if op == 0x33 {
        Format::R
    } else {
        Format::Sys
    }
}

/// An OP-IMM word whose funct3 selects a shift: its immediate is the raw
/// shamt (rs2) field.
pub open spec fn is_shift_imm(w: u32) -> bool {
    (w & 0x7f) == 0x13 && (s_funct3(w) == 1 || s_funct3(w) == 5)
}

/// Raw immediate of an I-type word.
pub open spec fn raw_imm_i(w: u32) -> u32 {
    if is_shift_imm(w) {
        s_rs2(w)
    } else {
        (w & 0xfff00000) >> 20
    }
}

/// Raw immediate of an S-type word.
pub open spec fn raw_imm_s(w: u32) -> u32 {
    ((w & 0xfe000000) >> 20) | ((w & 0xf80) >> 7)
}

/// Raw immediate of a B-type word.
pub open spec fn raw_imm_b(w: u32) -> u32 {
    ((w & 0x80000000) >> 19) | ((w & 0x80) << 4) | ((w & 0x7e000000) >> 20) | ((w & 0xf00) >> 7)
}

/// Raw immediate of a U-type word.
pub open spec fn raw_imm_u(w: u32) -> u32 {
    w & 0xfffff000
}

/// Raw immediate of a J-type word.
pub open spec fn raw_imm_j(w: u32) -> u32 {
    ((w & 0x80000000) >> 11) | (w & 0xff000) | ((w & 0x100000) >> 9) | ((w & 0x7fe00000) >> 20)
}

/// The attributes a format extracts, before sign extension.
pub open spec fn base_attrs(w: u32, f: Format) -> Attributes {
    match f {
        Format::R => Attributes {
            opcode: Some(s_opcode(w)),
            rs1: Some(s_rs1(w)),
            rs2: Some(s_rs2(w)),
            rd: Some(s_rd(w)),
            funct3: Some(s_funct3(w)),
            funct7: Some(s_funct7(w)),
            imm: None,
        },
        Format::I => Attributes {
            opcode: Some(s_opcode(w)),
            rs1: Some(s_rs1(w)),
            rs2: None,
            rd: Some(s_rd(w)),
            funct3: Some(s_funct3(w)),
            funct7: None,
            imm: Some(raw_imm_i(w)),
        },
        Format::S => Attributes {
            opcode: Some(s_opcode(w)),
            rs1: Some(s_rs1(w)),
            rs2: Some(s_rs2(w)),
            rd: None,
            funct3: Some(s_funct3(w)),
            funct7: None,
            imm: Some(raw_imm_s(w)),
        },
        Format::B => Attributes {
            opcode: Some(s_opcode(w)),
            rs1: Some(s_rs1(w)),
            rs2: Some(s_rs2(w)),
            rd: None,
            funct3: Some(s_funct3(w)),
            funct7: None,
            imm: Some(raw_imm_b(w)),
        },
        Format::U => Attributes {
            opcode: Some(s_opcode(w)),
            rs1: None,
            rs2: None,
            rd: Some(s_rd(w)),
            funct3: None,
            funct7: None,
            imm: Some(raw_imm_u(w)),
        },
        Format::J => Attributes {
            opcode: Some(s_opcode(w)),
            rs1: None,
            rs2: None,
            rd: Some(s_rd(w)),
            funct3: None,
            funct7: None,
            imm: Some(raw_imm_j(w)),
        },
        Format::Sys => Attributes {
            opcode: Some(s_opcode(w)),
            rs1: Some(10),
            rs2: Some(17),
            rd: Some(10),
            funct3: None,
            funct7: None,
            imm: None,
        },
    }
}

/// Sign-extension shift amount per opcode: none for U-type, 12 for J,
/// 19 for B, 20 otherwise.
pub open spec fn imm_shamt(opcode: Opcode) -> u32 {
    match opcode {
        Opcode::Lui => 0,
        Opcode::AuiPc => 0,
        Opcode::Jal => 12,
        Opcode::Branch => 19,
        _ => 20,
    }
}

/// Arithmetic left-then-right shift: keeps the low `32 - shamt` bits and
/// replicates their top bit upward.
pub open spec fn sign_extend(v: u32, shamt: u32) -> u32
    recommends
        shamt < 32,
{
    (((v << shamt) as i32) >> shamt) as u32
}

/// The attributes of a decoded word: the format's fields with the
/// immediate sign-extended.
pub open spec fn decoded_attrs(w: u32, opcode: Opcode) -> Attributes {
    let base = base_attrs(w, format_of(opcode));
    Attributes {
        imm: match base.imm {
            Some(v) => Some(sign_extend(v, imm_shamt(opcode))),
            None => None,
        },
        ..base
    }
}

/// The mnemonic a word resolves to, if its field combination is valid.
pub open spec fn function_of(opcode: Opcode, w: u32) -> Option<Function> {
    match opcode {
        Opcode::Lui => Some(Function::LUI),
        Opcode::AuiPc => Some(Function::AUIPC),
        Opcode::Jal => Some(Function::JAL),
        Opcode::Jalr => Some(Function::JALR),
        Opcode::System => Some(Function::ECALL),
        Opcode::Branch => {
            let f3 = s_funct3(w);
            if f3 == 0 {
                Some(Function::BEQ)
            } else if f3 == 1 {
                Some(Function::BNE)
            } else if f3 == 4 {
                Some(Function::BLT)
            } else if f3 == 5 {
                Some(Function::BGE)
            } else if f3 == 6 {
                Some(Function::BLTU)
            } else if f3 == 7 {
                Some(Function::BGEU)
            } else {
                None
            }
        },
        Opcode::Load => {
            let f3 = s_funct3(w);
            if f3 == 0 {
                Some(Function::LB)
            } else if f3 == 1 {
                Some(Function::LH)
            } else if f3 == 2 {
                Some(Function::LW)
            } else if f3 == 4 {
                Some(Function::LBU)
            } else if f3 == 5 {
                Some(Function::LHU)
            } else {
                None
            }
        },
        Opcode::Store => {
            let f3 = s_funct3(w);
            if f3 == 0 {
                Some(Function::SB)
            } else if f3 == 1 {
                Some(Function::SH)
            } else if f3 == 2 {
                Some(Function::SW)
            } else {
                None
            }
        },
        Opcode::OpImm => {
            let f3 = s_funct3(w);
            if f3 == 0 {
                Some(Function::ADDI)
            } else if f3 == 2 {
                Some(Function::SLTI)
            } else if f3 == 3 {
                Some(Function::SLTIU)
            } else if f3 == 4 {
                Some(Function::XORI)
            } else if f3 == 6 {
                Some(Function::ORI)
            } else if f3 == 7 {
                Some(Function::ANDI)
            } else if f3 == 1 {
                Some(Function::SLLI)
            } else {
                if s_bit30(w) == 0 {
                    Some(Function::SRLI)
                } else {
                    Some(Function::SRAI)
                }
            }
        },
        Opcode::Op => {
            let f3 = s_funct3(w);
            if f3 == 0 {
                if s_bit30(w) == 0 {
                    Some(Function::ADD)
                } else {
                    Some(Function::SUB)
                }
            } else if f3 == 1 {
                Some(Function::SLL)
            } else if f3 == 2 {
                Some(Function::SLT)
            } else if f3 == 3 {
                Some(Function::SLTU)
            } else if f3 == 4 {
                Some(Function::XOR)
            } else if f3 == 5 {
                if s_bit30(w) == 0 {
                    Some(Function::SRL)
                } else {
                    Some(Function::SRA)
                }
            } else if f3 == 6 {
                Some(Function::OR)
            } else {
                Some(Function::AND)
            }
        },
    }
}

/// The ALU operation each mnemonic drives.
pub open spec fn alu_op_of(function: Function) -> ALUOp {
    match function {
        Function::LUI => ALUOp::ADD,
        Function::AUIPC => ALUOp::ADD,
        Function::JAL => ALUOp::BEQ,
        Function::JALR => ALUOp::ADD,
        Function::BEQ => ALUOp::BEQ,
        Function::BNE => ALUOp::BNE,
        Function::BLT => ALUOp::BLT,
        Function::BGE => ALUOp::BGE,
        Function::BLTU => ALUOp::BLTU,
        Function::BGEU => ALUOp::BGEU,
        Function::LB => ALUOp::ADD,
        Function::LH => ALUOp::ADD,
        Function::LW => ALUOp::ADD,
        Function::LBU => ALUOp::ADD,
        Function::LHU => ALUOp::ADD,
        Function::SB => ALUOp::ADD,
        Function::SH => ALUOp::ADD,
        Function::SW => ALUOp::ADD,
        Function::ADDI => ALUOp::ADD,
        Function::SLTI => ALUOp::SLT,
        Function::SLTIU => ALUOp::SLTU,
        Function::XORI => ALUOp::XOR,
        Function::ORI => ALUOp::OR,
        Function::ANDI => ALUOp::AND,
        Function::SLLI => ALUOp::SLL,
        Function::SRLI => ALUOp::SRL,
        Function::SRAI => ALUOp::SRA,
        Function::ADD => ALUOp::ADD,
        Function::SUB => ALUOp::SUB,
        Function::SLL => ALUOp::SLL,
        Function::SLT => ALUOp::SLT,
        Function::SLTU => ALUOp::SLTU,
        Function::XOR => ALUOp::XOR,
        Function::SRL => ALUOp::SRL,
        Function::SRA => ALUOp::SRA,
        Function::OR => ALUOp::OR,
        Function::AND => ALUOp::AND,
        Function::ECALL => ALUOp::ADD,
    }
}

/// The memory access width each mnemonic needs.
pub open spec fn mem_step_of(function: Function) -> u32 {
    match function {
        Function::LB => 1,
        Function::LBU => 1,
        Function::SB => 1,
        Function::LH => 2,
        Function::LHU => 2,
        Function::SH => 2,
        Function::LW => 4,
        Function::SW => 4,
        _ => 0,
    }
}

/// The control signals of a decoded instruction: the one-bit signals depend
/// on the opcode alone, the ALU operation and access width on the mnemonic.
pub open spec fn controls_of(opcode: Opcode, function: Function) -> Controls {
    Controls {
        branch: opcode == Opcode::Branch || opcode == Opcode::Jal || opcode == Opcode::Jalr,
        mem_read: opcode == Opcode::Load,
        mem_write: opcode == Opcode::Store,
        reg_write: !(opcode == Opcode::Branch || opcode == Opcode::Store),
        mem_step: mem_step_of(function),
        alu_op: alu_op_of(function),
        alu_src: if opcode == Opcode::Branch || opcode == Opcode::Op || opcode == Opcode::Jal {
            ALUSrc::REG
        } else {
            ALUSrc::IMM
        },
    }
}

/// A word decodes completely: its opcode is known and its field
/// combination resolves to a mnemonic.
pub open spec fn decode_ok(w: u32) -> bool {
    &&& opcode_of(w) is Some
    &&& function_of(opcode_of(w)->Some_0, w) is Some
}

/// The instruction a well-formed word decodes to.
pub open spec fn decoded(w: u32) -> Instruction
    recommends
        decode_ok(w),
{
    let opcode = opcode_of(w)->Some_0;
    let function = function_of(opcode, w)->Some_0;
    Instruction {
        raw_inst: w,
        opcode,
        format: format_of(opcode),
        function,
        attributes: decoded_attrs(w, opcode),
        controls: controls_of(opcode, function),
    }
}

/// Decoder round trip: for every word with a known opcode, the format
/// derived from the decoded opcode is the format read directly off the
/// word's low 7 bits.
pub proof fn lemma_opcode_format_round_trip(w: u32)
    requires
        opcode_of(w) is Some,
    ensures
        format_of(opcode_of(w)->Some_0) == spec_format_of_raw(w),
{
}

/// Shift-immediate encoding: for an OP-IMM word whose funct3 selects a
/// shift, the decoded immediate is exactly the raw shamt (rs2) field,
/// which sign extension leaves untouched.
pub proof fn lemma_shift_imm_is_shamt(w: u32)
    requires
        (w & 0x7f) == 0x13,
        s_funct3(w) == 1 || s_funct3(w) == 5,
    ensures
        decoded_attrs(w, Opcode::OpImm).imm == Some(s_rs2(w)),
{
    assert((((((w >> 20) & 0x1f) << 20) as i32) >> 20) as u32 == (w >> 20) & 0x1f)
        by (bit_vector);
}

/// The register and function fields a word decodes to are in range: the
/// register selectors fit the 32-entry register file.
pub proof fn lemma_fields_in_range(w: u32)
    ensures
        s_rs1(w) <= 31,
        s_rs2(w) <= 31,
        s_rd(w) <= 31,
        s_funct3(w) <= 7,
{
    assert(((w >> 15) & 0x1f) <= 31 && ((w >> 20) & 0x1f) <= 31 && ((w >> 7) & 0x1f) <= 31 && ((w
        >> 12) & 0x7) <= 7) by (bit_vector);
}

/// How the NOP word (`ADDI x0, x0, 0`) decodes: an OP-IMM ADDI with all
/// fields zero, which neither branches nor touches memory, and whose
/// write-back goes to x0.
pub proof fn lemma_nop_fields()
    ensures
        decode_ok(0x13),
        decoded(0x13).opcode == Opcode::OpImm,
        decoded(0x13).function == Function::ADDI,
        decoded(0x13).attributes.rd == Some(0u32),
        decoded(0x13).attributes.rs1 == Some(0u32),
        decoded(0x13).attributes.rs2 == None::<u32>,
        decoded(0x13).attributes.imm == Some(0u32),
        !decoded(0x13).controls.branch,
        !decoded(0x13).controls.mem_read,
        !decoded(0x13).controls.mem_write,
        decoded(0x13).controls.reg_write,
        decoded(0x13).controls.alu_src == crate::alu::ALUSrc::IMM,
{
    assert((0x13u32 & 0x7f) == 0x13 && ((0x13u32 >> 12) & 0x7) == 0 && ((0x13u32 >> 7) & 0x1f) == 0
        && ((0x13u32 >> 15) & 0x1f) == 0 && ((0x13u32 & 0xfff00000) >> 20) == 0 && ((((0u32
        << 20u32) as i32) >> 20u32) as u32) == 0) by (bit_vector);
}

/// Extracts the sign-extended immediate from an instruction, if its format
/// carries one.
pub fn get_imm_sign_extended(inst: &Instruction) -> (r: Option<u32>)
    ensures
        r == (match inst.attributes.imm {
            Some(v) => Some(sign_extend(v, imm_shamt(inst.opcode))),
            None => None::<u32>,
        }),
{
    let shamt: u32 = match inst.opcode {
        Opcode::Lui | Opcode::AuiPc => 0,
        Opcode::Jal => 12,
        Opcode::Branch => 19,
        _ => 20,
    };

    match inst.attributes.imm {
        Some(v) => Some((((v << shamt) as i32) >> shamt) as u32),
        None => None,
    }
}

/// Determines an instruction's mnemonic, e.g. JAL, XOR or SRA.
pub fn get_function(inst: &Instruction) -> (r: SimulatorResult<Function>)
    requires
        opcode_of(inst.raw_inst) == Some(inst.opcode),
        inst.attributes == decoded_attrs(inst.raw_inst, inst.opcode),
    ensures
        r == (match function_of(inst.opcode, inst.raw_inst) {
            Some(f) => Ok::<Function, SimulatorError>(f),
            None => Err::<Function, SimulatorError>(
                SimulatorError::InvalidInstructionError(inst.raw_inst, 0),
            ),
        }),
{
    // Opcode-determined mnemonics
    match inst.opcode {
        Opcode::Lui => {
            return Ok(Function::LUI);
        },
        Opcode::AuiPc => {
            return Ok(Function::AUIPC);
        },
        Opcode::Jal => {
            return Ok(Function::JAL);
        },
        Opcode::Jalr => {
            return Ok(Function::JALR);
        },
        Opcode::System => {
            return Ok(Function::ECALL);
        },
        _ => {},
    }

    let funct3 = match inst.attributes.funct3 {
        Some(f3) => f3,
        None => {
            return Err(SimulatorError::InvalidInstructionError(inst.raw_inst, 0));
        },
    };

    let funct7_bit = (inst.raw_inst & 0x40000000) >> 30;

    proof {
        let w = inst.raw_inst;
        assert(((w >> 12) & 0x7) <= 7 && ((w & 0x40000000) >> 30) <= 1) by (bit_vector);
    }

    match (inst.opcode, funct3, funct7_bit) {
        (Opcode::Branch, 0b000, _) => Ok(Function::BEQ),
        (Opcode::Branch, 0b001, _) => Ok(Function::BNE),
        (Opcode::Branch, 0b100, _) => Ok(Function::BLT),
        (Opcode::Branch, 0b101, _) => Ok(Function::BGE),
        (Opcode::Branch, 0b110, _) => Ok(Function::BLTU),
        (Opcode::Branch, 0b111, _) => Ok(Function::BGEU),
        (Opcode::Load, 0b000, _) => Ok(Function::LB),
        (Opcode::Load, 0b001, _) => Ok(Function::LH),
        (Opcode::Load, 0b010, _) => Ok(Function::LW),
        (Opcode::Load, 0b100, _) => Ok(Function::LBU),
        (Opcode::Load, 0b101, _) => Ok(Function::LHU),
        (Opcode::Store, 0b000, _) => Ok(Function::SB),
        (Opcode::Store, 0b001, _) => Ok(Function::SH),
        (Opcode::Store, 0b010, _) => Ok(Function::SW),
        (Opcode::OpImm, 0b000, _) => Ok(Function::ADDI),
        (Opcode::OpImm, 0b010, _) => Ok(Function::SLTI),
        (Opcode::OpImm, 0b011, _) => Ok(Function::SLTIU),
        (Opcode::OpImm, 0b100, _) => Ok(Function::XORI),
        (Opcode::OpImm, 0b110, _) => Ok(Function::ORI),
        (Opcode::OpImm, 0b111, _) => Ok(Function::ANDI),
        (Opcode::OpImm, 0b001, _) => Ok(Function::SLLI),
        (Opcode::OpImm, 0b101, 0b0) => Ok(Function::SRLI),
        (Opcode::OpImm, 0b101, 0b1) => Ok(Function::SRAI),
        (Opcode::Op, 0b000, 0b0) => Ok(Function::ADD),
        (Opcode::Op, 0b000, 0b1) => Ok(Function::SUB),
        (Opcode::Op, 0b001, _) => Ok(Function::SLL),
        (Opcode::Op, 0b010, _) => Ok(Function::SLT),
        (Opcode::Op, 0b011, _) => Ok(Function::SLTU),
        (Opcode::Op, 0b100, _) => Ok(Function::XOR),
        (Opcode::Op, 0b101, 0b0) => Ok(Function::SRL),
        (Opcode::Op, 0b101, 0b1) => Ok(Function::SRA),
        (Opcode::Op, 0b110, _) => Ok(Function::OR),
        (Opcode::Op, 0b111, _) => Ok(Function::AND),
        _ => Err(SimulatorError::InvalidInstructionError(inst.raw_inst, 0)),
    }
}

/// Synthesizes the control signals of a decoded instruction.
pub fn get_controls(inst: &Instruction) -> (r: Controls)
    ensures
        r == controls_of(inst.opcode, inst.function),
{
    Controls {
        branch: matches!(inst.opcode, Opcode::Branch | Opcode::Jal | Opcode::Jalr),
        mem_read: matches!(inst.opcode, Opcode::Load),
        mem_write: matches!(inst.opcode, Opcode::Store),
        reg_write: !matches!(inst.opcode, Opcode::Branch | Opcode::Store),
        mem_step: match inst.function {
            Function::LB | Function::LBU | Function::SB => 1,
            Function::LH | Function::LHU | Function::SH => 2,
            Function::LW | Function::SW => 4,
            _ => 0,
        },
        alu_op: match inst.function {
            Function::LUI | Function::AUIPC => ALUOp::ADD,
            Function::JAL => ALUOp::BEQ,
            Function::JALR => ALUOp::ADD,
            Function::BEQ => ALUOp::BEQ,
            Function::BNE => ALUOp::BNE,
            Function::BLT => ALUOp::BLT,
            Function::BGE => ALUOp::BGE,
            Function::BLTU => ALUOp::BLTU,
            Function::BGEU => ALUOp::BGEU,
            Function::LB | Function::LH | Function::LW | Function::LBU | Function::LHU
                | Function::SB | Function::SH | Function::SW => ALUOp::ADD,
            Function::ADDI => ALUOp::ADD,
            Function::SLTI => ALUOp::SLT,
            Function::SLTIU => ALUOp::SLTU,
            Function::XORI => ALUOp::XOR,
            Function::ORI => ALUOp::OR,
            Function::ANDI => ALUOp::AND,
            Function::SLLI => ALUOp::SLL,
            Function::SRLI => ALUOp::SRL,
            Function::SRAI => ALUOp::SRA,
            Function::ADD => ALUOp::ADD,
            Function::SUB => ALUOp::SUB,
            Function::SLL => ALUOp::SLL,
            Function::SLT => ALUOp::SLT,
            Function::SLTU => ALUOp::SLTU,
            Function::XOR => ALUOp::XOR,
            Function::SRL => ALUOp::SRL,
            Function::SRA => ALUOp::SRA,
            Function::OR => ALUOp::OR,
            Function::AND => ALUOp::AND,
            Function::ECALL => ALUOp::ADD,
        },
        alu_src: match inst.opcode {
            Opcode::Branch | Opcode::Op | Opcode::Jal => ALUSrc::REG,
            _ => ALUSrc::IMM,
        },
    }
}

/// Returns the opcode from a raw instruction, or `InvalidInstructionError`
/// when the low 7 bits match no RV32I opcode.
pub fn raw_to_opcode(raw_inst: u32) -> (r: SimulatorResult<Opcode>)
    ensures
        r == (match opcode_of(raw_inst) {
            Some(op) => Ok::<Opcode, SimulatorError>(op),
            None => Err::<Opcode, SimulatorError>(
                SimulatorError::InvalidInstructionError(raw_inst, 0),
            ),
        }),
{
    let opcode = raw_inst & 0x7f_u32;
    match opcode {
        0x37 => Ok(Opcode::Lui),
        0x17 => Ok(Opcode::AuiPc),
        0x6f => Ok(Opcode::Jal),
        0x67 => Ok(Opcode::Jalr),
        0x63 => Ok(Opcode::Branch),
        0x03 => Ok(Opcode::Load),
        0x23 => Ok(Opcode::Store),
        0x33 => Ok(Opcode::Op),
        0x13 => Ok(Opcode::OpImm),
        0x73 => Ok(Opcode::System),
        _ => Err(SimulatorError::InvalidInstructionError(raw_inst, 0)),
    }
}

/// Returns the instruction format of an opcode.
pub fn opcode_to_format(opcode: Opcode) -> (r: Format)
    ensures
        r == format_of(opcode),
{
    match opcode {
        Opcode::Lui => Format::U,
        Opcode::AuiPc => Format::U,
        Opcode::Jal => Format::J,
        Opcode::Jalr => Format::I,
        Opcode::Branch => Format::B,
        Opcode::Load => Format::I,
        Opcode::Store => Format::S,
        Opcode::Op => Format::R,
        Opcode::OpImm => Format::I,
        Opcode::System => Format::Sys,
    }
}

/// Fills attributes, mnemonic and control signals of an instruction whose
/// opcode and format are already set.
pub fn parse(inst: &mut Instruction) -> (r: SimulatorResult<()>)
    requires
        opcode_of(old(inst).raw_inst) == Some(old(inst).opcode),
        old(inst).format == format_of(old(inst).opcode),
    ensures
        decode_ok(old(inst).raw_inst) ==> r is Ok && *final(inst) == decoded(old(inst).raw_inst),
        !decode_ok(old(inst).raw_inst) ==> r == Err::<(), SimulatorError>(
            SimulatorError::InvalidInstructionError(old(inst).raw_inst, 0),
        ),
{
    let raw_inst = inst.raw_inst;
    inst.attributes = match inst.format {
        Format::R => parse_format_r(raw_inst),
        Format::I => parse_format_i(raw_inst),
        Format::S => parse_format_s(raw_inst),
        Format::B => parse_format_b(raw_inst),
        Format::U => parse_format_u(raw_inst),
        Format::J => parse_format_j(raw_inst),
        Format::Sys => parse_format_sys(raw_inst),
    };
    let imm = get_imm_sign_extended(inst);
    inst.attributes.imm = imm;
    inst.function = match get_function(inst) {
        Ok(f) => f,
        Err(e) => {
            return Err(e);
        },
    };
    inst.controls = get_controls(inst);

    Ok(())
}

/// Parses attributes for an R-type instruction.
pub fn parse_format_r(raw_inst: u32) -> (r: Attributes)
    ensures
        r == base_attrs(raw_inst, Format::R),
{
    Attributes {
        opcode: Some(get_opcode(raw_inst)),
        rs1: Some(get_rs1(raw_inst)),
        rs2: Some(get_rs2(raw_inst)),
        rd: Some(get_rd(raw_inst)),
        funct3: Some(get_funct3(raw_inst)),
        funct7: Some(get_funct7(raw_inst)),
        imm: None,
    }
}

/// Parses attributes for an I-type instruction.  For a shift-immediate
/// word the immediate is the raw shamt field, which coincides with rs2.
pub fn parse_format_i(raw_inst: u32) -> (r: Attributes)
    ensures
        r == base_attrs(raw_inst, Format::I),
{
    let opcode = get_opcode(raw_inst);
    let funct3 = get_funct3(raw_inst);
    let shift_imm = opcode == 0x13 && (funct3 == 0b001 || funct3 == 0b101);

    Attributes {
        opcode: Some(opcode),
        rs1: Some(get_rs1(raw_inst)),
        rs2: None,
        rd: Some(get_rd(raw_inst)),
        funct3: Some(funct3),
        funct7: None,
        imm: if shift_imm {
            Some(get_rs2(raw_inst))
        } else {
            Some((raw_inst & 0xfff00000) >> 20)
        },
    }
}

/// Parses attributes for an S-type instruction.
pub fn parse_format_s(raw_inst: u32) -> (r: Attributes)
    ensures
        r == base_attrs(raw_inst, Format::S),
{
    Attributes {
        opcode: Some(get_opcode(raw_inst)),
        rs1: Some(get_rs1(raw_inst)),
        rs2: Some(get_rs2(raw_inst)),
        rd: None,
        funct3: Some(get_funct3(raw_inst)),
        funct7: None,
        imm: Some(((raw_inst & 0xfe000000) >> 20) | ((raw_inst & 0xf80) >> 7)),
    }
}

/// Parses attributes for a B-type instruction.
pub fn parse_format_b(raw_inst: u32) -> (r: Attributes)
    ensures
        r == base_attrs(raw_inst, Format::B),
{
    Attributes {
        opcode: Some(get_opcode(raw_inst)),
        rs1: Some(get_rs1(raw_inst)),
        rs2: Some(get_rs2(raw_inst)),
        rd: None,
        funct3: Some(get_funct3(raw_inst)),
        funct7: None,
        imm: Some(
            ((raw_inst & 0x80000000) >> 19) | ((raw_inst & 0x80) << 4) | ((raw_inst & 0x7e000000)
                >> 20) | ((raw_inst & 0xf00) >> 7),
        ),
    }
}

/// Parses attributes for a U-type instruction.
pub fn parse_format_u(raw_inst: u32) -> (r: Attributes)
    ensures
        r == base_attrs(raw_inst, Format::U),
{
    Attributes {
        opcode: Some(get_opcode(raw_inst)),
        rs1: None,
        rs2: None,
        rd: Some(get_rd(raw_inst)),
        funct3: None,
        funct7: None,
        imm: Some(raw_inst & 0xfffff000),
    }
}

/// Parses attributes for a J-type instruction.
pub fn parse_format_j(raw_inst: u32) -> (r: Attributes)
    ensures
        r == base_attrs(raw_inst, Format::J),
{
    Attributes {
        opcode: Some(get_opcode(raw_inst)),
        rs1: None,
        rs2: None,
        rd: Some(get_rd(raw_inst)),
        funct3: None,
        funct7: None,
        imm: Some(
            ((raw_inst & 0x80000000) >> 11) | (raw_inst & 0xff000) | ((raw_inst & 0x100000) >> 9)
                | ((raw_inst & 0x7fe00000) >> 20),
        ),
    }
}

/// Parses attributes for a Sys-type instruction: operands are synthesized
/// as a0 (argument and result) and a7 (call number).
pub fn parse_format_sys(raw_inst: u32) -> (r: Attributes)
    ensures
        r == base_attrs(raw_inst, Format::Sys),
{
    Attributes {
        opcode: Some(get_opcode(raw_inst)),
        rs1: Some(10),
        rs2: Some(17),
        rd: Some(10),
        funct3: None,
        funct7: None,
        imm: None,
    }
}

/// Extracts the opcode field from a raw instruction.
pub fn get_opcode(raw_inst: u32) -> (r: u32)
    ensures
        r == s_opcode(raw_inst),
{
    raw_inst & 0x7f
}

/// Extracts the funct3 field from a raw instruction.
pub fn get_funct3(raw_inst: u32) -> (r: u32)
    ensures
        r == s_funct3(raw_inst),
{
    (raw_inst >> 12) & 0x7
}

/// Extracts the rs1 field from a raw instruction.
pub fn get_rs1(raw_inst: u32) -> (r: u32)
    ensures
        r == s_rs1(raw_inst),
{
    (raw_inst >> 15) & 0x1f
}

/// Extracts the rs2 field from a raw instruction.
pub fn get_rs2(raw_inst: u32) -> (r: u32)
    ensures
        r == s_rs2(raw_inst),
{
    (raw_inst >> 20) & 0x1f
}

/// Extracts the rd field from a raw instruction.
pub fn get_rd(raw_inst: u32) -> (r: u32)
    ensures
        r == s_rd(raw_inst),
{
    (raw_inst >> 7) & 0x1f
}

/// Extracts the funct7 field from a raw instruction.
pub fn get_funct7(raw_inst: u32) -> (r: u32)
    ensures
        r == s_funct7(raw_inst),
{
    (raw_inst >> 25) & 0x7f
}

} // verus!
