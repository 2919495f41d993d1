//! ALU implementation: a pure signed/unsigned integer function with
//! wrapping arithmetic.
//!
//! Branch comparators return the *complement* of their condition — output 0
//! means the branch is taken — so the driver can treat any nonzero result
//! uniformly as "not taken".

use vstd::prelude::*;

use crate::instruction::Instruction;

verus! {

/// What the ALU returns for each operation.  Addition and subtraction wrap
/// on overflow; shifts take the shift amount modulo 32; SRA is a true
/// arithmetic right shift.
pub open spec fn spec_alu(op: ALUOp, op1: i32, op2: i32) -> i32 {
    match op {
        ALUOp::ADD => op1.wrapping_add(op2),
        ALUOp::SUB => op1.wrapping_sub(op2),
        ALUOp::AND => op1 & op2,
        ALUOp::OR => op1 | op2,
        ALUOp::XOR => op1 ^ op2,
        ALUOp::BEQ => if op1 != op2 { 1 } else { 0 },
        ALUOp::BNE => if op1 == op2 { 1 } else { 0 },
        ALUOp::BLT => if op1 >= op2 { 1 } else { 0 },
        ALUOp::BLTU => if (op1 as u32) >= (op2 as u32) { 1 } else { 0 },
        ALUOp::BGE => if op1 < op2 { 1 } else { 0 },
        ALUOp::BGEU => if (op1 as u32) < (op2 as u32) { 1 } else { 0 },
        ALUOp::SLL => (((op1 as u32) << ((op2 as u32) % 32)) as i32),
        ALUOp::SRL => (((op1 as u32) >> ((op2 as u32) % 32)) as i32),
        ALUOp::SRA => op1 >> ((op2 as u32) % 32),
        ALUOp::SLT => if op1 < op2 { 1 } else { 0 },
        ALUOp::SLTU => if (op1 as u32) < (op2 as u32) { 1 } else { 0 },
    }
}

/// Performs an atomic ALU operation on signed operands.
pub fn alu(inst: &Instruction, op1: i32, op2: i32) -> (r: i32)
    ensures
        r == spec_alu(inst.controls.alu_op, op1, op2),
{
    match inst.controls.alu_op {
        ALUOp::ADD => op1.wrapping_add(op2),
        ALUOp::SUB => op1.wrapping_sub(op2),
        ALUOp::AND => op1 & op2,
        ALUOp::OR => op1 | op2,
        ALUOp::XOR => op1 ^ op2,
        ALUOp::BEQ => if op1 != op2 { 1 } else { 0 },
        ALUOp::BNE => if op1 == op2 { 1 } else { 0 },
        ALUOp::BLT => if op1 >= op2 { 1 } else { 0 },
        ALUOp::BLTU => if (op1 as u32) >= (op2 as u32) { 1 } else { 0 },
        ALUOp::BGE => if op1 < op2 { 1 } else { 0 },
        ALUOp::BGEU => if (op1 as u32) < (op2 as u32) { 1 } else { 0 },
        ALUOp::SLL => (((op1 as u32) << ((op2 as u32) % 32)) as i32),
        ALUOp::SRL => (((op1 as u32) >> ((op2 as u32) % 32)) as i32),
        ALUOp::SRA => op1 >> ((op2 as u32) % 32),
        ALUOp::SLT => if op1 < op2 { 1 } else { 0 },
        ALUOp::SLTU => if (op1 as u32) < (op2 as u32) { 1 } else { 0 },
    }
}

/// Addition and subtraction wrap instead of trapping: the result is the
/// mathematical sum (or difference) brought back into the `i32` range by
/// adding or subtracting one full turn of 2^32.
pub proof fn lemma_add_sub_wrap(op1: i32, op2: i32)
    ensures
        spec_alu(ALUOp::ADD, op1, op2) == op1 + op2 || spec_alu(ALUOp::ADD, op1, op2) == op1 + op2
            - 0x1_0000_0000 || spec_alu(ALUOp::ADD, op1, op2) == op1 + op2 + 0x1_0000_0000,
        spec_alu(ALUOp::SUB, op1, op2) == op1 - op2 || spec_alu(ALUOp::SUB, op1, op2) == op1 - op2
            - 0x1_0000_0000 || spec_alu(ALUOp::SUB, op1, op2) == op1 - op2 + 0x1_0000_0000,
{
}

/// The BEQ comparator emits 0 exactly when the operands are equal
/// (0 means "taken").
pub proof fn lemma_beq_zero_iff_equal(op1: i32, op2: i32)
    ensures
        spec_alu(ALUOp::BEQ, op1, op2) == 0 <==> op1 == op2,
{
}

/// SRA preserves the sign bit: an arithmetic right shift of a negative
/// operand stays negative.
pub proof fn lemma_sra_preserves_sign(op1: i32, op2: i32)
    requires
        op1 < 0,
    ensures
        spec_alu(ALUOp::SRA, op1, op2) < 0,
{
    let sh = (op2 as u32) % 32;
    assert(sh < 32);
    assert(op1 < 0 && sh < 32 ==> (op1 >> sh) < 0) by (bit_vector);
}

/// SLTU compares its operands as unsigned integers.
pub proof fn lemma_sltu_unsigned(op1: i32, op2: i32)
    ensures
        spec_alu(ALUOp::SLTU, op1, op2) == 1 <==> (op1 as u32) < (op2 as u32),
        spec_alu(ALUOp::SLTU, op1, op2) == 0 <==> (op1 as u32) >= (op2 as u32),
{
}

/// Selector for the second ALU input.
#[derive(Clone, Copy, Debug, PartialEq, Eq, Structural)]
pub enum ALUSrc {
    /// From the register file.
    REG,
    /// From the immediate.
    IMM,
}

/// Set of ALU operations needed for RV32I.
#[derive(Clone, Copy, Debug, PartialEq, Eq, Structural)]
pub enum ALUOp {
    // Arithmetic
    ADD,
    SUB,
    // Logical
    AND,
    OR,
    XOR,
    // Set
    SLT,
    SLTU,
    // Shift
    SLL,
    SRL,
    SRA,
    // Branch
    BEQ,
    BNE,
    BLT,
    BGE,
    BLTU,
    BGEU,
}

} // verus!
