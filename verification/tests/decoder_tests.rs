use rvsim::decode_helper::get_controls;
use rvsim::decode_helper::opcode_to_format;
use rvsim::decode_helper::parse_format_b;
use rvsim::decode_helper::parse_format_i;
use rvsim::decode_helper::parse_format_j;
use rvsim::decode_helper::parse_format_sys;
use rvsim::decode_helper::raw_to_opcode;
use rvsim::alu::ALUOp;
use rvsim::alu::ALUSrc;
use rvsim::error::SimulatorError;
use rvsim::instruction::Format;
use rvsim::instruction::Function;
use rvsim::instruction::Instruction;
use rvsim::instruction::Opcode;

#[test]
fn opcode_format_round_trip_samples() {
    // One well-formed word per opcode: the format derived from the decoded
    // opcode matches the format of the word
    let samples: [(u32, Opcode, Format); 10] = [
        (0x000000B7, Opcode::Lui, Format::U),
        (0x00000097, Opcode::AuiPc, Format::U),
        (0x0000006F, Opcode::Jal, Format::J),
        (0x00000067, Opcode::Jalr, Format::I),
        (0x00000063, Opcode::Branch, Format::B),
        (0x00000003, Opcode::Load, Format::I),
        (0x00000023, Opcode::Store, Format::S),
        (0x00000033, Opcode::Op, Format::R),
        (0x00000013, Opcode::OpImm, Format::I),
        (0x00000073, Opcode::System, Format::Sys),
    ];
    for (word, opcode, format) in samples {
        let decoded = raw_to_opcode(word).unwrap();
        assert_eq!(decoded, opcode);
        assert_eq!(opcode_to_format(decoded), format);
    }
}

#[test]
fn unknown_opcode_fails() {
    let r = raw_to_opcode(0x0000007F);
    assert_eq!(r, Err(SimulatorError::InvalidInstructionError(0x7F, 0)));
    assert!(Instruction::new(0).is_err());
}

#[test]
fn i_format_fields() {
    // ADDI x5, x6, 20
    let attributes = parse_format_i(0x01430293);
    assert_eq!(attributes.opcode, Some(0x13));
    assert_eq!(attributes.funct3, Some(0));
    assert_eq!(attributes.rd, Some(5));
    assert_eq!(attributes.rs1, Some(6));
    assert_eq!(attributes.imm, Some(20));
}

#[test]
fn b_format_immediate() {
    // BEQ with a forward offset of 100
    let attributes = parse_format_b(0x06628263);
    assert_eq!(attributes.imm, Some(100));
    let inst = Instruction::new(0x06628263).unwrap();
    assert_eq!(inst.function, Function::BEQ);
    assert_eq!(inst.attributes.imm.unwrap() as i32, 100);
}

#[test]
fn j_format_immediate_negative() {
    // JAL with a backward offset
    let attributes = parse_format_j(0xF79FF06F);
    assert_eq!(attributes.imm, Some(0x1FFF78));
    let inst = Instruction::new(0xF79FF06F).unwrap();
    assert_eq!(inst.attributes.imm.unwrap() as i32, -136);
}

#[test]
fn shift_immediate_is_shamt_field() {
    // SLLI x2, x1, 7: the immediate is the raw shamt (rs2) field
    let word: u32 = (7 << 20) | (1 << 15) | (1 << 12) | (2 << 7) | 0x13;
    let attributes = parse_format_i(word);
    assert_eq!(attributes.imm, Some(7));
    let inst = Instruction::new(word).unwrap();
    assert_eq!(inst.function, Function::SLLI);
    assert_eq!(inst.attributes.imm, Some(7));

    // SRAI x2, x1, 31: funct7 bit 30 does not leak into the immediate
    let word2: u32 = (0x20 << 25) | (31 << 20) | (1 << 15) | (5 << 12) | (2 << 7) | 0x13;
    let inst2 = Instruction::new(word2).unwrap();
    assert_eq!(inst2.function, Function::SRAI);
    assert_eq!(inst2.attributes.imm, Some(31));
}

#[test]
fn sys_format_synthesizes_abi_registers() {
    let attributes = parse_format_sys(0x00000073);
    assert_eq!(attributes.rs1, Some(10));
    assert_eq!(attributes.rs2, Some(17));
    assert_eq!(attributes.rd, Some(10));
    let inst = Instruction::new(0x00000073).unwrap();
    assert_eq!(inst.function, Function::ECALL);
}

#[test]
fn function_discriminates_on_bit30() {
    // ADD vs SUB
    let add = Instruction::new(0x00000033).unwrap();
    assert_eq!(add.function, Function::ADD);
    let sub = Instruction::new(0x40000033).unwrap();
    assert_eq!(sub.function, Function::SUB);
    // SRL vs SRA
    let srl = Instruction::new(0x00005033).unwrap();
    assert_eq!(srl.function, Function::SRL);
    let sra = Instruction::new(0x40005033).unwrap();
    assert_eq!(sra.function, Function::SRA);
}

#[test]
fn invalid_funct3_fails() {
    // A BRANCH word with funct3 = 2 resolves to no mnemonic
    let word: u32 = (2 << 12) | 0x63;
    assert_eq!(
        Instruction::new(word),
        Err(SimulatorError::InvalidInstructionError(word, 0))
    );
    // A LOAD word with funct3 = 3 resolves to no mnemonic
    let word2: u32 = (3 << 12) | 0x03;
    assert!(Instruction::new(word2).is_err());
}

#[test]
fn controls_follow_opcode() {
    let lw = Instruction::new(0x0002A083).unwrap();
    assert_eq!(lw.function, Function::LW);
    assert!(lw.controls.mem_read);
    assert!(!lw.controls.mem_write);
    assert!(lw.controls.reg_write);
    assert!(!lw.controls.branch);
    assert_eq!(lw.controls.mem_step, 4);
    assert_eq!(get_controls(&lw).alu_op, ALUOp::ADD);
    assert_eq!(lw.controls.alu_src, ALUSrc::IMM);

    // SB: one-byte store
    let sb: u32 = (1 << 15) | 0x23;
    let store = Instruction::new(sb).unwrap();
    assert_eq!(store.function, Function::SB);
    assert!(store.controls.mem_write);
    assert!(!store.controls.reg_write);
    assert_eq!(store.controls.mem_step, 1);

    // BEQ: branch with register source
    let beq = Instruction::new(0x06628263).unwrap();
    assert!(beq.controls.branch);
    assert!(!beq.controls.reg_write);
    assert_eq!(beq.controls.alu_src, ALUSrc::REG);
    assert_eq!(beq.controls.alu_op, ALUOp::BEQ);
}

#[test]
fn nop_decodes_to_addi_x0() {
    let nop = Instruction::new(0x13).unwrap();
    assert_eq!(nop.opcode, Opcode::OpImm);
    assert_eq!(nop.function, Function::ADDI);
    assert_eq!(nop.attributes.rd, Some(0));
    assert_eq!(nop.attributes.rs1, Some(0));
    assert_eq!(nop.attributes.imm, Some(0));
}
