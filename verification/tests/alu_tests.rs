use rvsim::alu::alu;
use rvsim::instruction::Instruction;

#[test]
fn add_and_sub_wrap() {
    let add = Instruction::new(0x00000033).unwrap();
    let sub = Instruction::new(0x40000033).unwrap();
    assert_eq!(alu(&add, 2, 3), 5);
    assert_eq!(alu(&add, i32::MAX, 1), i32::MIN);
    assert_eq!(alu(&add, i32::MIN, i32::MIN), 0);
    assert_eq!(alu(&sub, 3, 5), -2);
    assert_eq!(alu(&sub, i32::MIN, 1), i32::MAX);
}

#[test]
fn beq_returns_zero_iff_equal() {
    // Branch comparators return the complement: 0 means taken
    let beq = Instruction::new(0x00000063).unwrap();
    assert_eq!(alu(&beq, 7, 7), 0);
    assert_eq!(alu(&beq, 7, 8), 1);
    let bne = Instruction::new(0x00001063).unwrap();
    assert_eq!(alu(&bne, 7, 7), 1);
    assert_eq!(alu(&bne, 7, 8), 0);
}

#[test]
fn signed_and_unsigned_branch_compares() {
    let blt = Instruction::new(0x00004063).unwrap();
    assert_eq!(alu(&blt, -1, 1), 0);
    assert_eq!(alu(&blt, 1, -1), 1);
    let bltu = Instruction::new(0x00006063).unwrap();
    // As unsigned, -1 is the largest value
    assert_eq!(alu(&bltu, -1, 1), 1);
    assert_eq!(alu(&bltu, 1, -1), 0);
    let bge = Instruction::new(0x00005063).unwrap();
    assert_eq!(alu(&bge, 2, 2), 0);
    assert_eq!(alu(&bge, 1, 2), 1);
    let bgeu = Instruction::new(0x00007063).unwrap();
    assert_eq!(alu(&bgeu, -1, 1), 0);
}

#[test]
fn sra_preserves_sign() {
    let sra = Instruction::new(0x40005033).unwrap();
    assert_eq!(alu(&sra, -8, 1), -4);
    assert_eq!(alu(&sra, -1, 31), -1);
    assert!(alu(&sra, i32::MIN, 5) < 0);
    let srl = Instruction::new(0x00005033).unwrap();
    // Logical shift fills with zeros instead
    assert_eq!(alu(&srl, -8, 1), 0x7FFFFFFC);
}

#[test]
fn sltu_compares_unsigned() {
    let sltu = Instruction::new(0x00003033).unwrap();
    assert_eq!(alu(&sltu, -1, 1), 0);
    assert_eq!(alu(&sltu, 1, -1), 1);
    assert_eq!(alu(&sltu, 0, 1), 1);
    let slt = Instruction::new(0x00002033).unwrap();
    assert_eq!(alu(&slt, -1, 1), 1);
    assert_eq!(alu(&slt, 1, -1), 0);
}

#[test]
fn shifts_take_amount_modulo_32() {
    let sll = Instruction::new(0x00001033).unwrap();
    assert_eq!(alu(&sll, 1, 4), 16);
    assert_eq!(alu(&sll, 1, 33), 2);
    let srl = Instruction::new(0x00005033).unwrap();
    assert_eq!(alu(&srl, 16, 36), 1);
}

#[test]
fn logical_operations() {
    let and = Instruction::new(0x00007033).unwrap();
    let or = Instruction::new(0x00006033).unwrap();
    let xor = Instruction::new(0x00004033).unwrap();
    assert_eq!(alu(&and, 0b1100, 0b1010), 0b1000);
    assert_eq!(alu(&or, 0b1100, 0b1010), 0b1110);
    assert_eq!(alu(&xor, 0b1100, 0b1010), 0b0110);
}
