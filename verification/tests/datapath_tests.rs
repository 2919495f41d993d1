use rvsim::branch_predictor::BranchPredictor;
use rvsim::branch_predictor::PredictorHeuristic;
use rvsim::cpu::CPUPolicy;
use rvsim::cpu::CPUState;
use rvsim::cpu::Register;
use rvsim::inclusive::InclusiveCache;
use rvsim::pipelined;
use rvsim::single_cycle;
use rvsim::system_call::SyscallIO;

fn machine_with_program(words: &[u32]) -> (CPUState, InclusiveCache, SyscallIO) {
    let mut cpu = CPUState::make(CPUPolicy::default());
    let mut mem = InclusiveCache::default();
    // An empty stack region keeps the overflow check out of the way, since
    // the test programs use x2 as a scratch register
    rvsim::loader::set_stack(&mut cpu, &mut mem.mmu, 0, 0).unwrap();
    mem.mmu.allocate_page(0);
    for (i, w) in words.iter().enumerate() {
        mem.mmu.set32((i * 4) as u32, *w).unwrap();
    }
    // Pad with NOPs so that fetching ahead of the exit stays decodable
    for i in words.len()..words.len() + 8 {
        mem.mmu.set32((i * 4) as u32, 0x13).unwrap();
    }
    // ECALL dispatches on a7
    cpu.gpr[17] = Register::new(3);
    (cpu, mem, SyscallIO::new(Vec::new()))
}

#[test]
fn arithmetic_smoke_pipelined() {
    // ADDI x1,x0,5; ADDI x2,x0,7; ADD x3,x1,x2; then two NOPs drain the
    // pipeline so the sum is written back before the ECALL exit reaches EX
    let program = [0x00500093, 0x00700113, 0x002081B3, 0x13, 0x13, 0x00000073];
    let (mut cpu, mut mem, mut io) = machine_with_program(&program);
    let exit_pc = pipelined::run(&mut cpu, &mut mem, &mut io, 100000).unwrap();
    assert_eq!(exit_pc, 20);
    assert_eq!(cpu.gpr[1].read(), 5);
    assert_eq!(cpu.gpr[2].read(), 7);
    assert_eq!(cpu.gpr[3].read(), 12);
    // One EX per cycle: six program words plus the two pipeline-fill NOPs
    assert_eq!(cpu.history.inst_count, 8);
}

#[test]
fn arithmetic_smoke_single_cycle() {
    let program = [0x00500093, 0x00700113, 0x002081B3, 0x00000073];
    let (mut cpu, mut mem, mut io) = machine_with_program(&program);
    let exit_pc = single_cycle::run(&mut cpu, &mut mem, &mut io, 100000).unwrap();
    assert_eq!(exit_pc, 12);
    assert_eq!(cpu.gpr[1].read(), 5);
    assert_eq!(cpu.gpr[2].read(), 7);
    assert_eq!(cpu.gpr[3].read(), 12);
    assert_eq!(cpu.history.cycle_count, 4);
    assert_eq!(cpu.history.inst_count, 4);
}

#[test]
fn load_use_hazard_costs_one_bubble() {
    // LW x1,0(x5); ADD x3,x1,x4 reads the loaded value: one interlock bubble
    let dependent = [0x0002A083, 0x004081B3, 0x00000073];
    // LW x1,0(x5); ADD x3,x5,x4 does not: no bubble
    let independent = [0x0002A083, 0x004281B3, 0x00000073];

    let run_cycles = |program: &[u32]| -> i64 {
        let (mut cpu, mut mem, mut io) = machine_with_program(program);
        cpu.gpr[5] = Register::new(0x2000);
        mem.mmu.allocate_page(0x2000);
        mem.mmu.set32(0x2000, 42).unwrap();
        pipelined::run(&mut cpu, &mut mem, &mut io, 100000).unwrap();
        assert_eq!(cpu.gpr[1].read(), 42);
        cpu.history.cycle_count
    };

    let with_hazard = run_cycles(&dependent);
    let without_hazard = run_cycles(&independent);
    assert_eq!(with_hazard, without_hazard + 1);
}

#[test]
fn backward_branch_loop_predicted_taken() {
    // x1 counts down from 10; the backward BEQ is taken while x1 != 0
    //   loop: ADDI x1,x1,-1; SLTIU x2,x1,1; BEQ x2,x0,loop; ECALL
    let program = [0xFFF08093, 0x0010B113, 0xFE010CE3, 0x00000073];

    let run_with = |heuristic: PredictorHeuristic| -> i64 {
        let mut policy = CPUPolicy::default();
        policy.heuristic = heuristic;
        let (mut cpu, mut mem, mut io) = machine_with_program(&program);
        cpu.policy = policy;
        cpu.gpr[1] = Register::new(10);
        pipelined::run(&mut cpu, &mut mem, &mut io, 100000).unwrap();
        assert_eq!(cpu.gpr[1].read(), 0);
        cpu.history.cycle_count
    };

    let buffered = run_with(PredictorHeuristic::BufferedPrediction);
    let not_taken = run_with(PredictorHeuristic::AlwaysNotTaken);
    // Predicting the taken backward branch saves one flush slot on each of
    // the nine taken iterations, minus the cost of the final mispredict
    assert!(buffered + 4 <= not_taken);
}

#[test]
fn predictor_warms_up_to_taken() {
    let mut predictor = BranchPredictor::new(PredictorHeuristic::BufferedPrediction);
    let pc = 0x40;
    let mut correct = 0;
    for _ in 0..10 {
        if predictor.predict(pc) {
            correct += 1;
        }
        predictor.update(pc, true);
    }
    assert!(correct >= 8);
    // One not-taken outcome only weakens the prediction
    predictor.update(pc, false);
    assert!(predictor.predict(pc));
    predictor.update(pc, false);
    predictor.update(pc, false);
    assert!(!predictor.predict(pc));
}

#[test]
fn always_not_taken_never_predicts() {
    let mut predictor = BranchPredictor::new(PredictorHeuristic::AlwaysNotTaken);
    assert!(!predictor.predict(0x40));
    predictor.update(0x40, true);
    predictor.update(0x40, true);
    assert!(!predictor.predict(0x40));
}

#[test]
fn stack_overflow_detected() {
    let program = [0x00500093, 0x00000073];
    let (mut cpu, mut mem, mut io) = machine_with_program(&program);
    // Give the CPU a real stack, with the stack pointer below it
    cpu.stack_base = 0x8000;
    cpu.stack_size = 0x100;
    cpu.gpr[2] = Register::new(0x100);
    let r = pipelined::run(&mut cpu, &mut mem, &mut io, 1000);
    assert!(matches!(
        r,
        Err(rvsim::error::SimulatorError::ExecutionError(
            rvsim::error::ExecutionError::StackOverflow(0x100, 0x8000, 0x100)
        ))
    ));
}

#[test]
fn cycle_budget_runs_out() {
    // An endless loop of NOPs falls off the budget
    let program = [0x13, 0x13, 0x13, 0x6F]; // JAL x0, 0 loops forever
    let (mut cpu, mut mem, mut io) = machine_with_program(&program);
    let r = single_cycle::run(&mut cpu, &mut mem, &mut io, 500);
    assert!(matches!(
        r,
        Err(rvsim::error::SimulatorError::ExecutionError(
            rvsim::error::ExecutionError::ExecutionLimitReached(500)
        ))
    ));
    assert_eq!(cpu.history.cycle_count, 500);
}

#[test]
fn store_and_load_through_datapath() {
    // SW x6,0(x5); LW x7,0(x5); ECALL
    let sw: u32 = (0 << 25) | (6 << 20) | (5 << 15) | (2 << 12) | (0 << 7) | 0x23;
    let lw: u32 = (0 << 20) | (5 << 15) | (2 << 12) | (7 << 7) | 0x03;
    let program = [sw, lw, 0x00000073];
    let (mut cpu, mut mem, mut io) = machine_with_program(&program);
    cpu.gpr[5] = Register::new(0x3000);
    cpu.gpr[6] = Register::new(0xBEEF);
    mem.mmu.allocate_page(0x3000);
    single_cycle::run(&mut cpu, &mut mem, &mut io, 1000).unwrap();
    assert_eq!(cpu.gpr[7].read(), 0xBEEF);
    assert_eq!(mem.mmu.get32(0x3000).unwrap(), 0xBEEF);
}

#[test]
fn forwarding_resolves_dependency_chains() {
    // Each ADDI reads the register the previous one wrote: the result is
    // right only if EX- and MEM-stage forwarding hand the values through
    //   ADDI x1,x0,1; ADDI x1,x1,2; ADDI x1,x1,3; ADDI x1,x1,4
    let program = [
        0x00100093, 0x00208093, 0x00308093, 0x00408093, 0x13, 0x13, 0x00000073,
    ];
    let (mut cpu, mut mem, mut io) = machine_with_program(&program);
    pipelined::run(&mut cpu, &mut mem, &mut io, 1000).unwrap();
    assert_eq!(cpu.gpr[1].read(), 10);
}

#[test]
fn jal_writes_return_address_and_jumps() {
    // JAL x1, +8 skips one word; the skipped slot would clobber x5
    //   0: JAL x1, 8; 4: ADDI x5,x0,99; 8: ECALL
    let jal: u32 = (8 << 20) | (1 << 7) | 0x6F;
    let program = [jal, 0x06300293, 0x00000073];
    let (mut cpu, mut mem, mut io) = machine_with_program(&program);
    let exit_pc = pipelined::run(&mut cpu, &mut mem, &mut io, 1000).unwrap();
    assert_eq!(exit_pc, 8);
    assert_eq!(cpu.gpr[5].read(), 0);
    assert_eq!(cpu.gpr[1].read(), 4);
}
