use rvsim::cpu::CPUPolicy;
use rvsim::cpu::CPUState;
use rvsim::cpu::Implementation;
use rvsim::branch_predictor::PredictorHeuristic;
use rvsim::error::ElfError;
use rvsim::error::SimulatorError;
use rvsim::flags::BackendArg;
use rvsim::flags::HeuristicArg;
use rvsim::loader::Segment;
use rvsim::loader::load_elf;
use rvsim::loader::set_stack;
use rvsim::mmu::MMU;
use rvsim::run_wrapper::fetch_operations;

#[test]
fn set_stack_allocates_and_zeroes() {
    let mut cpu = CPUState::make(CPUPolicy::default());
    let mut mem = MMU::make();
    assert!(set_stack(&mut cpu, &mut mem, 0x2000, 0x10).is_ok());
    assert_eq!(cpu.stack_base, 0x2000);
    assert_eq!(cpu.stack_size, 0x10);
    assert_eq!(cpu.gpr[2].read(), 0x2000);
    assert_eq!(mem.get8(0x2000).unwrap(), 0);
    assert_eq!(mem.get8(0x1FF1).unwrap(), 0);
    assert!(!cpu.stack_overflow());
}

#[test]
fn load_elf_writes_file_bytes_and_zero_fill() {
    let mut cpu = CPUState::make(CPUPolicy::default());
    let mut mem = MMU::make();
    let segments = vec![
        Segment { virtual_address: 0x100, memory_size: 8, data: vec![1, 2, 3] },
        Segment { virtual_address: 0x200, memory_size: 2, data: vec![9, 8] },
    ];
    assert!(load_elf(&mut cpu, &mut mem, 0x104, &segments).is_ok());
    assert_eq!(cpu.pc.read(), 0x104);
    assert_eq!(mem.get8(0x100).unwrap(), 1);
    assert_eq!(mem.get8(0x102).unwrap(), 3);
    assert_eq!(mem.get8(0x103).unwrap(), 0);
    assert_eq!(mem.get8(0x107).unwrap(), 0);
    assert_eq!(mem.get8(0x200).unwrap(), 9);
    assert_eq!(mem.get8(0x201).unwrap(), 8);
}

#[test]
fn load_elf_rejects_overflowing_segment() {
    let mut cpu = CPUState::make(CPUPolicy::default());
    let mut mem = MMU::make();
    let segments = vec![Segment { virtual_address: 0xFFFFFFFF, memory_size: 2, data: vec![] }];
    let r = load_elf(&mut cpu, &mut mem, 0, &segments);
    assert_eq!(
        r,
        Err(SimulatorError::ElfLoadError(ElfError::AddressOutOfBounds(0xFFFFFFFF)))
    );
}

#[test]
fn trace_parses_reads_and_writes() {
    let content = b"r 0x10\nw 0x20\n\n  \nr 0xDEADBEEF\n".to_vec();
    let operations = fetch_operations(&content).unwrap();
    assert_eq!(operations, vec![('r', 0x10), ('w', 0x20), ('r', 0xDEADBEEF)]);
}

#[test]
fn trace_accepts_missing_final_newline() {
    let content = b"w 0x0".to_vec();
    assert_eq!(fetch_operations(&content).unwrap(), vec![('w', 0x0)]);
}

#[test]
fn trace_rejects_bad_operation() {
    let content = b"r 0x10\nx 0x20\n".to_vec();
    assert_eq!(
        fetch_operations(&content),
        Err(SimulatorError::ElfLoadError(ElfError::ParseError(2)))
    );
}

#[test]
fn trace_rejects_bad_address() {
    assert!(fetch_operations(&b"r 16\n".to_vec()).is_err());
    assert!(fetch_operations(&b"r 0x\n".to_vec()).is_err());
    assert!(fetch_operations(&b"r 0x1g\n".to_vec()).is_err());
    assert!(fetch_operations(&b"r 0x100000000\n".to_vec()).is_err());
    assert!(fetch_operations(&b"r\n".to_vec()).is_err());
    assert!(fetch_operations(&b"r 0x1 extra\n".to_vec()).is_err());
}

#[test]
fn backend_and_heuristic_arguments_convert() {
    assert_eq!(Implementation::from(BackendArg::Pipelined), Implementation::Pipelined);
    assert_eq!(Implementation::from(BackendArg::SingleCycle), Implementation::SingleCycle);
    assert_eq!(
        PredictorHeuristic::from(HeuristicArg::BufferedPrediction),
        PredictorHeuristic::BufferedPrediction
    );
    assert_eq!(
        PredictorHeuristic::from(HeuristicArg::AlwaysNotTaken),
        PredictorHeuristic::AlwaysNotTaken
    );
}
