use rvsim::error::ExecutionError;
use rvsim::error::SimulatorError;
use rvsim::inclusive::InclusiveCache;
use rvsim::system_call::SyscallIO;
use rvsim::system_call::syscall;

#[test]
fn print_string_copies_until_nul() {
    let mut mem = InclusiveCache::default();
    mem.mmu.allocate_page(0x1000);
    let text = b"hello";
    for (i, b) in text.iter().enumerate() {
        mem.mmu.set8(0x1000 + i as u32, *b).unwrap();
    }
    mem.mmu.set8(0x1000 + text.len() as u32, 0).unwrap();

    let mut io = SyscallIO::new(Vec::new());
    let r = syscall(0x1000, 0, &mut mem, &mut io);
    assert_eq!(r, Ok(0x1000));
    assert_eq!(io.output, b"hello".to_vec());
}

#[test]
fn print_string_unallocated_fails() {
    let mut mem = InclusiveCache::default();
    let mut io = SyscallIO::new(Vec::new());
    assert!(syscall(0x5000, 0, &mut mem, &mut io).is_err());
}

#[test]
fn print_character() {
    let mut mem = InclusiveCache::default();
    let mut io = SyscallIO::new(Vec::new());
    assert_eq!(syscall(88, 1, &mut mem, &mut io), Ok(88));
    assert_eq!(io.output, b"X".to_vec());
}

#[test]
fn print_signed_numbers() {
    let mut mem = InclusiveCache::default();
    let mut io = SyscallIO::new(Vec::new());
    assert_eq!(syscall(-123, 2, &mut mem, &mut io), Ok(-123));
    assert_eq!(syscall(0, 2, &mut mem, &mut io), Ok(0));
    assert_eq!(syscall(2147483647, 2, &mut mem, &mut io), Ok(2147483647));
    assert_eq!(syscall(-2147483648, 2, &mut mem, &mut io), Ok(-2147483648));
    assert_eq!(io.output, b"-12302147483647-2147483648".to_vec());
}

#[test]
fn exit_does_nothing() {
    let mut mem = InclusiveCache::default();
    let mut io = SyscallIO::new(b"untouched".to_vec());
    assert_eq!(syscall(7, 3, &mut mem, &mut io), Ok(7));
    assert_eq!(io.cursor, 0);
    assert!(io.output.is_empty());
}

#[test]
fn read_character_consumes_input() {
    let mut mem = InclusiveCache::default();
    let mut io = SyscallIO::new(b"AB".to_vec());
    assert_eq!(syscall(0, 4, &mut mem, &mut io), Ok(65));
    assert_eq!(syscall(0, 4, &mut mem, &mut io), Ok(66));
    assert_eq!(
        syscall(0, 4, &mut mem, &mut io),
        Err(SimulatorError::ExecutionError(ExecutionError::InputExhausted))
    );
}

#[test]
fn read_signed_number_skips_whitespace() {
    let mut mem = InclusiveCache::default();
    let mut io = SyscallIO::new(b"  -42 7".to_vec());
    assert_eq!(syscall(0, 5, &mut mem, &mut io), Ok(-42));
    assert_eq!(syscall(0, 5, &mut mem, &mut io), Ok(7));
    assert_eq!(
        syscall(0, 5, &mut mem, &mut io),
        Err(SimulatorError::ExecutionError(ExecutionError::InputExhausted))
    );
}

#[test]
fn read_number_without_digits_fails() {
    let mut mem = InclusiveCache::default();
    let mut io = SyscallIO::new(b" x1".to_vec());
    assert_eq!(
        syscall(0, 5, &mut mem, &mut io),
        Err(SimulatorError::ExecutionError(ExecutionError::InputExhausted))
    );
}

#[test]
fn unknown_system_call_fails() {
    let mut mem = InclusiveCache::default();
    let mut io = SyscallIO::new(Vec::new());
    assert_eq!(
        syscall(0, 9, &mut mem, &mut io),
        Err(SimulatorError::ExecutionError(ExecutionError::UnknownSystemCall(9)))
    );
    assert_eq!(
        syscall(0, -1, &mut mem, &mut io),
        Err(SimulatorError::ExecutionError(ExecutionError::UnknownSystemCall(-1)))
    );
}

#[test]
fn read_number_clamps_on_overflow() {
    let mut mem = InclusiveCache::default();
    let mut io = SyscallIO::new(b"99999999999 -99999999999 2147483648 -2147483649".to_vec());
    assert_eq!(syscall(0, 5, &mut mem, &mut io), Ok(i32::MAX));
    assert_eq!(syscall(0, 5, &mut mem, &mut io), Ok(i32::MIN));
    assert_eq!(syscall(0, 5, &mut mem, &mut io), Ok(i32::MAX));
    assert_eq!(syscall(0, 5, &mut mem, &mut io), Ok(i32::MIN));
}

#[test]
fn read_number_accepts_extreme_values_exactly() {
    let mut mem = InclusiveCache::default();
    let mut io = SyscallIO::new(b"2147483647 -2147483648".to_vec());
    assert_eq!(syscall(0, 5, &mut mem, &mut io), Ok(i32::MAX));
    assert_eq!(syscall(0, 5, &mut mem, &mut io), Ok(i32::MIN));
}
