//! System call handler: the newlib-style ABI dispatched on a7 — print a
//! NUL-terminated string, a character or a signed number; exit; read a
//! character or a signed number.
//!
//! Console I/O lives outside the library: the bridge consumes bytes from a
//! pre-collected input stream and appends bytes to an output stream, both
//! plain byte vectors carried in a [`SyscallIO`] record.

use vstd::prelude::*;

use crate::error::ExecutionError;
use crate::error::MemoryError;
use crate::error::MemoryErrorKind;
use crate::error::SimulatorError;
use crate::error::SimulatorResult;
use crate::inclusive::InclusiveCache;
use crate::mmu::MMU;

verus! {

/// The byte streams the system-call bridge works on: input not yet
/// consumed past `cursor`, and output produced so far.
pub struct SyscallIO {
    pub input: Vec<u8>,
    pub cursor: usize,
    pub output: Vec<u8>,
}

impl SyscallIO {
    /// The cursor never passes the end of the input.
    pub open spec fn wf(self) -> bool {
        self.cursor <= self.input.len()
    }

    /// Creates a bridge over the given input bytes, with empty output.
    pub fn new(input: Vec<u8>) -> (r: Self)
        ensures
            r.wf(),
            r.input == input,
            r.cursor == 0,
            r.output@ == Seq::<u8>::empty(),
    {
        SyscallIO { input, cursor: 0, output: Vec::new() }
    }
}

/// The string starting at `a` is NUL-terminated within allocated memory.
pub open spec fn cstr_ok(m: MMU, a: u32) -> bool
    decreases 0xffffffffu32 - a,
{
    m.spec_allocated(a) && (m.spec_byte(a) == 0 || (a < 0xffffffffu32 && cstr_ok(
        m,
        (a + 1) as u32,
    )))
}

/// The bytes of the NUL-terminated string starting at `a`, without the
/// terminator.
pub open spec fn cstring_from(m: MMU, a: u32) -> Seq<u8>
    decreases 0xffffffffu32 - a,
{
    if !m.spec_allocated(a) || m.spec_byte(a) == 0 {
        Seq::empty()
    } else if a == 0xffffffffu32 {
        seq![m.spec_byte(a)]
    } else {
        seq![m.spec_byte(a)] + cstring_from(m, (a + 1) as u32)
    }
}

/// `cstr_ok`, stated over the page map alone.
pub open spec fn pg_cstr_ok(p: Map<int, Seq<u8>>, a: u32) -> bool
    decreases 0xffffffffu32 - a,
{
    crate::storage::pg_allocated(p, a) && (crate::storage::pg_byte(p, a) == 0 || (a
        < 0xffffffffu32 && pg_cstr_ok(p, (a + 1) as u32)))
}

/// `cstring_from`, stated over the page map alone.
pub open spec fn pg_cstring_from(p: Map<int, Seq<u8>>, a: u32) -> Seq<u8>
    decreases 0xffffffffu32 - a,
{
    if !crate::storage::pg_allocated(p, a) || crate::storage::pg_byte(p, a) == 0 {
        Seq::empty()
    } else if a == 0xffffffffu32 {
        seq![crate::storage::pg_byte(p, a)]
    } else {
        seq![crate::storage::pg_byte(p, a)] + pg_cstring_from(p, (a + 1) as u32)
    }
}

/// The page-map string reads agree with the MMU-level ones.
pub proof fn lemma_cstr_pg(m: MMU, a: u32)
    ensures
        pg_cstr_ok(m.pages(), a) == cstr_ok(m, a),
        pg_cstring_from(m.pages(), a) == cstring_from(m, a),
    decreases 0xffffffffu32 - a,
{
    if a < 0xffffffffu32 {
        lemma_cstr_pg(m, (a + 1) as u32);
    }
}

/// The decimal digits of a natural number, most significant first, as
/// ASCII bytes.
pub open spec fn dec_digits(n: nat) -> Seq<u8>
    decreases n,
{
    if n < 10 {
        seq![(48 + n) as u8]
    } else {
        dec_digits(n / 10) + seq![(48 + n % 10) as u8]
    }
}

/// The decimal representation of an integer, with a leading minus sign
/// when negative.
pub open spec fn dec_bytes(n: int) -> Seq<u8> {
    if n < 0 {
        seq![45u8] + dec_digits((-n) as nat)
    } else {
        dec_digits(n as nat)
    }
}

/// An ASCII whitespace byte: space, tab, newline or carriage return.
pub open spec fn is_space(b: u8) -> bool {
    b == 32 || b == 9 || b == 10 || b == 13
}

/// An ASCII decimal digit.
pub open spec fn is_digit(b: u8) -> bool {
    48 <= b <= 57
}

/// The first position at or after `i` holding a non-whitespace byte.
pub open spec fn skip_spaces(s: Seq<u8>, i: int) -> int
    decreases s.len() - i,
{
    if 0 <= i < s.len() && is_space(s[i]) {
        skip_spaces(s, i + 1)
    } else {
        i
    }
}

/// The first position at or after `i` holding a non-digit byte.
pub open spec fn digits_end(s: Seq<u8>, i: int) -> int
    decreases s.len() - i,
{
    if 0 <= i < s.len() && is_digit(s[i]) {
        digits_end(s, i + 1)
    } else {
        i
    }
}

/// The value of the digit run `s[i..j)`.
pub open spec fn digits_value(s: Seq<u8>, i: int, j: int) -> int
    decreases j - i,
{
    if i >= j {
        0
    } else {
        digits_value(s, i, j - 1) * 10 + (s[j - 1] - 48)
    }
}

/// A digit scan never moves backwards.
pub proof fn lemma_digits_end_bounds(s: Seq<u8>, i: int)
    ensures
        i <= digits_end(s, i),
    decreases s.len() - i,
{
    if 0 <= i < s.len() && is_digit(s[i]) {
        lemma_digits_end_bounds(s, i + 1);
    }
}

/// Whether a byte is ASCII whitespace.
fn byte_is_space(b: u8) -> (r: bool)
    ensures
        r == is_space(b),
{
    b == 32 || b == 9 || b == 10 || b == 13
}

/// Whether a byte is an ASCII decimal digit.
fn byte_is_digit(b: u8) -> (r: bool)
    ensures
        r == is_digit(b),
{
    48 <= b && b <= 57
}

/// Appends the decimal digits of `n`, most significant first.
fn push_decimal(n: u32, out: &mut Vec<u8>)
    ensures
        final(out)@ == old(out)@ + dec_digits(n as nat),
    decreases n,
{
    if n >= 10 {
        push_decimal(n / 10, out);
    }
    out.push(48 + (n % 10) as u8);
}


/// What one system call does: the relation between the states before and
/// after, the result, and the byte streams, for each call number.
pub open spec fn syscall_post(
    op1: i32,
    op2: i32,
    mem0: InclusiveCache,
    mem1: InclusiveCache,
    io0: SyscallIO,
    io1: SyscallIO,
    r: SimulatorResult<i32>,
) -> bool {
    &&& mem1.wf()
    &&& io1.wf()
    &&& InclusiveCache::same_shape(mem0, mem1)
    &&& mem1.mmu == mem0.mmu
    &&& io1.input == io0.input
    &&& op2 == 0 ==> {
        &&& io1.cursor == io0.cursor
        &&& cstr_ok(mem0.mmu, op1 as u32) ==> r == Ok::<i32, SimulatorError>(op1) && io1.output@
            == io0.output@ + cstring_from(mem0.mmu, op1 as u32)
        &&& !cstr_ok(mem0.mmu, op1 as u32) ==> r is Err && r->Err_0 matches
            SimulatorError::MemoryError(_)
    }
    &&& op2 == 1 ==> r == Ok::<i32, SimulatorError>(op1) && io1.output@ == io0.output@ + seq![
        op1 as u8,
    ] && io1.cursor == io0.cursor
    &&& op2 == 2 ==> r == Ok::<i32, SimulatorError>(op1) && io1.output@ == io0.output@ + dec_bytes(
        op1 as int,
    ) && io1.cursor == io0.cursor
    &&& op2 == 3 ==> r == Ok::<i32, SimulatorError>(op1) && io1 == io0
    &&& op2 == 4 ==> io1.output == io0.output && {
        &&& io0.cursor < io0.input.len() ==> r == Ok::<i32, SimulatorError>(
            io0.input[io0.cursor as int] as i32,
        ) && io1.cursor == io0.cursor + 1
        &&& io0.cursor >= io0.input.len() ==> r == Err::<i32, SimulatorError>(
            SimulatorError::ExecutionError(ExecutionError::InputExhausted),
        ) && io1 == io0
    }
    &&& op2 == 5 ==> io1.output == io0.output && {
        let s = io0.input@;
        let start = skip_spaces(s, io0.cursor as int);
        let neg = start < s.len() && s[start] == 45;
        let body = if neg {
            start + 1
        } else {
            start
        };
        let end = digits_end(s, body);
        let value = if neg {
            -digits_value(s, body, end)
        } else {
            digits_value(s, body, end)
        };
        &&& end == body ==> r == Err::<i32, SimulatorError>(
            SimulatorError::ExecutionError(ExecutionError::InputExhausted),
        )
        &&& end > body && i32::MIN <= value <= i32::MAX ==> r == Ok::<i32, SimulatorError>(
            value as i32,
        ) && io1.cursor == end
        &&& end > body && value > i32::MAX ==> r == Ok::<i32, SimulatorError>(i32::MAX)
        &&& end > body && value < i32::MIN ==> r == Ok::<i32, SimulatorError>(i32::MIN)
        &&& end > body ==> r is Ok && io1.cursor == end
    }
    &&& !(0 <= op2 <= 5) ==> r == Err::<i32, SimulatorError>(
        SimulatorError::ExecutionError(ExecutionError::UnknownSystemCall(op2)),
    ) && io1 == io0
}

/// The outcome one system call determines over plain values: the new a0
/// value, the new input cursor and the new output bytes, or a failure.
pub enum SysOutcome {
    Done(i32, int, Seq<u8>),
    Fail,
}

/// What one system call does, as a function of the page map, the input
/// bytes, the cursor and the output bytes.  `syscall_post` pins exactly
/// this outcome.
pub open spec fn sys_step(
    op1: i32,
    op2: i32,
    p: Map<int, Seq<u8>>,
    input: Seq<u8>,
    cursor: int,
    output: Seq<u8>,
) -> SysOutcome {
    if op2 == 0 {
        if pg_cstr_ok(p, op1 as u32) {
            SysOutcome::Done(op1, cursor, output + pg_cstring_from(p, op1 as u32))
        } else {
            SysOutcome::Fail
        }
    } else if op2 == 1 {
        SysOutcome::Done(op1, cursor, output + seq![op1 as u8])
    } else if op2 == 2 {
        SysOutcome::Done(op1, cursor, output + dec_bytes(op1 as int))
    } else if op2 == 3 {
        SysOutcome::Done(op1, cursor, output)
    } else if op2 == 4 {
        if cursor < input.len() {
            SysOutcome::Done(input[cursor] as i32, cursor + 1, output)
        } else {
            SysOutcome::Fail
        }
    } else if op2 == 5 {
        let start = skip_spaces(input, cursor);
        let neg = start < input.len() && input[start] == 45;
        let body = if neg {
            start + 1
        } else {
            start
        };
        let end = digits_end(input, body);
        if end == body {
            SysOutcome::Fail
        } else {
            let value = if neg {
                -digits_value(input, body, end)
            } else {
                digits_value(input, body, end)
            };
            let clamped: i32 = if value < i32::MIN {
                i32::MIN
            } else if value > i32::MAX {
                i32::MAX
            } else {
                value as i32
            };
            SysOutcome::Done(clamped, end, output)
        }
    } else {
        SysOutcome::Fail
    }
}

/// The relational postcondition of a system call succeeds exactly when
/// `sys_step` does, and then pins its outcome.
pub proof fn lemma_syscall_step(
    op1: i32,
    op2: i32,
    mem0: InclusiveCache,
    mem1: InclusiveCache,
    io0: SyscallIO,
    io1: SyscallIO,
    r: SimulatorResult<i32>,
)
    requires
        io0.wf(),
        syscall_post(op1, op2, mem0, mem1, io0, io1, r),
    ensures
        r is Ok <==> sys_step(op1, op2, mem0.mmu.pages(), io0.input@, io0.cursor as int, io0.output@) is Done,
        r is Ok ==> sys_step(op1, op2, mem0.mmu.pages(), io0.input@, io0.cursor as int, io0.output@)
            == SysOutcome::Done(r->Ok_0, io1.cursor as int, io1.output@),
        mem1.mmu == mem0.mmu,
{
    let p = mem0.mmu.pages();
    let sout = sys_step(op1, op2, p, io0.input@, io0.cursor as int, io0.output@);
    if op2 == 0 {
        lemma_cstr_pg(mem0.mmu, op1 as u32);
        if cstr_ok(mem0.mmu, op1 as u32) {
            assert(sout == SysOutcome::Done(
                op1,
                io0.cursor as int,
                io0.output@ + pg_cstring_from(p, op1 as u32),
            ));
        } else {
            assert(sout is Fail);
        }
    } else if op2 == 1 {
        assert(sout == SysOutcome::Done(op1, io0.cursor as int, io0.output@ + seq![op1 as u8]));
    } else if op2 == 2 {
        assert(sout == SysOutcome::Done(op1, io0.cursor as int, io0.output@ + dec_bytes(op1 as int)));
    } else if op2 == 3 {
        assert(sout == SysOutcome::Done(op1, io0.cursor as int, io0.output@));
    } else if op2 == 4 {
        if io0.cursor < io0.input.len() {
            assert(sout == SysOutcome::Done(
                io0.input[io0.cursor as int] as i32,
                io0.cursor + 1,
                io0.output@,
            ));
        } else {
            assert(sout is Fail);
        }
    } else if op2 == 5 {
        let s = io0.input@;
        let start = skip_spaces(s, io0.cursor as int);
        let neg = start < s.len() && s[start] == 45;
        let body = if neg {
            start + 1
        } else {
            start
        };
        let end = digits_end(s, body);
        lemma_digits_end_bounds(s, body);
        if end > body {
            let value = if neg {
                -digits_value(s, body, end)
            } else {
                digits_value(s, body, end)
            };
            if value < i32::MIN {
                assert(r == Ok::<i32, SimulatorError>(i32::MIN));
                assert(sout == SysOutcome::Done(i32::MIN, end, io0.output@));
            } else if value > i32::MAX {
                assert(r == Ok::<i32, SimulatorError>(i32::MAX));
                assert(sout == SysOutcome::Done(i32::MAX, end, io0.output@));
            } else {
                assert(r == Ok::<i32, SimulatorError>(value as i32));
                assert(sout == SysOutcome::Done(value as i32, end, io0.output@));
            }
            assert(io1.cursor == end);
        } else {
            assert(sout is Fail);
        }
    } else {
        assert(sout is Fail);
        assert(r is Err);
    }
}

/// Handles one system call, dispatched on the a7 value in `op2` with the
/// a0 argument in `op1`.  Returns the new a0 value; `3` (exit) does
/// nothing here — termination is driven by the datapath.  A decimal read
/// whose value does not fit 32 bits is clamped to the nearest
/// representable value.
pub fn syscall(op1: i32, op2: i32, mem: &mut InclusiveCache, io: &mut SyscallIO) -> (r:
    SimulatorResult<i32>)
    requires
        old(mem).wf(),
        old(io).wf(),
    ensures
        syscall_post(op1, op2, *old(mem), *final(mem), *old(io), *final(io), r),
{
    let call_type = op2;
    let call_arg = op1;

    match call_type {
        0 => {
            // Print a NUL-terminated string
            let start = call_arg as u32;
            let mut address = start;
            let ghost m0 = mem.mmu;
            let ghost out0 = io.output@;
            let ghost mut acc = Seq::<u8>::empty();
            let mut done = false;
            while !done
                invariant
                    mem.wf(),
                    io.wf(),
                    InclusiveCache::same_shape(*old(mem), *mem),
                    mem.mmu == m0,
                    m0 == old(mem).mmu,
                    start == op1 as u32,
                    op2 == 0,
                    io.input == old(io).input,
                    io.cursor == old(io).cursor,
                    io.output@ == out0 + acc,
                    out0 == old(io).output@,
                    cstr_ok(m0, start) == cstr_ok(m0, address),
                    cstring_from(m0, start) == acc + cstring_from(m0, address),
                    done ==> cstr_ok(m0, start) && cstring_from(m0, start) == acc,
                decreases (if done {
                    0int
                } else {
                    1int
                }), 0xffffffffu32 - address,
            {
                let b = match mem.get(address, 1, &mut None, &mut None) {
                    Ok(v) => v as u8,
                    Err(e) => {
                        proof {
                            assert(!cstr_ok(m0, address));
                        }
                        return Err(e);
                    },
                };
                if b == 0 {
                    done = true;
                    proof {
                        assert(cstring_from(m0, address) =~= Seq::<u8>::empty());
                        assert(cstring_from(m0, start) =~= acc);
                    }
                } else {
                    io.output.push(b);
                    proof {
                        acc = acc + seq![b];
                    }
                    if address == 0xffffffffu32 {
                        proof {
                            assert(!cstr_ok(m0, address));
                        }
                        return Err(
                            SimulatorError::MemoryError(
                                MemoryError::AccessError {
                                    address,
                                    kind: MemoryErrorKind::OutOfBounds,
                                },
                            ),
                        );
                    }
                    proof {
                        assert(cstring_from(m0, address) == seq![b] + cstring_from(
                            m0,
                            (address + 1) as u32,
                        ));
                        assert(acc + cstring_from(m0, (address + 1) as u32) =~= cstring_from(
                            m0,
                            start,
                        ));
                    }
                    address = address + 1;
                }
            }
            Ok(call_arg)
        },
        1 => {
            // Print a character
            io.output.push(call_arg as u8);
            proof {
                assert(final(io).output@ =~= old(io).output@ + seq![op1 as u8]);
            }
            Ok(call_arg)
        },
        2 => {
            // Print a signed number
            if call_arg < 0 {
                io.output.push(45);
                let magnitude = (-(call_arg as i64)) as u32;
                push_decimal(magnitude, &mut io.output);
                proof {
                    assert(final(io).output@ =~= old(io).output@ + dec_bytes(op1 as int));
                }
            } else {
                push_decimal(call_arg as u32, &mut io.output);
            }
            Ok(call_arg)
        },
        3 => {
            // Exit: nothing to do here
            Ok(call_arg)
        },
        4 => {
            // Read a character
            if io.cursor < io.input.len() {
                let b = io.input[io.cursor];
                io.cursor = io.cursor + 1;
                Ok(b as i32)
            } else {
                Err(SimulatorError::ExecutionError(ExecutionError::InputExhausted))
            }
        },
        5 => {
            // Read a signed number
            let ghost s = io.input@;
            // Skip leading whitespace
            while io.cursor < io.input.len() && byte_is_space(io.input[io.cursor])
                invariant
                    io.wf(),
                    io.input == old(io).input,
                    io.output == old(io).output,
                    s == io.input@,
                    io.cursor >= old(io).cursor,
                    skip_spaces(s, old(io).cursor as int) == skip_spaces(s, io.cursor as int),
                decreases io.input.len() - io.cursor,
            {
                proof {
                    assert(skip_spaces(s, io.cursor as int) == skip_spaces(s, io.cursor + 1));
                }
                io.cursor = io.cursor + 1;
            }
            proof {
                assert(skip_spaces(s, io.cursor as int) == io.cursor as int);
            }
            let ghost start = io.cursor as int;
            // Optional minus sign
            let neg = io.cursor < io.input.len() && io.input[io.cursor] == 45;
            if neg {
                io.cursor = io.cursor + 1;
            }
            let ghost body = io.cursor as int;
            // A run of digits
            let mut value: i64 = 0;
            let ghost mut true_value: int = 0;
            let mut got_digit = false;
            while io.cursor < io.input.len() && byte_is_digit(io.input[io.cursor])
                invariant
                    io.wf(),
                    io.input == old(io).input,
                    io.output == old(io).output,
                    s == io.input@,
                    body <= io.cursor as int,
                    got_digit == (io.cursor as int > body),
                    digits_end(s, body) == digits_end(s, io.cursor as int),
                    true_value == digits_value(s, body, io.cursor as int),
                    true_value >= 0,
                    value == (if true_value <= 0x1_0000_0000 {
                        true_value
                    } else {
                        0x1_0000_0000int
                    }),
                decreases io.input.len() - io.cursor,
            {
                let b = io.input[io.cursor];
                let d = (b - 48) as i64;
                if value <= 0x1_0000_0000 {
                    value = value * 10 + d;
                }
                if value > 0x1_0000_0000 {
                    value = 0x1_0000_0000;
                }
                proof {
                    true_value = true_value * 10 + (b - 48);
                    assert(digits_value(s, body, io.cursor + 1) == digits_value(
                        s,
                        body,
                        io.cursor as int,
                    ) * 10 + (s[io.cursor as int] - 48));
                    assert(digits_end(s, io.cursor as int) == digits_end(s, io.cursor + 1));
                }
                io.cursor = io.cursor + 1;
                got_digit = true;
            }
            proof {
                assert(digits_end(s, io.cursor as int) == io.cursor as int);
            }
            if !got_digit {
                return Err(SimulatorError::ExecutionError(ExecutionError::InputExhausted));
            }
            if neg {
                if value <= 0x80000000 {
                    Ok((-value) as i32)
                } else {
                    Ok(i32::MIN)
                }
            } else {
                if value <= 0x7fffffff {
                    Ok(value as i32)
                } else {
                    Ok(i32::MAX)
                }
            }
        },
        _ => Err(SimulatorError::ExecutionError(ExecutionError::UnknownSystemCall(call_type))),
    }
}

} // verus!
