//! The cache benchmarking harness: parsing a memory trace and replaying
//! it against a hierarchy.
//!
//! A trace is UTF-8 text with one operation per line — `r` or `w`, then a
//! hex address written with a `0x` prefix — and blank lines are skipped.
//! Reading the trace file and computing the AMAT report live with the
//! surrounding I/O layer; the library parses the bytes and performs the
//! accesses.

use vstd::prelude::*;

use crate::error::ElfError;
use crate::error::SimulatorError;
use crate::error::SimulatorResult;
use crate::exclusive::ExclusiveCache;
use crate::inclusive::InclusiveCache;
use crate::system_call::is_space;

verus! {

/// An ASCII hexadecimal digit.
pub open spec fn is_hex_digit(b: u8) -> bool {
    (48 <= b <= 57) || (97 <= b <= 102) || (65 <= b <= 70)
}

/// The value of an ASCII hexadecimal digit.
pub open spec fn hex_value(b: u8) -> u32 {
    if 48 <= b <= 57 {
        (b - 48) as u32
    } else if 97 <= b <= 102 {
        (b - 87) as u32
    } else {
        (b - 55) as u32
    }
}

/// Converts one ASCII hexadecimal digit.
fn hex_digit(b: u8) -> (r: Option<u32>)
    ensures
        is_hex_digit(b) ==> r == Some(hex_value(b)),
        !is_hex_digit(b) ==> r is None,
{
    if 48 <= b && b <= 57 {
        Some((b - 48) as u32)
    } else if 97 <= b && b <= 102 {
        Some((b - 87) as u32)
    } else if 65 <= b && b <= 70 {
        Some((b - 55) as u32)
    } else {
        None
    }
}

/// Whether a byte is horizontal whitespace or a carriage return.
fn byte_is_blank(b: u8) -> (r: bool)
    ensures
        r == is_space(b),
{
    b == 32 || b == 9 || b == 10 || b == 13
}


/// The end of the line starting at `pos`: the next newline, or the end of
/// the content.
pub open spec fn line_end_from(s: Seq<u8>, pos: int) -> int
    decreases s.len() - pos,
{
    if 0 <= pos < s.len() && s[pos] != 10 {
        line_end_from(s, pos + 1)
    } else {
        pos
    }
}

/// The first position in `[i, end)` holding a non-whitespace byte, or
/// `end`.
pub open spec fn skip_blank_to(s: Seq<u8>, i: int, end: int) -> int
    decreases end - i,
{
    if i < end && is_space(s[i]) {
        skip_blank_to(s, i + 1, end)
    } else {
        i
    }
}

/// The first position in `[i, end)` holding a whitespace byte, or `end`.
pub open spec fn token_end_to(s: Seq<u8>, i: int, end: int) -> int
    decreases end - i,
{
    if i < end && !is_space(s[i]) {
        token_end_to(s, i + 1, end)
    } else {
        i
    }
}

/// Every byte of `[i, j)` is a hexadecimal digit.
pub open spec fn hex_run_ok(s: Seq<u8>, i: int, j: int) -> bool {
    forall|k: int| i <= k < j ==> is_hex_digit(#[trigger] s[k])
}

/// The value of the hexadecimal run `s[i..j)`.
pub open spec fn hex_val(s: Seq<u8>, i: int, j: int) -> int
    decreases j - i,
{
    if i >= j {
        0
    } else {
        hex_val(s, i, j - 1) * 16 + hex_value(s[j - 1])
    }
}

/// Every proper prefix of the run keeps the accumulated value small
/// enough that one more digit still fits 32 bits.
pub open spec fn hex_fits(s: Seq<u8>, i: int, j: int) -> bool {
    forall|k: int| i <= k < j ==> #[trigger] hex_val(s, i, k) <= 0x0fffffff
}

/// What one trace line means: `None` for a malformed line, `Some(None)`
/// for a blank one, and `Some(Some(op))` for an operation — an `r` or `w`
/// token followed by a `0x`-prefixed hex address that fits 32 bits.
pub open spec fn parse_line(s: Seq<u8>, start: int, end: int) -> Option<Option<(char, u32)>> {
    let c0 = skip_blank_to(s, start, end);
    if c0 == end {
        Some(None)
    } else if s[c0] != 114 && s[c0] != 119 {
        None
    } else {
        let op = if s[c0] == 114 {
            'r'
        } else {
            'w'
        };
        let c1 = skip_blank_to(s, token_end_to(s, c0, end), end);
        if end - c1 < 2 || s[c1] != 48 || s[c1 + 1] != 120 {
            None
        } else {
            let h0 = c1 + 2;
            let h1 = token_end_to(s, h0, end);
            if h1 == h0 || !hex_run_ok(s, h0, h1) || !hex_fits(s, h0, h1) || skip_blank_to(
                s,
                h1,
                end,
            ) != end {
                None
            } else {
                Some(Some((op, hex_val(s, h0, h1) as u32)))
            }
        }
    }
}

/// A token scan never moves backwards, nor past the end.
proof fn lemma_token_end_bounds(s: Seq<u8>, i: int, end: int)
    requires
        i <= end,
    ensures
        i <= token_end_to(s, i, end) <= end,
    decreases end - i,
{
    if i < end && !is_space(s[i]) {
        lemma_token_end_bounds(s, i + 1, end);
    }
}

/// A hexadecimal run never has a negative value.
proof fn lemma_hex_val_nonneg(s: Seq<u8>, i: int, j: int)
    ensures
        hex_val(s, i, j) >= 0,
    decreases j - i,
{
    if i < j {
        lemma_hex_val_nonneg(s, i, j - 1);
        vstd::arithmetic::mul::lemma_mul_inequality(0, hex_val(s, i, j - 1), 16);
        vstd::arithmetic::mul::lemma_mul_is_commutative(hex_val(s, i, j - 1), 16);
    }
}

/// A line never ends before it starts, nor past the content.
proof fn lemma_line_end_bounds(s: Seq<u8>, pos: int)
    requires
        0 <= pos <= s.len(),
    ensures
        pos <= line_end_from(s, pos) <= s.len(),
    decreases s.len() - pos,
{
    if pos < s.len() && s[pos] != 10 {
        lemma_line_end_bounds(s, pos + 1);
    }
}

/// What a whole trace means: the operations of its lines in order, or
/// `None` as soon as one line is malformed.
pub open spec fn spec_operations(s: Seq<u8>, pos: int) -> Option<Seq<(char, u32)>>
    decreases s.len() - pos,
    via spec_operations_dec
{
    if pos >= s.len() {
        Some(Seq::empty())
    } else {
        let end = line_end_from(s, pos);
        let next = if end < s.len() {
            end + 1
        } else {
            end
        };
        match parse_line(s, pos, end) {
            None => None,
            Some(None) => spec_operations(s, next),
            Some(Some(op)) => match spec_operations(s, next) {
                None => None,
                Some(rest) => Some(seq![op] + rest),
            },
        }
    }
}

#[via_fn]
proof fn spec_operations_dec(s: Seq<u8>, pos: int) {
    if 0 <= pos < s.len() {
        lemma_line_end_bounds(s, pos);
    }
}

/// Parses the operations of a trace held in `content`: per non-blank
/// line, an `r` or `w` token and a `0x`-prefixed hex address that fits 32
/// bits.  A malformed line fails with `ParseError` carrying its
/// one-based line number; every parsed operation is an `r` or a `w`.
#[verifier::loop_isolation(false)]
pub fn fetch_operations(content: &Vec<u8>) -> (r: SimulatorResult<Vec<(char, u32)>>)
    ensures
        spec_operations(content@, 0) is Some ==> r is Ok && r->Ok_0@ == spec_operations(
            content@,
            0,
        )->Some_0,
        spec_operations(content@, 0) is None ==> r is Err,
        r is Ok ==> forall|i: int|
            0 <= i < r->Ok_0.len() ==> (#[trigger] r->Ok_0[i]).0 == 'r' || r->Ok_0[i].0 == 'w',
        r is Err ==> r->Err_0 matches SimulatorError::ElfLoadError(ElfError::ParseError(_)),
{
    let ghost s = content@;
    let mut operations: Vec<(char, u32)> = Vec::new();
    let mut pos: usize = 0;
    let mut line_num: usize = 0;

    while pos < content.len()
        invariant
            s == content@,
            pos <= content.len(),
            forall|i: int|
                0 <= i < operations.len() ==> (#[trigger] operations[i]).0 == 'r'
                    || operations[i].0 == 'w',
            spec_operations(s, 0) == (match spec_operations(s, pos as int) {
                None => None::<Seq<(char, u32)>>,
                Some(rest) => Some(operations@ + rest),
            }),
        decreases content.len() - pos,
    {
        let ghost pos0 = pos as int;
        // One line per iteration
        if line_num < usize::MAX {
            line_num = line_num + 1;
        }
        let line_start = pos;
        let mut line_end = pos;
        while line_end < content.len() && content[line_end] != 10
            invariant
                s == content@,
                line_start <= line_end <= content.len(),
                line_end_from(s, line_start as int) == line_end_from(s, line_end as int),
            decreases content.len() - line_end,
        {
            line_end = line_end + 1;
        }
        proof {
            assert(line_end_from(s, line_start as int) == line_end as int);
        }
        let ghost lend = line_end as int;
        pos = if line_end < content.len() {
            line_end + 1
        } else {
            line_end
        };

        // Find the operation token
        let mut cursor = line_start;
        while cursor < line_end && byte_is_blank(content[cursor])
            invariant
                s == content@,
                line_start <= cursor <= line_end <= content.len(),
                lend == line_end as int,
                skip_blank_to(s, line_start as int, lend) == skip_blank_to(s, cursor as int, lend),
            decreases line_end - cursor,
        {
            cursor = cursor + 1;
        }
        proof {
            assert(skip_blank_to(s, line_start as int, lend) == cursor as int);
        }
        if cursor == line_end {
            // A blank line is skipped
            proof {
                assert(parse_line(s, line_start as int, lend) == Some(None::<(char, u32)>));
            }
            continue ;
        }
        let ghost c0 = cursor as int;

        // The operation is the first byte of the first token
        let op_byte = content[cursor];
        if op_byte != 114 && op_byte != 119 {
            proof {
                assert(parse_line(s, line_start as int, lend) is None);
            }
            return Err(SimulatorError::ElfLoadError(ElfError::ParseError(line_num)));
        }
        let op: char = if op_byte == 114 {
            'r'
        } else {
            'w'
        };
        while cursor < line_end && !byte_is_blank(content[cursor])
            invariant
                s == content@,
                line_start <= cursor <= line_end <= content.len(),
                lend == line_end as int,
                token_end_to(s, c0, lend) == token_end_to(s, cursor as int, lend),
            decreases line_end - cursor,
        {
            cursor = cursor + 1;
        }
        proof {
            assert(token_end_to(s, c0, lend) == cursor as int);
        }
        let ghost t1 = cursor as int;

        // Find the address token
        while cursor < line_end && byte_is_blank(content[cursor])
            invariant
                s == content@,
                line_start <= cursor <= line_end <= content.len(),
                lend == line_end as int,
                skip_blank_to(s, t1, lend) == skip_blank_to(s, cursor as int, lend),
            decreases line_end - cursor,
        {
            cursor = cursor + 1;
        }
        proof {
            assert(skip_blank_to(s, t1, lend) == cursor as int);
        }
        let ghost c1 = cursor as int;
        // It must start with the 0x prefix
        if line_end - cursor < 2 || content[cursor] != 48 || content[cursor + 1] != 120 {
            proof {
                assert(parse_line(s, line_start as int, lend) is None);
            }
            return Err(SimulatorError::ElfLoadError(ElfError::ParseError(line_num)));
        }
        cursor = cursor + 2;
        let ghost h0 = cursor as int;

        // Hexadecimal digits, fitting in 32 bits
        let mut address: u32 = 0;
        let mut digits: usize = 0;
        while cursor < line_end && !byte_is_blank(content[cursor])
            invariant
                s == content@,
                line_start <= cursor <= line_end <= content.len(),
                lend == line_end as int,
                2 <= h0 <= cursor as int,
                token_end_to(s, h0, lend) == token_end_to(s, cursor as int, lend),
                forall|k: int| h0 <= k < cursor as int ==> is_hex_digit(#[trigger] s[k]),
                address as int == hex_val(s, h0, cursor as int),
                forall|k: int|
                    h0 <= k < cursor as int ==> #[trigger] hex_val(s, h0, k) <= 0x0fffffff,
                digits == cursor as int - h0,
            decreases line_end - cursor,
        {
            let d = match hex_digit(content[cursor]) {
                Some(v) => v,
                None => {
                    proof {
                        lemma_token_end_bounds(s, cursor + 1, lend);
                        assert(token_end_to(s, cursor as int, lend) == token_end_to(
                            s,
                            cursor + 1,
                            lend,
                        ));
                        assert(!hex_run_ok(s, h0, token_end_to(s, h0, lend)));
                        assert(parse_line(s, line_start as int, lend) is None);
                    }
                    return Err(SimulatorError::ElfLoadError(ElfError::ParseError(line_num)));
                },
            };
            if address > 0x0fff_ffff {
                // The address would overflow 32 bits
                proof {
                    lemma_token_end_bounds(s, cursor + 1, lend);
                    assert(token_end_to(s, cursor as int, lend) == token_end_to(
                        s,
                        cursor + 1,
                        lend,
                    ));
                    assert(!hex_fits(s, h0, token_end_to(s, h0, lend)));
                    assert(parse_line(s, line_start as int, lend) is None);
                }
                return Err(SimulatorError::ElfLoadError(ElfError::ParseError(line_num)));
            }
            proof {
                assert(hex_val(s, h0, cursor + 1) == hex_val(s, h0, cursor as int) * 16
                    + hex_value(s[cursor as int]));
            }
            address = address * 16 + d;
            if digits < usize::MAX {
                digits = digits + 1;
            }
            cursor = cursor + 1;
        }
        proof {
            assert(token_end_to(s, h0, lend) == cursor as int);
        }
        let ghost h1 = cursor as int;
        if digits == 0 {
            proof {
                assert(parse_line(s, line_start as int, lend) is None);
            }
            return Err(SimulatorError::ElfLoadError(ElfError::ParseError(line_num)));
        }

        // Nothing but whitespace may follow
        while cursor < line_end && byte_is_blank(content[cursor])
            invariant
                s == content@,
                line_start <= cursor <= line_end <= content.len(),
                lend == line_end as int,
                skip_blank_to(s, h1, lend) == skip_blank_to(s, cursor as int, lend),
            decreases line_end - cursor,
        {
            cursor = cursor + 1;
        }
        proof {
            assert(skip_blank_to(s, h1, lend) == cursor as int);
        }
        if cursor != line_end {
            proof {
                assert(parse_line(s, line_start as int, lend) is None);
            }
            return Err(SimulatorError::ElfLoadError(ElfError::ParseError(line_num)));
        }

        proof {
            lemma_hex_val_nonneg(s, h0, h1 - 1);
            assert(hex_val(s, h0, h1) == hex_val(s, h0, h1 - 1) * 16 + hex_value(s[h1 - 1]));
            vstd::arithmetic::mul::lemma_mul_inequality(hex_val(s, h0, h1 - 1), 0x0fffffff, 16);
            vstd::arithmetic::mul::lemma_mul_is_commutative(hex_val(s, h0, h1 - 1), 16);
            assert(parse_line(s, line_start as int, lend) == Some(
                Some((op, hex_val(s, h0, h1) as u32)),
            ));
        }
        operations.push((op, address));
        proof {
            let next = pos as int;
            if spec_operations(s, next) is Some {
                assert(operations@ + spec_operations(s, next)->Some_0 =~= operations@.subrange(
                    0,
                    operations@.len() - 1,
                ) + (seq![(op, address)] + spec_operations(s, next)->Some_0));
                assert(operations@.subrange(0, operations@.len() - 1) + (seq![(op, address)]
                    + spec_operations(s, next)->Some_0) =~= operations@.subrange(
                    0,
                    operations@.len() - 1,
                ) + seq![(op, address)] + spec_operations(s, next)->Some_0);
            }
        }
    }

    Ok(operations)
}

/// Replays a parsed trace against an inclusive hierarchy: every touched
/// page is allocated first, then each operation performs one byte access.
/// The AMAT is computed from the resulting hit/miss histories by the
/// caller.
pub fn run_trace(cache: &mut InclusiveCache, operations: &Vec<(char, u32)>) -> (r: SimulatorResult<
    (),
>)
    requires
        old(cache).wf(),
        forall|i: int|
            0 <= i < operations.len() ==> (#[trigger] operations[i]).0 == 'r' || operations[i].0
                == 'w',
    ensures
        final(cache).wf(),
        InclusiveCache::same_shape(*old(cache), *final(cache)),
        r is Ok,
        forall|i: int| #![all_triggers]
            0 <= i < operations.len() ==> final(cache).mmu.spec_allocated(operations[i].1),
        old(cache).ref_counter + operations.len() <= u64::MAX ==> final(cache).ref_counter == old(
            cache,
        ).ref_counter + operations.len(),
{
    // Allocate the touched pages beforehand
    let mut i: usize = 0;
    while i < operations.len()
        invariant
            cache.wf(),
            InclusiveCache::same_shape(*old(cache), *cache),
            i <= operations.len(),
            cache.ref_counter == old(cache).ref_counter,
            forall|x: int| #![all_triggers]
                0 <= x < i ==> cache.mmu.spec_allocated(operations[x].1),
        decreases operations.len() - i,
    {
        let ghost pre = cache.mmu;
        let address = operations[i].1;
        let mmu = &mut cache.mmu;
        let _ = mmu.allocate_page(address);
        proof {
            assert forall|x: int| #![all_triggers]
                0 <= x < i + 1 implies cache.mmu.spec_allocated(operations[x].1) by {
                if x < i {
                    assert(pre.spec_allocated(operations[x].1));
                }
            }
        }
        i = i + 1;
    }

    // Replay the operations
    let mut i: usize = 0;
    while i < operations.len()
        invariant
            cache.wf(),
            InclusiveCache::same_shape(*old(cache), *cache),
            i <= operations.len(),
            forall|x: int|
                0 <= x < operations.len() ==> (#[trigger] operations[x]).0 == 'r' || operations[x].0
                    == 'w',
            forall|x: int| #![all_triggers]
                0 <= x < operations.len() ==> cache.mmu.spec_allocated(operations[x].1),
            old(cache).ref_counter + operations.len() <= u64::MAX ==> cache.ref_counter == old(
                cache,
            ).ref_counter + i,
        decreases operations.len() - i,
    {
        let (op, address) = operations[i];
        let mut dummy: Option<i32> = Some(0);
        if op == 'r' {
            let _ = match cache.get8(address, &mut dummy) {
                Ok(v) => v,
                Err(_) => {
                    proof {
                        assert(false);
                    }
                    0
                },
            };
        } else {
            match cache.set8(address, 0, &mut dummy) {
                Ok(()) => {},
                Err(_) => {
                    proof {
                        assert(false);
                    }
                },
            }
        }
        i = i + 1;
    }

    Ok(())
}

/// Replays a parsed trace against an exclusive hierarchy, as `run_trace`
/// does for an inclusive one.
pub fn run_trace_exclusive(cache: &mut ExclusiveCache, operations: &Vec<(char, u32)>) -> (r:
    SimulatorResult<()>)
    requires
        old(cache).wf(),
        forall|i: int|
            0 <= i < operations.len() ==> (#[trigger] operations[i]).0 == 'r' || operations[i].0
                == 'w',
    ensures
        final(cache).wf(),
        ExclusiveCache::same_shape(*old(cache), *final(cache)),
        r is Ok,
        forall|i: int| #![all_triggers]
            0 <= i < operations.len() ==> final(cache).mmu.spec_allocated(operations[i].1),
        old(cache).ref_counter + operations.len() <= u64::MAX ==> final(cache).ref_counter == old(
            cache,
        ).ref_counter + operations.len(),
{
    // Allocate the touched pages beforehand
    let mut i: usize = 0;
    while i < operations.len()
        invariant
            cache.wf(),
            ExclusiveCache::same_shape(*old(cache), *cache),
            i <= operations.len(),
            cache.ref_counter == old(cache).ref_counter,
            forall|x: int| #![all_triggers]
                0 <= x < i ==> cache.mmu.spec_allocated(operations[x].1),
        decreases operations.len() - i,
    {
        let ghost pre = cache.mmu;
        let address = operations[i].1;
        let mmu = &mut cache.mmu;
        let _ = mmu.allocate_page(address);
        proof {
            assert forall|x: int| #![all_triggers]
                0 <= x < i + 1 implies cache.mmu.spec_allocated(operations[x].1) by {
                if x < i {
                    assert(pre.spec_allocated(operations[x].1));
                }
            }
        }
        i = i + 1;
    }

    // Replay the operations
    let mut i: usize = 0;
    while i < operations.len()
        invariant
            cache.wf(),
            ExclusiveCache::same_shape(*old(cache), *cache),
            i <= operations.len(),
            forall|x: int|
                0 <= x < operations.len() ==> (#[trigger] operations[x]).0 == 'r' || operations[x].0
                    == 'w',
            forall|x: int| #![all_triggers]
                0 <= x < operations.len() ==> cache.mmu.spec_allocated(operations[x].1),
            old(cache).ref_counter + operations.len() <= u64::MAX ==> cache.ref_counter == old(
                cache,
            ).ref_counter + i,
        decreases operations.len() - i,
    {
        let (op, address) = operations[i];
        let mut dummy: Option<i32> = Some(0);
        if op == 'r' {
            let _ = match cache.get8(address, &mut dummy) {
                Ok(v) => v,
                Err(_) => {
                    proof {
                        assert(false);
                    }
                    0
                },
            };
        } else {
            match cache.set8(address, 0, &mut dummy) {
                Ok(()) => {},
                Err(_) => {
                    proof {
                        assert(false);
                    }
                },
            }
        }
        i = i + 1;
    }

    Ok(())
}

} // verus!
