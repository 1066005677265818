//! What the kernel does with a compiled filter.
//!
//! A filter is a program of a small machine with one accumulator. The kernel
//! runs it on each call and acts on the number that it returns. Only the four
//! operations that filters of this library consist of are modelled; all jumps
//! go forward.

use crate::seccomp::{Arch, Instruction, Verdict};
use vstd::prelude::*;

verus! {

/// A system call as a filter sees it.
pub struct Call {
    /// The architecture that the call was made on, by its audit number.
    pub arch: u32,
    pub number: u32,
    pub args: Seq<u64>,
}

/// The low 32 bits of a value.
pub open spec fn low_word(value: u64) -> u32 {
    (value as int % 0x1_0000_0000) as u32
}

/// The high 32 bits of a value.
pub open spec fn high_word(value: u64) -> u32 {
    (value as int / 0x1_0000_0000) as u32
}

/// The word at this offset of the record that describes a call: its number, its
/// architecture, the instruction pointer, which is not modelled, and six
/// arguments, each with its low word first.
pub open spec fn word_at(call: Call, offset: u32) -> Option<u32> {
    if offset == 0 {
        Some(call.number)
    } else if offset == 4 {
        Some(call.arch)
    } else if 16 <= offset < 64 && offset % 8 == 0 {
        Some(low_word(call.args[(offset - 16) / 8]))
    } else if 16 <= offset < 64 && offset % 8 == 4 {
        Some(high_word(call.args[(offset - 16) / 8]))
    } else {
        None
    }
}

/// What the program returns when it is run on the call from this position with
/// this accumulator, if it returns.
pub open spec fn result_from(
    program: Seq<Instruction>,
    call: Call,
    at: int,
    accumulator: u32,
) -> Option<u32>
    decreases
            if at < program.len() {
                program.len() - at
            } else {
                0
            },
{
    if 0 <= at < program.len() {
        let i = program[at];
        if i.code == 0x20 {
            // Load a word of the call.
            match word_at(call, i.k) {
                Some(word) => result_from(program, call, at + 1, word),
                None => None,
            }
        } else if i.code == 0x15 {
            // Jump by whether the accumulator equals the operand.
            let skipped = if accumulator == i.k {
                i.jt as int
            } else {
                i.jf as int
            };
            result_from(program, call, at + 1 + skipped, accumulator)
        } else if i.code == 0x05 {
            // Jump.
            result_from(program, call, at + 1 + i.k, accumulator)
        } else if i.code == 0x06 {
            // Return the operand.
            Some(i.k)
        } else {
            None
        }
    } else {
        None
    }
}

/// What the program returns for a call, if it returns.
pub open spec fn result_of(program: Seq<Instruction>, call: Call) -> Option<u32> {
    result_from(program, call, 0, 0)
}

/// The number by which a program says this verdict. An error number keeps its
/// low 16 bits.
pub open spec fn verdict_number(verdict: Verdict) -> u32 {
    match verdict {
        Verdict::Allow => 0x7fff_0000,
        Verdict::Errno(code) => (0x0005_0000 + code as int % 0x1_0000) as u32,
    }
}

/// The number by which a program has the process killed.
pub open spec fn kill_number() -> u32 {
    0x8000_0000
}

/// The audit number of an architecture.
pub open spec fn audit_number(arch: Arch) -> u32 {
    match arch {
        Arch::X86_64 => 0xC000_003E,
        Arch::Aarch64 => 0xC000_00B7,
        Arch::Riscv64 => 0xC000_00F3,
    }
}

} // verus!
