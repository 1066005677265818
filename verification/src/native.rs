//! The numbers that the `libc` crate gives for the machine that the library is
//! built for.

use crate::seccomp;
use crate::seccomp::BaseCalls;
use vstd::prelude::*;

verus! {

/// The `SYS_` constants of `libc` for the calls that every architecture has.
/// Their values are those of the machine that the library is built for, so which
/// of the tables they are is not said. An architecture for which `libc` lacks one
/// of the constants has no table: the library cannot be built for it.
#[verifier::external_body]
pub(crate) fn base_calls() -> (b: BaseCalls)
    ensures
        seccomp::machine_tables().contains(seccomp::base_list(b)),
{
    BaseCalls {
        kill: libc::SYS_kill as u32,
        tkill: libc::SYS_tkill as u32,
        tgkill: libc::SYS_tgkill as u32,
        unlinkat: libc::SYS_unlinkat as u32,
        renameat: libc::SYS_renameat as u32,
        renameat2: libc::SYS_renameat2 as u32,
        truncate: libc::SYS_truncate as u32,
        ftruncate: libc::SYS_ftruncate as u32,
        mount: libc::SYS_mount as u32,
        umount2: libc::SYS_umount2 as u32,
        reboot: libc::SYS_reboot as u32,
        ptrace: libc::SYS_ptrace as u32,
    }
}

/// `libc::EPERM`, which is 1 on Linux.
#[verifier::external_body]
pub(crate) fn eperm() -> (code: u32)
    ensures
        code == 1,
{
    libc::EPERM as u32
}

/// `libc::PTRACE_POKETEXT`, which is 4 on Linux.
#[verifier::external_body]
pub(crate) fn ptrace_poketext() -> (request: u64)
    ensures
        request == 4,
{
    libc::PTRACE_POKETEXT as u64
}

/// `libc::PTRACE_POKEDATA`, which is 5 on Linux.
#[verifier::external_body]
pub(crate) fn ptrace_pokedata() -> (request: u64)
    ensures
        request == 5,
{
    libc::PTRACE_POKEDATA as u64
}

/// `libc::PTRACE_POKEUSER`, which is 6 on Linux.
#[verifier::external_body]
pub(crate) fn ptrace_pokeuser() -> (request: u64)
    ensures
        request == 6,
{
    libc::PTRACE_POKEUSER as u64
}

/// `libc::PTRACE_SETREGSET`, which is 0x4205 on Linux.
#[verifier::external_body]
pub(crate) fn ptrace_setregset() -> (request: u64)
    ensures
        request == 0x4205,
{
    libc::PTRACE_SETREGSET as u64
}

} // verus!
