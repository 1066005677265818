use ronly::seccomp::{
    blocked_calls, filter_program, native_numbers, ptrace_write_requests, setup_seccomp, Arch,
    BaseCalls, Instruction, Numbers, X86Numbers,
};

const ALLOW: u32 = 0x7fff_0000;
const REFUSE: u32 = 0x0005_0001;
const KILL: u32 = 0x8000_0000;
const X86_64: u32 = 0xC000_003E;
const AARCH64: u32 = 0xC000_00B7;
const RISCV64: u32 = 0xC000_00F3;

fn x86() -> X86Numbers {
    X86Numbers { unlink: 87, rmdir: 84, rename: 82, ptrace_setregs: 13, ptrace_setfpregs: 15 }
}

fn numbers(extra: Option<X86Numbers>) -> Numbers {
    Numbers {
        base: BaseCalls {
            kill: 62,
            tkill: 200,
            tgkill: 234,
            unlinkat: 263,
            renameat: 264,
            renameat2: 316,
            truncate: 76,
            ftruncate: 77,
            mount: 165,
            umount2: 166,
            reboot: 169,
            ptrace: 101,
        },
        x86: extra,
    }
}

/// Runs a filter as the kernel does.
fn answer(program: &[Instruction], arch: u32, number: u32, args: [u64; 6]) -> u32 {
    let mut accumulator: u32 = 0;
    let mut at: usize = 0;
    loop {
        let i = program[at];
        at += 1;
        match i.code {
            0x20 => {
                accumulator = match i.k {
                    0 => number,
                    4 => arch,
                    k => {
                        let value = args[(k as usize - 16) / 8];
                        if k % 8 == 0 {
                            value as u32
                        } else {
                            (value >> 32) as u32
                        }
                    }
                }
            }
            0x15 => at += if accumulator == i.k { i.jt } else { i.jf } as usize,
            0x05 => at += i.k as usize,
            0x06 => return i.k,
            other => panic!("unknown operation {}", other),
        }
    }
}

fn call(program: &[Instruction], number: u32, first: u64) -> u32 {
    answer(program, X86_64, number, [first, 1, 2, 3, 4, 5])
}

#[test]
fn blocked_calls_without_the_older_ones() {
    assert_eq!(
        blocked_calls(&numbers(None)),
        vec![62, 200, 234, 263, 264, 316, 76, 77, 165, 166, 169]
    );
}

#[test]
fn blocked_calls_with_the_older_ones() {
    assert_eq!(
        blocked_calls(&numbers(Some(x86()))),
        vec![62, 200, 234, 263, 264, 316, 76, 77, 165, 166, 169, 87, 84, 82]
    );
}

#[test]
fn ptrace_requests_are_those_of_libc() {
    assert_eq!(
        ptrace_write_requests(&numbers(None)),
        vec![
            libc::PTRACE_POKETEXT as u64,
            libc::PTRACE_POKEDATA as u64,
            libc::PTRACE_POKEUSER as u64,
            libc::PTRACE_SETREGSET as u64,
        ]
    );
    assert_eq!(
        ptrace_write_requests(&numbers(Some(x86()))),
        vec![4, 5, 6, 0x4205, 13, 15]
    );
}

#[test]
fn native_numbers_are_those_of_libc() {
    let n = native_numbers(Some(x86()));
    assert_eq!(n.base.kill as i64, libc::SYS_kill);
    assert_eq!(n.base.tkill as i64, libc::SYS_tkill);
    assert_eq!(n.base.tgkill as i64, libc::SYS_tgkill);
    assert_eq!(n.base.unlinkat as i64, libc::SYS_unlinkat);
    assert_eq!(n.base.renameat as i64, libc::SYS_renameat);
    assert_eq!(n.base.renameat2 as i64, libc::SYS_renameat2);
    assert_eq!(n.base.truncate as i64, libc::SYS_truncate);
    assert_eq!(n.base.ftruncate as i64, libc::SYS_ftruncate);
    assert_eq!(n.base.mount as i64, libc::SYS_mount);
    assert_eq!(n.base.umount2 as i64, libc::SYS_umount2);
    assert_eq!(n.base.reboot as i64, libc::SYS_reboot);
    assert_eq!(n.base.ptrace as i64, libc::SYS_ptrace);
    assert_eq!(n.x86, Some(x86()));
    assert_eq!(native_numbers(None).x86, None);
}

#[test]
fn the_native_calls_differ_and_are_not_permitted() {
    let n = native_numbers(None);
    let calls = blocked_calls(&n);
    assert_eq!(calls.len(), 11);
    for (i, number) in calls.iter().enumerate() {
        assert_ne!(*number, n.base.ptrace as i64);
        assert!(!calls[..i].contains(number));
    }
    let program = filter_program(&n, Arch::X86_64).unwrap();
    for number in [
        libc::SYS_kill,
        libc::SYS_tkill,
        libc::SYS_tgkill,
        libc::SYS_unlinkat,
        libc::SYS_renameat,
        libc::SYS_renameat2,
        libc::SYS_truncate,
        libc::SYS_ftruncate,
        libc::SYS_mount,
        libc::SYS_umount2,
        libc::SYS_reboot,
    ] {
        assert_eq!(call(&program, number as u32, 0), REFUSE);
    }
}

#[test]
fn the_native_calls_and_the_older_ones_are_not_permitted() {
    let n = native_numbers(Some(x86()));
    let calls = blocked_calls(&n);
    assert_eq!(calls.len(), 14);
    assert!(!calls.contains(&(n.base.ptrace as i64)));
    let program = filter_program(&n, Arch::X86_64).unwrap();
    for number in calls {
        assert_eq!(call(&program, number as u32, 1), REFUSE);
    }
}

#[test]
fn the_native_numbers_are_one_of_the_tables() {
    let b = native_numbers(None).base;
    let list = [
        b.kill, b.tkill, b.tgkill, b.unlinkat, b.renameat, b.renameat2, b.truncate, b.ftruncate,
        b.mount, b.umount2, b.reboot, b.ptrace,
    ];
    let x = 0x4000_0000;
    let tables = [
        [62, 200, 234, 263, 264, 316, 76, 77, 165, 166, 169, 101],
        [
            x + 62, x + 200, x + 234, x + 263, x + 264, x + 316, x + 76, x + 77, x + 165, x + 166,
            x + 169, x + 521,
        ],
        [37, 238, 270, 301, 302, 353, 92, 93, 21, 52, 88, 26],
        [129, 130, 131, 35, 38, 276, 45, 46, 40, 39, 142, 117],
        [37, 238, 268, 328, 329, 382, 92, 93, 21, 52, 88, 26],
        [4037, 4236, 4266, 4294, 4295, 4351, 4092, 4093, 4021, 4052, 4088, 4026],
        [5060, 5192, 5225, 5253, 5254, 5311, 5074, 5075, 5160, 5161, 5164, 5099],
        [37, 208, 250, 292, 293, 357, 92, 93, 21, 52, 88, 26],
        [37, 237, 241, 294, 295, 347, 92, 93, 21, 52, 88, 26],
        [37, 187, 211, 290, 291, 345, 129, 130, 167, 45, 55, 26],
    ];
    assert!(tables.contains(&list));
}

#[test]
fn every_blocked_call_is_not_permitted() {
    let n = numbers(Some(x86()));
    let program = filter_program(&n, Arch::X86_64).unwrap();
    for number in blocked_calls(&n) {
        assert_eq!(call(&program, number as u32, 0), REFUSE);
        assert_eq!(call(&program, number as u32, u64::MAX), REFUSE);
    }
    assert_eq!(REFUSE & 0xffff, libc::EPERM as u32);
}

#[test]
fn every_other_call_is_allowed() {
    let n = numbers(Some(x86()));
    let program = filter_program(&n, Arch::X86_64).unwrap();
    let blocked = blocked_calls(&n);
    for number in 0..500u32 {
        if number != n.base.ptrace && !blocked.contains(&(number as i64)) {
            assert_eq!(call(&program, number, 4), ALLOW);
        }
    }
    assert_eq!(call(&program, u32::MAX, 4), ALLOW);
}

#[test]
fn the_older_calls_are_allowed_where_they_are_not_named() {
    let program = filter_program(&numbers(None), Arch::X86_64).unwrap();
    assert_eq!(call(&program, 87, 0), ALLOW);
    assert_eq!(call(&program, 84, 0), ALLOW);
    assert_eq!(call(&program, 82, 0), ALLOW);
    assert_eq!(call(&program, 101, 13), ALLOW);
}

#[test]
fn ptrace_writes_are_not_permitted_and_reads_are() {
    let n = numbers(Some(x86()));
    let program = filter_program(&n, Arch::X86_64).unwrap();
    for request in ptrace_write_requests(&n) {
        assert_eq!(call(&program, 101, request), REFUSE);
    }
    for request in [0u64, 1, 2, 3, 7, 12, 14, 16, 0x4204, 0x4206] {
        assert_eq!(call(&program, 101, request), ALLOW);
    }
}

#[test]
fn only_the_low_word_of_a_request_counts() {
    let program = filter_program(&numbers(None), Arch::X86_64).unwrap();
    assert_eq!(call(&program, 101, 0xffff_ffff_0000_0004), REFUSE);
    assert_eq!(call(&program, 101, 0x4_0000_0001), ALLOW);
}

#[test]
fn a_call_of_another_architecture_is_killed() {
    let n = numbers(None);
    let args = [0u64; 6];
    let x = filter_program(&n, Arch::X86_64).unwrap();
    let a = filter_program(&n, Arch::Aarch64).unwrap();
    let r = filter_program(&n, Arch::Riscv64).unwrap();
    assert_eq!(answer(&x, AARCH64, 0, args), KILL);
    assert_eq!(answer(&a, AARCH64, 0, args), ALLOW);
    assert_eq!(answer(&a, RISCV64, 62, args), KILL);
    assert_eq!(answer(&r, RISCV64, 62, args), REFUSE);
}

#[test]
fn a_ptrace_number_among_the_blocked_ones_follows_the_requests() {
    let mut n = numbers(None);
    n.base.kill = n.base.ptrace;
    let program = filter_program(&n, Arch::X86_64).unwrap();
    assert_eq!(call(&program, 101, 4), REFUSE);
    assert_eq!(call(&program, 101, 1), ALLOW);
}

#[test]
fn a_program_has_the_length_of_its_chains() {
    assert_eq!(filter_program(&numbers(None), Arch::X86_64).unwrap().len(), 5 + 11 * 5 + 22);
    assert_eq!(
        filter_program(&numbers(Some(x86())), Arch::X86_64).unwrap().len(),
        5 + 14 * 5 + 32
    );
}

#[test]
fn architectures_are_known_by_name() {
    let n = numbers(Some(x86()));
    for (name, arch) in [
        ("x86_64", Arch::X86_64),
        ("X86_64", Arch::X86_64),
        ("aarch64", Arch::Aarch64),
        ("aARch64", Arch::Aarch64),
        ("riscv64", Arch::Riscv64),
    ] {
        assert_eq!(setup_seccomp(&n, name).unwrap(), filter_program(&n, arch).unwrap());
    }
}

#[test]
fn an_unknown_architecture_is_an_error() {
    let n = numbers(None);
    assert_eq!(
        setup_seccomp(&n, "x8664").unwrap_err(),
        "unsupported arch: Invalid target arch: x8664."
    );
    assert_eq!(
        setup_seccomp(&n, "").unwrap_err(),
        "unsupported arch: Invalid target arch: ."
    );
    assert_eq!(
        setup_seccomp(&n, "ARM").unwrap_err(),
        "unsupported arch: Invalid target arch: ARM."
    );
    for name in ["r\u{130}scv64", "\u{212a}86_64", "\u{ff38}86_64", "x86_64 "] {
        assert_eq!(
            setup_seccomp(&n, name).unwrap_err(),
            format!("unsupported arch: Invalid target arch: {}.", name)
        );
    }
}
