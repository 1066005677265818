//! The system call filter.
//!
//! A filter is a map from a call's number to a chain of rules. A call is
//! refused when its number is in the map and its chain is empty or holds a rule
//! whose conditions all hold of the call's arguments.

use crate::bpf;
use crate::compiler;
use crate::native;
use crate::text;
use seccompiler::SeccompRule;
use std::collections::BTreeMap;
use vstd::prelude::*;

verus! {

/// The numbers of the calls that every architecture has.
#[derive(Clone, Copy, Debug, PartialEq, Eq, Structural)]
pub struct BaseCalls {
    pub kill: u32,
    pub tkill: u32,
    pub tgkill: u32,
    pub unlinkat: u32,
    pub renameat: u32,
    pub renameat2: u32,
    pub truncate: u32,
    pub ftruncate: u32,
    pub mount: u32,
    pub umount2: u32,
    pub reboot: u32,
    pub ptrace: u32,
}

/// The numbers that only x86-64 has: three older calls and two ptrace requests.
#[derive(Clone, Copy, Debug, PartialEq, Eq, Structural)]
pub struct X86Numbers {
    pub unlink: u32,
    pub rmdir: u32,
    pub rename: u32,
    pub ptrace_setregs: u64,
    pub ptrace_setfpregs: u64,
}

/// The numbers that the filter is built from.
#[derive(Clone, Copy, Debug, PartialEq, Eq, Structural)]
pub struct Numbers {
    pub base: BaseCalls,
    pub x86: Option<X86Numbers>,
}

/// An architecture that a filter can be compiled for.
#[derive(Clone, Copy, Debug, PartialEq, Eq, Structural)]
pub enum Arch {
    X86_64,
    Aarch64,
    Riscv64,
}

/// What the kernel does with a call.
#[derive(Clone, Copy, Debug, PartialEq, Eq, Structural)]
pub enum Verdict {
    Allow,
    Errno(u32),
}

/// One instruction of a compiled filter.
#[derive(Clone, Copy, Debug, PartialEq, Eq, Structural)]
pub struct Instruction {
    pub code: u16,
    pub jt: u8,
    pub jf: u8,
    pub k: u32,
}

/// A condition on a call: the low 32 bits of the argument at this index equal
/// the low 32 bits of the value.
#[derive(Clone, Copy, Debug, PartialEq, Eq, Structural)]
pub struct Condition {
    pub argument: u8,
    pub value: u64,
}

/// The rules of a filter: for each call number, a chain of rules, each of them
/// a sequence of conditions.
pub type Rules = Map<i64, Seq<Seq<Condition>>>;

// ---------------------------------------------------------------------------
// What a filter answers
// ---------------------------------------------------------------------------

/// Whether two values agree in their low 32 bits.
pub open spec fn same_word(a: u64, b: u64) -> bool {
    a as int % 0x1_0000_0000 == b as int % 0x1_0000_0000
}

/// Whether every condition of the rule holds of the arguments.
pub open spec fn rule_holds(rule: Seq<Condition>, args: Seq<u64>) -> bool {
    forall|j: int| 0 <= j < rule.len() ==> same_word(args[(#[trigger] rule[j]).argument as int], rule[j].value)
}

/// Whether a chain matches: an empty chain always does, another one does when
/// some rule of it holds.
pub open spec fn chain_matches(chain: Seq<Seq<Condition>>, args: Seq<u64>) -> bool {
    chain.len() == 0 || exists|i: int| 0 <= i < chain.len() && rule_holds(#[trigger] chain[i], args)
}

/// What a filter with these rules answers to a call.
pub open spec fn verdict(
    rules: Rules,
    mismatch: Verdict,
    matched: Verdict,
    call: i64,
    args: Seq<u64>,
) -> Verdict {
    if rules.dom().contains(call) && chain_matches(rules[call], args) {
        matched
    } else {
        mismatch
    }
}

// ---------------------------------------------------------------------------
// What the sandbox refuses
// ---------------------------------------------------------------------------

/// The calls that are refused whatever their arguments.
pub open spec fn blocked(n: Numbers) -> Seq<i64> {
    let common = seq![
        n.base.kill as i64,
        n.base.tkill as i64,
        n.base.tgkill as i64,
        n.base.unlinkat as i64,
        n.base.renameat as i64,
        n.base.renameat2 as i64,
        n.base.truncate as i64,
        n.base.ftruncate as i64,
        n.base.mount as i64,
        n.base.umount2 as i64,
        n.base.reboot as i64,
    ];
    match n.x86 {
        Some(x) => common + seq![x.unlink as i64, x.rmdir as i64, x.rename as i64],
        None => common,
    }
}

/// The ptrace requests that write to the traced process: POKETEXT, POKEDATA,
/// POKEUSER and SETREGSET, and on x86-64 SETREGS and SETFPREGS.
pub open spec fn ptrace_writes(n: Numbers) -> Seq<u64> {
    let common = seq![4u64, 5u64, 6u64, 0x4205u64];
    match n.x86 {
        Some(x) => common + seq![x.ptrace_setregs, x.ptrace_setfpregs],
        None => common,
    }
}

/// The rule that refuses a ptrace request.
pub open spec fn request_rule(request: u64) -> Seq<Condition> {
    seq![Condition { argument: 0, value: request }]
}

/// One rule for each of the requests.
pub open spec fn request_chain(requests: Seq<u64>) -> Seq<Seq<Condition>> {
    Seq::new(requests.len(), |i: int| request_rule(requests[i]))
}

/// The rules of the sandbox's filter.
pub open spec fn sandbox_rules(n: Numbers) -> Rules {
    Map::new(|call: i64| blocked(n).contains(call), |call: i64| Seq::<Seq<Condition>>::empty())
        .insert(n.base.ptrace as i64, request_chain(ptrace_writes(n)))
}

/// The sandbox's answer to a refused call: "operation not permitted".
pub open spec fn refusal() -> Verdict {
    Verdict::Errno(1)
}

/// The program of the sandbox's filter for an architecture.
pub open spec fn sandbox_program(n: Numbers, arch: Arch) -> Result<Seq<Instruction>, Seq<char>> {
    compiler::compiled(sandbox_rules(n), Verdict::Allow, refusal(), arch)
}

/// The numbers of the calls that every architecture has, the one of ptrace last.
pub open spec fn base_list(b: BaseCalls) -> Seq<u32> {
    seq![
        b.kill,
        b.tkill,
        b.tgkill,
        b.unlinkat,
        b.renameat,
        b.renameat2,
        b.truncate,
        b.ftruncate,
        b.mount,
        b.umount2,
        b.reboot,
        b.ptrace,
    ]
}

/// The numbers that Linux gives these calls, machine by machine.
pub open spec fn machine_tables() -> Seq<Seq<u32>> {
    seq![
        // x86-64
        seq![62u32, 200, 234, 263, 264, 316, 76, 77, 165, 166, 169, 101],
        // x86-64 with 32-bit pointers
        seq![
            0x4000_003Eu32,
            0x4000_00C8,
            0x4000_00EA,
            0x4000_0107,
            0x4000_0108,
            0x4000_013C,
            0x4000_004C,
            0x4000_004D,
            0x4000_00A5,
            0x4000_00A6,
            0x4000_00A9,
            0x4000_0209,
        ],
        // x86 with 32 bits
        seq![37u32, 238, 270, 301, 302, 353, 92, 93, 21, 52, 88, 26],
        // Arm with 64 bits, Hexagon
        seq![129u32, 130, 131, 35, 38, 276, 45, 46, 40, 39, 142, 117],
        // Arm with 32 bits
        seq![37u32, 238, 268, 328, 329, 382, 92, 93, 21, 52, 88, 26],
        // MIPS with 32 bits
        seq![4037u32, 4236, 4266, 4294, 4295, 4351, 4092, 4093, 4021, 4052, 4088, 4026],
        // MIPS with 64 bits
        seq![5060u32, 5192, 5225, 5253, 5254, 5311, 5074, 5075, 5160, 5161, 5164, 5099],
        // PowerPC
        seq![37u32, 208, 250, 292, 293, 357, 92, 93, 21, 52, 88, 26],
        // s390x
        seq![37u32, 237, 241, 294, 295, 347, 92, 93, 21, 52, 88, 26],
        // SPARC
        seq![37u32, 187, 211, 290, 291, 345, 129, 130, 167, 45, 55, 26],
    ]
}

/// Whether these are the numbers that Linux gives the older calls on x86-64,
/// with 64-bit or with 32-bit pointers.
pub open spec fn machine_x86(x: X86Numbers) -> bool {
    ||| x.unlink == 87 && x.rmdir == 84 && x.rename == 82
    ||| x.unlink == 0x4000_0057 && x.rmdir == 0x4000_0054 && x.rename == 0x4000_0052
}

/// Whether the numbers are those of a machine, and the older ones, where there
/// are any, those of x86-64.
pub open spec fn machine_numbers(n: Numbers) -> bool {
    &&& machine_tables().contains(base_list(n.base))
    &&& n.x86 matches Some(x) ==> machine_x86(x)
}

/// No two of these calls share a number on any machine.
pub proof fn machine_tables_distinct(table: Seq<u32>)
    requires
        machine_tables().contains(table),
    ensures
        table.len() == 12,
        table.no_duplicates(),
{
    let k = choose|k: int| 0 <= k < machine_tables().len() && machine_tables()[k] == table;
    assert(k == 0 || k == 1 || k == 2 || k == 3 || k == 4 || k == 5 || k == 6 || k == 7 || k == 8 || k
        == 9);
}

/// On the numbers of a machine, ptrace is not among the blocked calls.
pub proof fn ptrace_is_apart(n: Numbers)
    requires
        machine_numbers(n),
    ensures
        !blocked(n).contains(n.base.ptrace as i64),
{
    let table = base_list(n.base);
    machine_tables_distinct(table);
    let k = choose|k: int| 0 <= k < machine_tables().len() && machine_tables()[k] == table;
    assert(table[11] == n.base.ptrace);
    assert(n.base.ptrace == 101 || n.base.ptrace == 0x4000_0209 || n.base.ptrace == 26
        || n.base.ptrace == 117 || n.base.ptrace == 4026 || n.base.ptrace == 5099);
    if blocked(n).contains(n.base.ptrace as i64) {
        let i = choose|i: int| 0 <= i < blocked(n).len() && blocked(n)[i] == n.base.ptrace as i64;
        if i < 11 {
            assert(blocked(n)[i] == table[i]);
            assert(table[i] != table[11]);
        }
    }
}

/// The numbers of the machine that the library is built for, with the older ones
/// that are given. No two calls that every architecture has share a number, and
/// where the older ones are those of x86-64, no blocked call has that of ptrace.
pub fn native_numbers(x86: Option<X86Numbers>) -> (n: Numbers)
    ensures
        n.x86 == x86,
        machine_tables().contains(base_list(n.base)),
        base_list(n.base).no_duplicates(),
        (x86 matches Some(x) ==> machine_x86(x)) ==> !blocked(n).contains(n.base.ptrace as i64),
{
    let n = Numbers { base: native::base_calls(), x86 };
    proof {
        machine_tables_distinct(base_list(n.base));
        if n.x86 matches Some(x) ==> machine_x86(x) {
            ptrace_is_apart(n);
        }
    }
    n
}

/// The calls that are refused whatever their arguments.
pub fn blocked_calls(n: &Numbers) -> (calls: Vec<i64>)
    ensures
        calls@ == blocked(*n),
        n.x86 is None ==> calls@ == seq![
            n.base.kill as i64,
            n.base.tkill as i64,
            n.base.tgkill as i64,
            n.base.unlinkat as i64,
            n.base.renameat as i64,
            n.base.renameat2 as i64,
            n.base.truncate as i64,
            n.base.ftruncate as i64,
            n.base.mount as i64,
            n.base.umount2 as i64,
            n.base.reboot as i64,
        ],
        n.x86 matches Some(x) ==> calls@ == seq![
            n.base.kill as i64,
            n.base.tkill as i64,
            n.base.tgkill as i64,
            n.base.unlinkat as i64,
            n.base.renameat as i64,
            n.base.renameat2 as i64,
            n.base.truncate as i64,
            n.base.ftruncate as i64,
            n.base.mount as i64,
            n.base.umount2 as i64,
            n.base.reboot as i64,
            x.unlink as i64,
            x.rmdir as i64,
            x.rename as i64,
        ],
{
    let mut calls: Vec<i64> = vec![
        n.base.kill as i64,
        n.base.tkill as i64,
        n.base.tgkill as i64,
        n.base.unlinkat as i64,
        n.base.renameat as i64,
        n.base.renameat2 as i64,
        n.base.truncate as i64,
        n.base.ftruncate as i64,
        n.base.mount as i64,
        n.base.umount2 as i64,
        n.base.reboot as i64,
    ];
    if let Some(x) = &n.x86 {
        calls.push(x.unlink as i64);
        calls.push(x.rmdir as i64);
        calls.push(x.rename as i64);
    }
    calls
}

/// The ptrace requests that are refused.
pub fn ptrace_write_requests(n: &Numbers) -> (requests: Vec<u64>)
    ensures
        requests@ == ptrace_writes(*n),
        n.x86 is None ==> requests@ == seq![4u64, 5, 6, 0x4205],
        n.x86 matches Some(x) ==> requests@ == seq![
            4u64,
            5,
            6,
            0x4205,
            x.ptrace_setregs,
            x.ptrace_setfpregs,
        ],
{
    let mut requests: Vec<u64> = vec![
        native::ptrace_poketext(),
        native::ptrace_pokedata(),
        native::ptrace_pokeuser(),
        native::ptrace_setregset(),
    ];
    if let Some(x) = &n.x86 {
        requests.push(x.ptrace_setregs);
        requests.push(x.ptrace_setfpregs);
    }
    requests
}

/// The rules of the sandbox's filter, as the compiler takes them.
pub(crate) fn build_rules(n: &Numbers) -> (rules: BTreeMap<i64, Vec<SeccompRule>>)
    ensures
        compiler::map_conditions(rules@) == sandbox_rules(*n),
{
    let calls = blocked_calls(n);
    let mut rules: BTreeMap<i64, Vec<SeccompRule>> = BTreeMap::new();
    let mut i: usize = 0;
    while i < calls.len()
        invariant
            i <= calls.len(),
            forall|call: i64| #[trigger]
                rules@.dom().contains(call) <==> exists|j: int| 0 <= j < i && calls[j] == call,
            forall|call: i64| #[trigger] rules@.dom().contains(call) ==> rules@[call]@.len() == 0,
        decreases calls.len() - i,
    {
        rules.insert(calls[i], Vec::new());
        i += 1;
    }
    let requests = ptrace_write_requests(n);
    let mut chain: Vec<SeccompRule> = Vec::new();
    let mut k: usize = 0;
    while k < requests.len()
        invariant
            k <= requests.len(),
            chain.len() == k,
            forall|j: int| 0 <= j < k ==> compiler::rule_conditions(#[trigger] chain[j]) == request_rule(requests[j]),
        decreases requests.len() - k,
    {
        chain.push(compiler::word_rule(0, requests[k]));
        k += 1;
    }
    let ghost plain = rules@;
    rules.insert(n.base.ptrace as i64, chain);
    proof {
        let built = compiler::map_conditions(rules@);
        let wanted = sandbox_rules(*n);
        assert(compiler::chain_conditions(chain@) =~= request_chain(ptrace_writes(*n)));
        assert forall|call: i64| built.dom().contains(call) <==> wanted.dom().contains(call) by {
            assert(plain.dom().contains(call) <==> calls@.contains(call));
        }
        assert forall|call: i64| built.dom().contains(call) implies built[call] == wanted[call] by {
            if call != n.base.ptrace as i64 {
                assert(plain.dom().contains(call));
                assert(compiler::chain_conditions(rules@[call]@) =~= Seq::<Seq<Condition>>::empty());
            }
        }
        assert(built.dom() =~= wanted.dom());
        assert(built =~= wanted);
    }
    rules
}

/// Compiling the sandbox's filter never reaches the program limit.
proof fn sandbox_fits(n: Numbers)
    ensures
        compiler::simple_rules(sandbox_rules(n)),
        5 + compiler::chains_size(sandbox_rules(n)) < compiler::program_limit(),
{
    let rules = sandbox_rules(n);
    let calls = blocked(n).to_set();
    blocked(n).lemma_cardinality_of_set();
    assert(rules.dom() =~= calls.insert(n.base.ptrace as i64));
    assert forall|call: i64| rules.dom().contains(call) implies #[trigger] compiler::chain_size(
        rules[call],
    ) <= 32 by {
        assert(ptrace_writes(n).len() <= 6);
    }
    chains_bounded(rules, 32);
    assert(rules.dom().len() * 32 <= 15 * 32);
}

/// A bound on each chain's size bounds the size of all chains together.
proof fn chains_bounded(rules: Map<i64, Seq<Seq<Condition>>>, bound: nat)
    requires
        rules.dom().finite(),
        forall|call: i64|
            rules.dom().contains(call) ==> #[trigger] compiler::chain_size(rules[call]) <= bound,
    ensures
        compiler::chains_size(rules) <= rules.dom().len() * bound,
    decreases rules.dom().len(),
{
    if rules.dom().len() > 0 {
        let call = rules.dom().choose();
        let rest = rules.remove(call);
        assert(rules.dom().contains(call));
        assert forall|other: i64| rest.dom().contains(other) implies #[trigger] compiler::chain_size(
            rest[other],
        ) <= bound by {
            assert(compiler::chain_size(rules[other]) <= bound);
        }
        chains_bounded(rest, bound);
        assert(rules.dom().len() * bound == rest.dom().len() * bound + bound) by (nonlinear_arith)
            requires
                rules.dom().len() == rest.dom().len() + 1,
        ;
        assert(compiler::chain_size(rules[call]) <= bound);
    }
}

/// Whether the program answers every call as the sandbox's rules say.
pub open spec fn enforces(program: Seq<Instruction>, n: Numbers, arch: Arch) -> bool {
    compiler::answers(program, sandbox_rules(n), Verdict::Allow, refusal(), arch)
}

/// Compiles the sandbox's filter for an architecture. It never fails.
pub fn filter_program(n: &Numbers, arch: Arch) -> (r: Result<Vec<Instruction>, String>)
    ensures
        compiler::program_view(r) == sandbox_program(*n, arch),
        r matches Ok(program) && enforces(program@, *n, arch),
{
    let rules = build_rules(n);
    let code = native::eperm();
    match compiler::new_filter(rules, Verdict::Allow, Verdict::Errno(code), arch) {
        Ok(filter) => {
            proof {
                sandbox_fits(*n);
            }
            compiler::compile(filter)
        },
        Err(text) => Err(text),
    }
}

/// The text that a name of no known architecture is answered with.
pub open spec fn unsupported_arch(name: Seq<char>) -> Seq<char> {
    "unsupported arch: Invalid target arch: "@ + name + "."@
}

/// The program of the sandbox's filter for the architecture of this name, or
/// the text of the error where there is no such architecture.
pub open spec fn seccomp_outcome(n: Numbers, arch: Seq<char>) -> Result<Seq<Instruction>, Seq<char>> {
    match compiler::named_arch(arch) {
        Some(a) => sandbox_program(n, a),
        None => Err(unsupported_arch(arch)),
    }
}

/// Compiles the sandbox's filter for the architecture of this name. It fails
/// exactly where there is no such architecture.
pub fn setup_seccomp(n: &Numbers, arch: &str) -> (r: Result<Vec<Instruction>, String>)
    ensures
        compiler::program_view(r) == seccomp_outcome(*n, arch@),
        r is Ok <==> compiler::named_arch(arch@) is Some,
        r matches Err(text) ==> text@ == "unsupported arch: Invalid target arch: "@ + arch@ + "."@,
        r matches Ok(program) ==> enforces(program@, *n, compiler::named_arch(arch@)->0),
{
    match compiler::target_arch(arch) {
        Ok(a) => filter_program(n, a),
        Err(text) => {
            let message = text::prefixed("unsupported arch: ", text.as_str());
            proof {
                reveal_strlit("unsupported arch: ");
                reveal_strlit("Invalid target arch: ");
                reveal_strlit("unsupported arch: Invalid target arch: ");
                assert("unsupported arch: "@ + "Invalid target arch: "@
                    =~= "unsupported arch: Invalid target arch: "@);
                assert(message@ =~= unsupported_arch(arch@));
            }
            Err(message)
        },
    }
}

// ---------------------------------------------------------------------------
// Laws
// ---------------------------------------------------------------------------

/// A blocked call is refused with "operation not permitted" whatever its
/// arguments; a ptrace call is refused exactly when its request, of which the
/// low 32 bits count, is one that writes; every other call is allowed.
pub proof fn sandbox_verdict(n: Numbers, call: i64, args: Seq<u64>)
    ensures
        verdict(sandbox_rules(n), Verdict::Allow, refusal(), call, args) == (if call
            == n.base.ptrace as i64 {
            if exists|i: int|
                0 <= i < ptrace_writes(n).len() && same_word(args[0], #[trigger] ptrace_writes(n)[i]) {
                refusal()
            } else {
                Verdict::Allow
            }
        } else if blocked(n).contains(call) {
            refusal()
        } else {
            Verdict::Allow
        }),
{
    let rules = sandbox_rules(n);
    if call == n.base.ptrace as i64 {
        let writes = ptrace_writes(n);
        let chain = rules[call];
        assert(chain =~= request_chain(writes));
        assert forall|i: int| 0 <= i < writes.len() implies rule_holds(#[trigger] chain[i], args)
            == same_word(args[0], writes[i]) by {
            assert(chain[i] =~= request_rule(writes[i]));
            assert(chain[i][0] == Condition { argument: 0, value: writes[i] });
        }
        if exists|i: int| 0 <= i < writes.len() && same_word(args[0], #[trigger] writes[i]) {
            let i = choose|i: int| 0 <= i < writes.len() && same_word(args[0], #[trigger] writes[i]);
            assert(rule_holds(chain[i], args));
        } else if chain_matches(chain, args) {
            let i = choose|i: int| 0 <= i < chain.len() && rule_holds(#[trigger] chain[i], args);
            assert(same_word(args[0], writes[i]));
        }
    }
}

/// The number that a program returns to have a call fail with "operation not
/// permitted".
pub open spec fn refusal_number() -> u32 {
    0x0005_0001
}

/// The number that a program returns to allow a call.
pub open spec fn allow_number() -> u32 {
    0x7fff_0000
}

/// A program that enforces the sandbox's rules has a blocked call fail with
/// "operation not permitted", a ptrace call exactly when its request is one that
/// writes, and allows every other call of its architecture.
pub proof fn enforced_answers(program: Seq<Instruction>, n: Numbers, arch: Arch, call: bpf::Call)
    requires
        enforces(program, n, arch),
        call.args.len() == 6,
        call.arch == bpf::audit_number(arch),
    ensures
        call.number == n.base.ptrace && (exists|i: int|
            0 <= i < ptrace_writes(n).len() && same_word(call.args[0], #[trigger] ptrace_writes(n)[i]))
            ==> bpf::result_of(program, call) == Some(refusal_number()),
        call.number != n.base.ptrace && blocked(n).contains(call.number as i64)
            ==> bpf::result_of(program, call) == Some(refusal_number()),
        call.number == n.base.ptrace && !(exists|i: int|
            0 <= i < ptrace_writes(n).len() && same_word(call.args[0], #[trigger] ptrace_writes(n)[i]))
            ==> bpf::result_of(program, call) == Some(allow_number()),
        call.number != n.base.ptrace && !blocked(n).contains(call.number as i64)
            ==> bpf::result_of(program, call) == Some(allow_number()),
{
    sandbox_verdict(n, call.number as i64, call.args);
    assert(bpf::result_of(program, call) == Some(
        bpf::verdict_number(
            verdict(
                sandbox_rules(n),
                Verdict::Allow,
                refusal(),
                call.number as i64,
                call.args,
            ),
        ),
    ));
}

/// Where no two base calls share a number, as on every machine, a program that
/// enforces the sandbox's rules has each of them but ptrace fail with "operation
/// not permitted" whatever its arguments.
pub proof fn base_calls_refused(
    program: Seq<Instruction>,
    n: Numbers,
    arch: Arch,
    call: bpf::Call,
    i: int,
)
    requires
        enforces(program, n, arch),
        base_list(n.base).no_duplicates(),
        call.args.len() == 6,
        call.arch == bpf::audit_number(arch),
        0 <= i < 11,
        call.number == base_list(n.base)[i],
    ensures
        bpf::result_of(program, call) == Some(refusal_number()),
{
    let list = base_list(n.base);
    assert(list[i] != list[11]);
    assert(blocked(n)[i] == call.number as i64);
    enforced_answers(program, n, arch, call);
}

/// On the numbers of a machine, a program that enforces the sandbox's rules has
/// every blocked call, the older ones among them, fail with "operation not
/// permitted" whatever its arguments.
pub proof fn machine_calls_refused(
    program: Seq<Instruction>,
    n: Numbers,
    arch: Arch,
    call: bpf::Call,
)
    requires
        enforces(program, n, arch),
        machine_numbers(n),
        call.args.len() == 6,
        call.arch == bpf::audit_number(arch),
        blocked(n).contains(call.number as i64),
    ensures
        bpf::result_of(program, call) == Some(refusal_number()),
{
    ptrace_is_apart(n);
    enforced_answers(program, n, arch, call);
}

/// The calls that are refused whatever their arguments, number by number: the
/// eleven that every architecture has, and the three older ones where there are
/// any. No other number is among them.
pub proof fn blocked_by_number(n: Numbers, number: u32)
    ensures
        blocked(n).contains(number as i64) <==> {
            ||| number == n.base.kill
            ||| number == n.base.tkill
            ||| number == n.base.tgkill
            ||| number == n.base.unlinkat
            ||| number == n.base.renameat
            ||| number == n.base.renameat2
            ||| number == n.base.truncate
            ||| number == n.base.ftruncate
            ||| number == n.base.mount
            ||| number == n.base.umount2
            ||| number == n.base.reboot
            ||| n.x86 matches Some(x) && (number == x.unlink || number == x.rmdir || number == x.rename)
        },
        forall|call: i64| #[trigger] blocked(n).contains(call) ==> 0 <= call <= u32::MAX,
{
    let list = blocked(n);
    assert(list[0] == n.base.kill as i64);
    assert(list[1] == n.base.tkill as i64);
    assert(list[2] == n.base.tgkill as i64);
    assert(list[3] == n.base.unlinkat as i64);
    assert(list[4] == n.base.renameat as i64);
    assert(list[5] == n.base.renameat2 as i64);
    assert(list[6] == n.base.truncate as i64);
    assert(list[7] == n.base.ftruncate as i64);
    assert(list[8] == n.base.mount as i64);
    assert(list[9] == n.base.umount2 as i64);
    assert(list[10] == n.base.reboot as i64);
    if let Some(x) = n.x86 {
        assert(list[11] == x.unlink as i64);
        assert(list[12] == x.rmdir as i64);
        assert(list[13] == x.rename as i64);
    }
}

/// The ptrace requests that are refused, by the low 32 bits of the argument:
/// POKETEXT, POKEDATA, POKEUSER and SETREGSET, and SETREGS and SETFPREGS where
/// they are given. No other request is among them.
pub proof fn ptrace_writes_by_request(n: Numbers, argument: u64)
    ensures
        (exists|i: int|
            0 <= i < ptrace_writes(n).len() && same_word(argument, #[trigger] ptrace_writes(n)[i]))
            <==> {
            ||| argument as int % 0x1_0000_0000 == 4
            ||| argument as int % 0x1_0000_0000 == 5
            ||| argument as int % 0x1_0000_0000 == 6
            ||| argument as int % 0x1_0000_0000 == 0x4205
            ||| n.x86 matches Some(x) && argument as int % 0x1_0000_0000 == x.ptrace_setregs as int
                % 0x1_0000_0000
            ||| n.x86 matches Some(x) && argument as int % 0x1_0000_0000 == x.ptrace_setfpregs as int
                % 0x1_0000_0000
        },
{
    let list = ptrace_writes(n);
    assert(list[0] == 4 && list[1] == 5 && list[2] == 6 && list[3] == 0x4205);
    if let Some(x) = n.x86 {
        assert(list[4] == x.ptrace_setregs);
        assert(list[5] == x.ptrace_setfpregs);
    }
}

/// What a program that enforces the sandbox's rules returns for every call, in
/// full. A call of another architecture has the process killed. A ptrace call
/// fails with "operation not permitted" exactly when it asks for a write. Of the
/// other calls exactly those with one of the eleven numbers, or with one of the
/// three older ones where there are any, fail so; every other call is allowed.
pub proof fn filter_answers_in_full(
    program: Seq<Instruction>,
    n: Numbers,
    arch: Arch,
    call: bpf::Call,
)
    requires
        enforces(program, n, arch),
        call.args.len() == 6,
    ensures
        bpf::result_of(program, call) == Some(
            if call.arch != (match arch {
                Arch::X86_64 => 0xC000_003Eu32,
                Arch::Aarch64 => 0xC000_00B7u32,
                Arch::Riscv64 => 0xC000_00F3u32,
            }) {
                0x8000_0000u32
            } else if call.number == n.base.ptrace {
                if {
                    ||| call.args[0] as int % 0x1_0000_0000 == 4
                    ||| call.args[0] as int % 0x1_0000_0000 == 5
                    ||| call.args[0] as int % 0x1_0000_0000 == 6
                    ||| call.args[0] as int % 0x1_0000_0000 == 0x4205
                    ||| n.x86 matches Some(x) && call.args[0] as int % 0x1_0000_0000
                        == x.ptrace_setregs as int % 0x1_0000_0000
                    ||| n.x86 matches Some(x) && call.args[0] as int % 0x1_0000_0000
                        == x.ptrace_setfpregs as int % 0x1_0000_0000
                } {
                    0x0005_0001u32
                } else {
                    0x7fff_0000u32
                }
            } else if {
                ||| call.number == n.base.kill
                ||| call.number == n.base.tkill
                ||| call.number == n.base.tgkill
                ||| call.number == n.base.unlinkat
                ||| call.number == n.base.renameat
                ||| call.number == n.base.renameat2
                ||| call.number == n.base.truncate
                ||| call.number == n.base.ftruncate
                ||| call.number == n.base.mount
                ||| call.number == n.base.umount2
                ||| call.number == n.base.reboot
                ||| n.x86 matches Some(x) && (call.number == x.unlink || call.number == x.rmdir
                    || call.number == x.rename)
            } {
                0x0005_0001u32
            } else {
                0x7fff_0000u32
            },
        ),
{
    if call.arch == bpf::audit_number(arch) {
        enforced_answers(program, n, arch, call);
        blocked_by_number(n, call.number);
        ptrace_writes_by_request(n, call.args[0]);
    }
}

/// Where there is no architecture of this name, the text of the error repeats
/// the name; where there is one, there is no error but the compiler's.
pub proof fn unknown_arch_is_named(n: Numbers, arch: Seq<char>)
    ensures
        compiler::named_arch(arch) is None ==> seccomp_outcome(n, arch) == Err::<Seq<Instruction>, _>(
            "unsupported arch: Invalid target arch: "@ + arch + "."@,
        ),
        compiler::named_arch(arch) matches Some(a) ==> seccomp_outcome(n, arch) == compiler::compiled(
            sandbox_rules(n),
            Verdict::Allow,
            Verdict::Errno(1),
            a,
        ),
{
}

} // verus!
