//! The boundary with the `seccompiler` crate, which turns rules into the
//! instructions that the kernel runs.

use crate::bpf;
use crate::seccomp;
use crate::seccomp::{Arch, Condition, Instruction, Verdict};
use seccompiler::{
    BpfProgram, SeccompAction, SeccompCmpArgLen, SeccompCmpOp, SeccompCondition, SeccompFilter,
    SeccompRule, TargetArch,
};
use std::collections::BTreeMap;
use vstd::prelude::*;

verus! {

/// `seccompiler::SeccompRule`: a collection of conditions.
#[verifier::external_type_specification]
#[verifier::external_body]
pub struct ExSeccompRule(SeccompRule);

/// `seccompiler::SeccompFilter`: a collection of rule chains, with the two
/// answers and the architecture that it was made for.
#[verifier::external_type_specification]
#[verifier::external_body]
pub struct ExSeccompFilter(SeccompFilter);

/// The conditions that a rule holds, in order.
pub uninterp spec fn rule_conditions(rule: SeccompRule) -> Seq<Condition>;

/// The chains that a filter holds, by call number.
pub uninterp spec fn filter_rules(filter: SeccompFilter) -> Map<i64, Seq<Seq<Condition>>>;

/// What a filter was made with: its answer to a call that matches no rule, its
/// answer to one that does, and its architecture.
pub uninterp spec fn filter_settings(filter: SeccompFilter) -> (Verdict, Verdict, Arch);

/// The program that `seccompiler` compiles a filter to, or the text of its error.
pub uninterp spec fn compiled(
    rules: Map<i64, Seq<Seq<Condition>>>,
    mismatch: Verdict,
    matched: Verdict,
    arch: Arch,
) -> Result<Seq<Instruction>, Seq<char>>;

/// The conditions of each rule of a chain.
pub open spec fn chain_conditions(chain: Seq<SeccompRule>) -> Seq<Seq<Condition>> {
    Seq::new(chain.len(), |i: int| rule_conditions(chain[i]))
}

/// The conditions of each rule of each chain of a map.
pub open spec fn map_conditions(rules: Map<i64, Vec<SeccompRule>>) -> Map<i64, Seq<Seq<Condition>>> {
    Map::new(|call: i64| rules.dom().contains(call), |call: i64| chain_conditions(rules[call]@))
}

/// Whether every rule of every chain has exactly one condition, on one of the
/// six arguments.
pub open spec fn simple_rules(rules: Map<i64, Seq<Seq<Condition>>>) -> bool {
    forall|call: i64, i: int|
        rules.dom().contains(call) && 0 <= i < rules[call].len() ==> {
            &&& (#[trigger] rules[call][i]).len() == 1
            &&& rules[call][i][0].argument <= 5
        }
}

/// Whether the program answers every call as a filter with these rules does. A
/// call that was made on another architecture has the process killed.
pub open spec fn answers(
    program: Seq<Instruction>,
    rules: Map<i64, Seq<Seq<Condition>>>,
    mismatch: Verdict,
    matched: Verdict,
    arch: Arch,
) -> bool {
    forall|call: bpf::Call|
        call.args.len() == 6 ==> #[trigger] bpf::result_of(program, call) == Some(
            if call.arch == bpf::audit_number(arch) {
                bpf::verdict_number(
                    seccomp::verdict(rules, mismatch, matched, call.number as i64, call.args),
                )
            } else {
                bpf::kill_number()
            },
        )
}

/// The number of instructions of one call's chain, where each rule has one
/// condition: the test of the number, five for each rule, and the answer to a
/// call that matches none; or five in all for an empty chain.
pub open spec fn chain_size(chain: Seq<Seq<Condition>>) -> nat {
    if chain.len() == 0 {
        5
    } else {
        2 + 5 * chain.len()
    }
}

/// The number of instructions of all chains together.
pub open spec fn chains_size(rules: Map<i64, Seq<Seq<Condition>>>) -> nat
    decreases rules.dom().len(),
{
    if rules.dom().finite() && rules.dom().len() > 0 {
        let call = rules.dom().choose();
        chain_size(rules[call]) + chains_size(rules.remove(call))
    } else {
        0
    }
}

/// The length that a program has to stay below.
pub open spec fn program_limit() -> nat {
    4096
}

/// The letter in lower case, where it is one of A to Z.
pub open spec fn lower(c: char) -> char {
    if 'A' <= c <= 'Z' {
        (c as u32 + 32) as char
    } else {
        c
    }
}

/// The text with its letters A to Z in lower case.
pub open spec fn lowered(text: Seq<char>) -> Seq<char> {
    Seq::new(text.len(), |i: int| lower(text[i]))
}

/// The architecture of this name, if there is one. Upper and lower case do not
/// count.
pub open spec fn named_arch(name: Seq<char>) -> Option<Arch> {
    let lower_case = lowered(name);
    if lower_case == "x86_64"@ {
        Some(Arch::X86_64)
    } else if lower_case == "aarch64"@ {
        Some(Arch::Aarch64)
    } else if lower_case == "riscv64"@ {
        Some(Arch::Riscv64)
    } else {
        None
    }
}

/// A name is that of an architecture exactly when it has the same characters, in
/// the same order, up to capitals in the place of small letters.
pub proof fn architectures_by_name(name: Seq<char>)
    ensures
        named_arch(name) == Some(Arch::X86_64) <==> name.len() == "x86_64"@.len() && forall|i: int|
            0 <= i < name.len() ==> {
                ||| #[trigger] name[i] == "x86_64"@[i]
                ||| 'A' <= name[i] <= 'Z' && name[i] as u32 + 32 == "x86_64"@[i] as u32
            },
        named_arch(name) == Some(Arch::Aarch64) <==> name.len() == "aarch64"@.len() && forall|i: int|
            0 <= i < name.len() ==> {
                ||| #[trigger] name[i] == "aarch64"@[i]
                ||| 'A' <= name[i] <= 'Z' && name[i] as u32 + 32 == "aarch64"@[i] as u32
            },
        named_arch(name) == Some(Arch::Riscv64) <==> name.len() == "riscv64"@.len() && forall|i: int|
            0 <= i < name.len() ==> {
                ||| #[trigger] name[i] == "riscv64"@[i]
                ||| 'A' <= name[i] <= 'Z' && name[i] as u32 + 32 == "riscv64"@[i] as u32
            },
{
    reveal_strlit("x86_64");
    reveal_strlit("aarch64");
    reveal_strlit("riscv64");
    spelt(name, "x86_64"@);
    spelt(name, "aarch64"@);
    spelt(name, "riscv64"@);
    assert("aarch64"@[0] != "riscv64"@[0]);
}

/// The small letter of a capital.
proof fn small_letter(capital: char, letter: char)
    requires
        'A' <= capital <= 'Z',
        capital as u32 + 32 == letter as u32,
    ensures
        lower(capital) == letter,
{
}

/// A text in lower case is another one exactly when the two have the same
/// characters up to capitals.
proof fn spelt(name: Seq<char>, other: Seq<char>)
    requires
        forall|i: int| 0 <= i < other.len() ==> !('A' <= #[trigger] other[i] <= 'Z'),
    ensures
        lowered(name) == other <==> name.len() == other.len() && forall|i: int|
            0 <= i < name.len() ==> {
                ||| #[trigger] name[i] == other[i]
                ||| 'A' <= name[i] <= 'Z' && name[i] as u32 + 32 == other[i] as u32
            },
{
    let low = lowered(name);
    if low == other {
        assert forall|i: int| 0 <= i < name.len() implies {
            ||| #[trigger] name[i] == other[i]
            ||| 'A' <= name[i] <= 'Z' && name[i] as u32 + 32 == other[i] as u32
        } by {
            assert(low[i] == other[i]);
        }
    } else if name.len() == other.len() && forall|i: int|
        0 <= i < name.len() ==> {
            ||| #[trigger] name[i] == other[i]
            ||| 'A' <= name[i] <= 'Z' && name[i] as u32 + 32 == other[i] as u32
        } {
        assert forall|i: int| 0 <= i < name.len() implies low[i] == other[i] by {
            let letter = name[i];
            assert(letter == other[i] || 'A' <= letter <= 'Z' && letter as u32 + 32 == other[i] as u32);
            assert(!('A' <= other[i] <= 'Z'));
            if 'A' <= name[i] <= 'Z' {
                small_letter(name[i], other[i]);
            }
        }
        assert(low =~= other);
    }
}

/// The result with its text and its program taken by their views.
pub open spec fn program_view(r: Result<Vec<Instruction>, String>) -> Result<Seq<Instruction>, Seq<char>> {
    match r {
        Ok(program) => Ok(program@),
        Err(text) => Err(text@),
    }
}

/// A program and a text are taken as they are.
pub proof fn program_or_text(program: Vec<Instruction>, text: String)
    ensures
        program_view(Ok(program)) == Ok::<_, Seq<char>>(program@),
        program_view(Err(text)) == Err::<Seq<Instruction>, _>(text@),
{
}

/// `SeccompCondition::new` and `SeccompRule::new`: a rule with one condition,
/// that the low 32 bits of an argument equal those of a value. A call has at
/// most six arguments; with an index in that range neither function fails.
#[verifier::external_body]
pub(crate) fn word_rule(argument: u8, value: u64) -> (rule: SeccompRule)
    requires
        argument <= 5,
    ensures
        rule_conditions(rule) == seq![Condition { argument, value }],
{
    SeccompRule::new(vec![SeccompCondition::new(
        argument,
        SeccompCmpArgLen::Dword,
        SeccompCmpOp::Eq,
        value,
    )
    .unwrap()])
    .unwrap()
}

/// `TargetArch::try_from` on a name: the architecture that it names, or the
/// text of the error, which repeats the name. The names are compared in lower
/// case; no character outside ASCII has a letter of one of them, and nothing
/// else, for its lower case.
#[verifier::external_body]
pub(crate) fn target_arch(name: &str) -> (r: Result<Arch, String>)
    ensures
        match r {
            Ok(arch) => named_arch(name@) == Some(arch),
            Err(text) => named_arch(name@) is None && text@ == "Invalid target arch: "@ + name@ + "."@,
        },
{
    match TargetArch::try_from(name) {
        Ok(TargetArch::x86_64) => Ok(Arch::X86_64),
        Ok(TargetArch::aarch64) => Ok(Arch::Aarch64),
        Ok(TargetArch::riscv64) => Ok(Arch::Riscv64),
        Err(e) => Err(e.to_string()),
    }
}

/// `SeccompFilter::new`: a filter that holds these rules and was made with
/// these answers for this architecture. It refuses two equal answers, and
/// nothing else.
#[verifier::external_body]
pub(crate) fn new_filter(
    rules: BTreeMap<i64, Vec<SeccompRule>>,
    mismatch: Verdict,
    matched: Verdict,
    arch: Arch,
) -> (r: Result<SeccompFilter, String>)
    ensures
        match r {
            Ok(filter) => {
                &&& mismatch != matched
                &&& filter_rules(filter) == map_conditions(rules@)
                &&& filter_settings(filter) == (mismatch, matched, arch)
            },
            Err(text) => {
                &&& mismatch == matched
                &&& text@ == "`match_action` and `mismatch_action` are equal."@
            },
        },
{
    let action = |verdict: Verdict| match verdict {
        Verdict::Allow => SeccompAction::Allow,
        Verdict::Errno(code) => SeccompAction::Errno(code),
    };
    let target = match arch {
        Arch::X86_64 => TargetArch::x86_64,
        Arch::Aarch64 => TargetArch::aarch64,
        Arch::Riscv64 => TargetArch::riscv64,
    };
    SeccompFilter::new(rules, action(mismatch), action(matched), target).map_err(|e| e.to_string())
}

/// `BpfProgram::try_from` on a filter: the compiled program, a function of what
/// the filter holds and was made with. A call number has to fit 32 bits. Of
/// rules of one condition each it is said that the only error is a program that
/// reaches the limit, and that the program answers as the rules say. What the
/// instructions are, is not said.
#[verifier::external_body]
pub(crate) fn compile(filter: SeccompFilter) -> (r: Result<Vec<Instruction>, String>)
    requires
        forall|call: i64| #[trigger]
            filter_rules(filter).dom().contains(call) ==> 0 <= call <= u32::MAX,
    ensures
        program_view(r) == compiled(
            filter_rules(filter),
            filter_settings(filter).0,
            filter_settings(filter).1,
            filter_settings(filter).2,
        ),
        simple_rules(filter_rules(filter)) ==> (r is Ok <==> 5 + chains_size(filter_rules(filter))
            < program_limit()),
        simple_rules(filter_rules(filter)) ==> (r matches Ok(program) ==> answers(
            program@,
            filter_rules(filter),
            filter_settings(filter).0,
            filter_settings(filter).1,
            filter_settings(filter).2,
        )),
{
    match BpfProgram::try_from(filter) {
        Ok(program) => Ok(program
            .into_iter()
            .map(|i| Instruction { code: i.code, jt: i.jt, jf: i.jf, k: i.k })
            .collect()),
        Err(e) => Err(e.to_string()),
    }
}

} // verus!
