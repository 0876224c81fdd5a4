//! The syscall filter of a confined child: everything is allowed but a fixed
//! deny set, whose calls fail with "operation not permitted".

use std::collections::BTreeMap;

use vstd::prelude::*;
use vstd::string::*;

use crate::sandbox::error::{SandboxError, SandboxErrorView};
use crate::text::concat_text;

verus! {

/// The target architecture of `seccompiler`.
#[verifier::external_type_specification]
#[verifier::external_body]
pub struct ExTargetArch(seccompiler::TargetArch);

/// A condition of `seccompiler` on the arguments of a syscall.
#[verifier::external_type_specification]
#[verifier::external_body]
pub struct ExSeccompRule(seccompiler::SeccompRule);

/// The syscall filter of `seccompiler`.
#[verifier::external_type_specification]
#[verifier::external_body]
pub struct ExSeccompFilter(seccompiler::SeccompFilter);

/// One instruction of a compiled filter.
#[verifier::external_type_specification]
#[verifier::external_body]
pub struct ExSockFilter(seccompiler::sock_filter);

/// The architecture of a name, or the failure of an unknown name as
/// `seccompiler` prints it for debugging.
pub uninterp spec fn arch_of(name: Seq<char>) -> Result<seccompiler::TargetArch, Seq<char>>;

/// A filter with these rules, this action for the syscalls that no rule matches,
/// this one for those that a rule matches, and this architecture; or the message
/// with which it is refused.
pub uninterp spec fn filter_made(
    rules: Seq<(i64, Seq<seccompiler::SeccompRule>)>,
    otherwise: FilterAction,
    matched: FilterAction,
    arch: seccompiler::TargetArch,
) -> Result<seccompiler::SeccompFilter, Seq<char>>;

/// The numbers of the syscalls that a filter has rules for.
pub uninterp spec fn filter_calls(filter: seccompiler::SeccompFilter) -> Set<i64>;

/// The compiled program of a filter, or the message with which compiling fails.
pub uninterp spec fn filter_program(filter: seccompiler::SeccompFilter) -> Result<
    Seq<seccompiler::sock_filter>,
    Seq<char>,
>;

/// Whether this is the number that `libc` has for a syscall, on the target that
/// the library is built for.
pub uninterp spec fn syscall_number(call: DeniedCall, number: i64) -> bool;

/// A syscall that a confined child is denied.
#[derive(Debug, Clone, Copy, PartialEq, Eq, Structural)]
pub enum DeniedCall {
    /// Tracing another process.
    Ptrace,
    /// Reading the memory of another process.
    ProcessVmReadv,
    /// Writing the memory of another process.
    ProcessVmWritev,
    /// Setting up an io_uring.
    IoUringSetup,
    /// Submitting to an io_uring.
    IoUringEnter,
    /// Registering resources with an io_uring.
    IoUringRegister,
}

/// What a filter does with a syscall.
#[derive(Debug, Clone, Copy, PartialEq, Eq, Structural)]
pub enum FilterAction {
    /// It is let through.
    Allow,
    /// It fails with an error number.
    Errno(u32),
}

/// The denied syscalls.
pub open spec fn denied_calls() -> Seq<DeniedCall> {
    seq![
        DeniedCall::Ptrace,
        DeniedCall::ProcessVmReadv,
        DeniedCall::ProcessVmWritev,
        DeniedCall::IoUringSetup,
        DeniedCall::IoUringEnter,
        DeniedCall::IoUringRegister,
    ]
}

/// Whether these are the numbers of the denied syscalls, in their order.
pub open spec fn denied_set(numbers: Seq<i64>) -> bool {
    &&& numbers.len() == denied_calls().len()
    &&& forall|i: int|
        0 <= i < numbers.len() ==> syscall_number(#[trigger] denied_calls()[i], numbers[i])
}

/// Rules as sequences.
pub open spec fn rules_view(rules: Seq<(i64, Vec<seccompiler::SeccompRule>)>) -> Seq<
    (i64, Seq<seccompiler::SeccompRule>),
> {
    Seq::new(rules.len(), |i: int| (rules[i].0, rules[i].1@))
}

/// Rules that match each of these syscalls, whatever its arguments.
pub open spec fn unconditional(numbers: Seq<i64>) -> Seq<(i64, Seq<seccompiler::SeccompRule>)> {
    Seq::new(numbers.len(), |i: int| (numbers[i], Seq::<seccompiler::SeccompRule>::empty()))
}

/// `libc::SYS_*`: the number of a syscall on the target that the library is
/// built for. The numbers differ between architectures; on each of them they are
/// small, and those of two of these syscalls differ.
#[verifier::external_body]
fn number_of(call: DeniedCall) -> (r: i64)
    ensures
        syscall_number(call, r),
        0 <= r <= 0x7fff_ffff,
        forall|other: DeniedCall, number: i64|
            other != call && #[trigger] syscall_number(other, number) ==> number != r,
{
    match call {
        DeniedCall::Ptrace => libc::SYS_ptrace as i64,
        DeniedCall::ProcessVmReadv => libc::SYS_process_vm_readv as i64,
        DeniedCall::ProcessVmWritev => libc::SYS_process_vm_writev as i64,
        DeniedCall::IoUringSetup => libc::SYS_io_uring_setup as i64,
        DeniedCall::IoUringEnter => libc::SYS_io_uring_enter as i64,
        DeniedCall::IoUringRegister => libc::SYS_io_uring_register as i64,
    }
}

/// `libc::EPERM`: the error number of "operation not permitted", which is 1.
#[verifier::external_body]
fn not_permitted() -> (r: u32)
    ensures
        r == 1,
{
    libc::EPERM as u32
}

/// `TryFrom<&str>` of `seccompiler::TargetArch`.
#[verifier::external_body]
fn parse_arch(name: &str) -> (r: Result<seccompiler::TargetArch, String>)
    ensures
        match r {
            Ok(arch) => arch_of(name@) == Ok::<seccompiler::TargetArch, Seq<char>>(arch),
            Err(message) => arch_of(name@) == Err::<seccompiler::TargetArch, Seq<char>>(message@),
        },
{
    seccompiler::TargetArch::try_from(name).map_err(|e| format!("{e:?}"))
}

/// `seccompiler::SeccompFilter::new`: a filter with these rules, for these
/// syscalls and no others. It is refused where the two actions are the same.
#[verifier::external_body]
fn new_filter(
    rules: Vec<(i64, Vec<seccompiler::SeccompRule>)>,
    otherwise: FilterAction,
    matched: FilterAction,
    arch: seccompiler::TargetArch,
) -> (r: Result<seccompiler::SeccompFilter, String>)
    ensures
        r is Ok <==> otherwise != matched,
        match r {
            Ok(filter) => filter_made(rules_view(rules@), otherwise, matched, arch) == Ok::<
                seccompiler::SeccompFilter,
                Seq<char>,
            >(filter),
            Err(message) => filter_made(rules_view(rules@), otherwise, matched, arch) == Err::<
                seccompiler::SeccompFilter,
                Seq<char>,
            >(message@),
        },
        r matches Ok(filter) ==> (forall|number: i64| #[trigger]
            filter_calls(filter).contains(number) <==> exists|i: int|
                0 <= i < rules@.len() && #[trigger] rules@[i].0 == number),
{
    let action = |a: FilterAction| match a {
        FilterAction::Allow => seccompiler::SeccompAction::Allow,
        FilterAction::Errno(number) => seccompiler::SeccompAction::Errno(number),
    };
    let rules: BTreeMap<i64, Vec<seccompiler::SeccompRule>> = rules.into_iter().collect();
    seccompiler::SeccompFilter::new(rules, action(otherwise), action(matched), arch)
        .map_err(|e| e.to_string())
}

/// `TryInto<BpfProgram>` of `seccompiler::SeccompFilter`. It panics on a rule for
/// a syscall number that is negative or beyond 32 bits, so such filters are left
/// out.
#[verifier::external_body]
fn compile_filter(filter: seccompiler::SeccompFilter) -> (r: Result<
    Vec<seccompiler::sock_filter>,
    String,
>)
    requires
        forall|number: i64| #[trigger]
            filter_calls(filter).contains(number) ==> 0 <= number <= 0x7fff_ffff,
    ensures
        match r {
            Ok(program) => filter_program(filter) == Ok::<
                Seq<seccompiler::sock_filter>,
                Seq<char>,
            >(program@),
            Err(message) => filter_program(filter) == Err::<
                Seq<seccompiler::sock_filter>,
                Seq<char>,
            >(message@),
        },
{
    filter.try_into().map_err(|e: seccompiler::BackendError| e.to_string())
}

/// The numbers of the denied syscalls: reading and writing the memory of other
/// processes, and the io_uring interface.
pub fn denied_syscalls() -> (r: [i64; 6])
    ensures
        denied_set(r@),
        forall|i: int| 0 <= i < 6 ==> 0 <= #[trigger] r[i] <= 0x7fff_ffff,
        forall|i: int, j: int| 0 <= i < j < 6 ==> #[trigger] r[i] != #[trigger] r[j],
{
    [
        number_of(DeniedCall::Ptrace),
        number_of(DeniedCall::ProcessVmReadv),
        number_of(DeniedCall::ProcessVmWritev),
        number_of(DeniedCall::IoUringSetup),
        number_of(DeniedCall::IoUringEnter),
        number_of(DeniedCall::IoUringRegister),
    ]
}

/// Rules that match each of these syscalls, whatever its arguments.
fn unconditional_rules(numbers: &[i64]) -> (r: Vec<(i64, Vec<seccompiler::SeccompRule>)>)
    ensures
        rules_view(r@) == unconditional(numbers@),
{
    let mut rules: Vec<(i64, Vec<seccompiler::SeccompRule>)> = Vec::new();
    let mut i: usize = 0;
    while i < numbers.len()
        invariant
            i <= numbers@.len(),
            rules@.len() == i,
            forall|k: int|
                0 <= k < i ==> (#[trigger] rules@[k]).0 == numbers@[k] && rules@[k].1@ == Seq::<
                    seccompiler::SeccompRule,
                >::empty(),
        decreases numbers@.len() - i,
    {
        rules.push((numbers[i], Vec::new()));
        i = i + 1;
    }
    assert(rules_view(rules@) =~= unconditional(numbers@));
    rules
}

/// The outcome of preparing a filter for an architecture that fails these
/// syscalls with "operation not permitted" and lets all others through: the
/// program, or the failure of the first step that fails.
pub open spec fn prepared_program(arch_name: Seq<char>, denied: Seq<i64>) -> Result<
    Seq<seccompiler::sock_filter>,
    SandboxErrorView,
> {
    match arch_of(arch_name) {
        Err(message) => Err(
            SandboxErrorView::Apply {
                reason: "seccomp unsupported target arch "@ + arch_name + ": "@ + message,
            },
        ),
        Ok(arch) => match filter_made(
            unconditional(denied),
            FilterAction::Allow,
            FilterAction::Errno(1),
            arch,
        ) {
            Err(message) => Err(
                SandboxErrorView::Apply { reason: "seccomp filter build failed: "@ + message },
            ),
            Ok(filter) => match filter_program(filter) {
                Err(message) => Err(
                    SandboxErrorView::Apply { reason: "seccomp BPF compile failed: "@ + message },
                ),
                Ok(program) => Ok(program),
            },
        },
    }
}

/// Whether preparing the filter of the deny set for an architecture gave this.
pub open spec fn deny_set_prepared(
    arch_name: Seq<char>,
    r: Result<Seq<seccompiler::sock_filter>, SandboxErrorView>,
) -> bool {
    exists|denied: Seq<i64>|
        denied_set(denied) && #[trigger] prepared_program(arch_name, denied) == r
}

/// Prepare the filter of the deny set for the named architecture.
pub fn deny_program(arch_name: &str) -> (r: Result<Vec<seccompiler::sock_filter>, SandboxError>)
    ensures
        match r {
            Ok(program) => deny_set_prepared(arch_name@, Ok(program@)),
            Err(e) => deny_set_prepared(arch_name@, Err(e@)),
        },
{
    let denied = denied_syscalls();
    let errno: u32 = not_permitted();
    let arch = match parse_arch(arch_name) {
        Ok(arch) => arch,
        Err(message) => {
            let mut reason = concat_text("seccomp unsupported target arch ", arch_name);
            reason.append(": ");
            reason.append(message.as_str());
            assert(prepared_program(arch_name@, denied@) is Err);
            return Err(SandboxError::Apply { reason });
        },
    };
    let rules = unconditional_rules(denied.as_slice());
    let filter = match new_filter(rules, FilterAction::Allow, FilterAction::Errno(errno), arch) {
        Ok(filter) => filter,
        Err(message) => {
            assert(prepared_program(arch_name@, denied@) is Err);
            return Err(
                SandboxError::Apply {
                    reason: concat_text("seccomp filter build failed: ", message.as_str()),
                },
            );
        },
    };
    assert forall|number: i64| #[trigger] filter_calls(filter).contains(number) implies 0 <= number
        <= 0x7fff_ffff by {
        let i = choose|i: int| 0 <= i < rules@.len() && #[trigger] rules@[i].0 == number;
        assert(rules_view(rules@).len() == unconditional(denied@).len());
        assert(rules_view(rules@)[i].0 == unconditional(denied@)[i].0);
        assert(denied[i] == number);
    }
    match compile_filter(filter) {
        Ok(program) => {
            assert(prepared_program(arch_name@, denied@) is Ok);
            Ok(program)
        },
        Err(message) => {
            assert(prepared_program(arch_name@, denied@) is Err);
            Err(
                SandboxError::Apply {
                    reason: concat_text("seccomp BPF compile failed: ", message.as_str()),
                },
            )
        },
    }
}

/// Every syscall of the deny set is denied, once, and nothing else is.
pub proof fn every_listed_call_is_denied(call: DeniedCall)
    ensures
        denied_calls().contains(call),
        denied_calls().no_duplicates(),
{
    let calls = denied_calls();
    assert(calls[0] == DeniedCall::Ptrace);
    assert(calls[1] == DeniedCall::ProcessVmReadv);
    assert(calls[2] == DeniedCall::ProcessVmWritev);
    assert(calls[3] == DeniedCall::IoUringSetup);
    assert(calls[4] == DeniedCall::IoUringEnter);
    assert(calls[5] == DeniedCall::IoUringRegister);
}

/// The rules of a deny set match exactly its syscalls, each one whatever its
/// arguments: no rule has a condition.
pub proof fn denied_calls_have_no_exception(numbers: Seq<i64>, number: i64)
    ensures
        unconditional(numbers).len() == numbers.len(),
        forall|i: int|
            0 <= i < numbers.len() ==> (#[trigger] unconditional(numbers)[i]).0 == numbers[i]
                && unconditional(numbers)[i].1.len() == 0,
        numbers.contains(number) <==> exists|i: int|
            0 <= i < unconditional(numbers).len() && (#[trigger] unconditional(numbers)[i]).0
                == number,
{
    if numbers.contains(number) {
        let i = choose|i: int| 0 <= i < numbers.len() && numbers[i] == number;
        assert(unconditional(numbers)[i].0 == number);
    }
}

/// A prepared program is that of a filter which lets through what it does not
/// match and fails what it matches with "operation not permitted"; there is one
/// only for an architecture that is known.
pub proof fn programs_let_the_rest_through(arch_name: Seq<char>, denied: Seq<i64>)
    ensures
        prepared_program(arch_name, denied) matches Ok(program) ==> exists|
            arch: seccompiler::TargetArch,
            filter: seccompiler::SeccompFilter,
        |
            arch_of(arch_name) == Ok::<seccompiler::TargetArch, Seq<char>>(arch)
                && #[trigger] filter_made(
                unconditional(denied),
                FilterAction::Allow,
                FilterAction::Errno(1),
                arch,
            ) == Ok::<seccompiler::SeccompFilter, Seq<char>>(filter) && #[trigger] filter_program(
                filter,
            ) == Ok::<Seq<seccompiler::sock_filter>, Seq<char>>(program),
        arch_of(arch_name) is Err ==> prepared_program(arch_name, denied) is Err,
        prepared_program(arch_name, denied) matches Err(e) ==> e is Apply,
{
}

/// A deny set holds the number of every denied syscall and no further number.
pub proof fn deny_sets_hold_every_denied_call(numbers: Seq<i64>, call: DeniedCall)
    requires
        denied_set(numbers),
    ensures
        numbers.len() == 6,
        exists|i: int| 0 <= i < numbers.len() && syscall_number(call, #[trigger] numbers[i]),
        forall|i: int|
            0 <= i < numbers.len() ==> exists|denied: DeniedCall| #[trigger]
                syscall_number(denied, #[trigger] numbers[i]),
{
    every_listed_call_is_denied(call);
    let at = choose|at: int| 0 <= at < denied_calls().len() && denied_calls()[at] == call;
    assert(syscall_number(denied_calls()[at], numbers[at]));
    assert forall|i: int| 0 <= i < numbers.len() implies exists|denied: DeniedCall| #[trigger]
        syscall_number(denied, #[trigger] numbers[i]) by {
        assert(syscall_number(denied_calls()[i], numbers[i]));
    }
}

} // verus!
