//! What a start request runs, decided before anything is spawned.
//!
//! A start goes through three steps, each of which can refuse it: the plan,
//! which needs the session and the registry; the launch, which needs the
//! resolved working directory; and the spawn, whose outcome the engine records.

use vstd::prelude::*;
use vstd::string::*;

use crate::capability::{
    any_permits, grant_views, parsed, permits, CapabilitySet, CapabilityView, RuntimeCapability,
};
use crate::error::{outcome, Error, ErrorView};
use crate::job::code::{base64_bytes, decode_code_payload, lang_text, submitted_bytes};
use crate::json::{json_value, text_to_value};
use crate::job::store::{confined_cwd, cwd_target, resolve_cwd};
use crate::path::{path_parts, path_within};
use crate::proto::capability::{grant_texts, Capability};
use crate::proto::job::JobPayload;
use crate::proto::tier::EnforcementTier;
use crate::provider::{no_capability, CommandView, Provider, ResolvedCommand};
use crate::registry::{
    invocation_allowed, may_invoke, tools_are_open_to_their_holders, ProviderRegistry,
};
use crate::sandbox::policy::{PolicyView, SandboxPolicy};
use crate::text::{concat_text, texts};
use crate::workspace::Workspace;

verus! {

/// The work of a planned job.
#[derive(Debug)]
pub enum Work {
    /// A shell string.
    Shell(String),
    /// A resolved command, run without a shell.
    Argv(ResolvedCommand),
    /// A component.
    Code(Vec<u8>),
}

/// The work of a planned job, with its texts and bytes as sequences.
#[verifier::ext_equal]
pub enum WorkView {
    Shell(Seq<char>),
    Argv(CommandView),
    Code(Seq<u8>),
}

impl View for Work {
    type V = WorkView;

    open spec fn view(&self) -> WorkView {
        match self {
            Work::Shell(s) => WorkView::Shell(s@),
            Work::Argv(c) => WorkView::Argv(c@),
            Work::Code(b) => WorkView::Code(b@),
        }
    }
}

/// The failure of a request that needs a grant which the session lacks.
pub open spec fn denied(required: Seq<char>) -> ErrorView {
    ErrorView::CapabilityDenied { required }
}

/// Whether `r` is an outcome of planning a payload for a holder of grants: a
/// command needs `proc.spawn`; a code submission needs to be well-formed; a
/// capability needs `tool:<name>` or `proc.spawn` and is resolved by the
/// provider that owns it.
pub open spec fn work_planned<P: Provider>(
    payload: JobPayload,
    grants: Seq<CapabilityView>,
    registry: ProviderRegistry<P>,
    r: Result<WorkView, ErrorView>,
) -> bool {
    match payload {
        JobPayload::Command { command } => if any_permits(grants, CapabilityView::ProcSpawn) {
            r == Ok::<WorkView, ErrorView>(WorkView::Shell(command@))
        } else {
            r == Err::<WorkView, ErrorView>(denied("proc.spawn"@))
        },
        JobPayload::Code { code, lang } => match submitted_bytes(
            lang_text(lang),
            base64_bytes(code@),
        ) {
            Ok(bytes) => r == Ok::<WorkView, ErrorView>(WorkView::Code(bytes)),
            Err(e) => r == Err::<WorkView, ErrorView>(e),
        },
        JobPayload::Capability { name, params } => if !may_invoke(grants, name@) {
            r == Err::<WorkView, ErrorView>(denied("tool:"@ + name@))
        } else if !registry.catalog().entries.contains_key(name@) {
            r == Err::<WorkView, ErrorView>(no_capability(name@))
        } else {
            match r {
                Ok(WorkView::Argv(command)) => registry.resolved_by_owner(name@, params, Ok(command)),
                Ok(_) => false,
                Err(e) => registry.resolved_by_owner(name@, params, Err(e)),
            }
        },
    }
}

/// Plan the work of a payload for a holder of grants.
pub fn plan_work<P: Provider>(
    payload: &JobPayload,
    grants: &CapabilitySet,
    registry: &ProviderRegistry<P>,
) -> (r: Result<Work, Error>)
    requires
        registry.wf(),
    ensures
        work_planned(*payload, grants@, *registry, outcome(r)),
{
    match payload {
        JobPayload::Command { command } => {
            if !grants.permits(&RuntimeCapability::ProcSpawn) {
                return Err(Error::CapabilityDenied { required: "proc.spawn".to_owned() });
            }
            Ok(Work::Shell(command.clone()))
        },
        JobPayload::Code { code, lang } => match decode_code_payload(code.as_str(), lang) {
            Ok(bytes) => Ok(Work::Code(bytes)),
            Err(e) => Err(e),
        },
        JobPayload::Capability { name, params } => {
            if !invocation_allowed(grants, name.as_str()) {
                return Err(
                    Error::CapabilityDenied { required: concat_text("tool:", name.as_str()) },
                );
            }
            match registry.resolve(name.as_str(), params) {
                Ok(command) => Ok(Work::Argv(command)),
                Err(e) => Err(e),
            }
        },
    }
}

/// The paths that grants open for reading, in order.
pub open spec fn readable(grants: Seq<CapabilityView>) -> Seq<Seq<char>>
    decreases grants.len(),
{
    if grants.len() == 0 {
        Seq::empty()
    } else {
        let before = readable(grants.drop_last());
        match grants.last() {
            CapabilityView::FsRead(p) => before.push(p),
            _ => before,
        }
    }
}

/// The paths that grants open for writing, in order.
pub open spec fn writable(grants: Seq<CapabilityView>) -> Seq<Seq<char>>
    decreases grants.len(),
{
    if grants.len() == 0 {
        Seq::empty()
    } else {
        let before = writable(grants.drop_last());
        match grants.last() {
            CapabilityView::FsWrite(p) => before.push(p),
            _ => before,
        }
    }
}

/// The policy of a job: the workspace is readable, each grant opens its own
/// verb alone, and the spawn and network flags are set by any grant of theirs.
pub open spec fn policy_for(
    tier: EnforcementTier,
    root: Seq<char>,
    grants: Seq<CapabilityView>,
) -> PolicyView {
    PolicyView {
        tier,
        fs_read: seq![root] + readable(grants),
        fs_write: writable(grants),
        allow_proc_spawn: exists|i: int| 0 <= i < grants.len() && (#[trigger] grants[i]) is ProcSpawn,
        allow_network: exists|i: int| 0 <= i < grants.len() && (#[trigger] grants[i]) is NetConnect,
    }
}

/// Build the policy of a job.
pub fn build_sandbox_policy(
    tier: EnforcementTier,
    workspace: &Workspace,
    capabilities: &CapabilitySet,
) -> (r: SandboxPolicy)
    ensures
        r@ == policy_for(tier, workspace@, capabilities@),
{
    let mut fs_read: Vec<String> = vec![workspace.root().to_owned()];
    let mut fs_write: Vec<String> = Vec::new();
    let mut allow_proc_spawn = false;
    let mut allow_network = false;
    let grants = capabilities.grants();
    let ghost all = capabilities@;
    proof {
        assert(all.take(0) =~= Seq::empty());
        assert(texts(fs_read@) =~= seq![workspace@] + readable(all.take(0)));
        assert(texts(fs_write@) =~= writable(all.take(0)));
    }
    let mut i: usize = 0;
    while i < grants.len()
        invariant
            i <= grants@.len(),
            all == grant_views(grants@),
            texts(fs_read@) == seq![workspace@] + readable(all.take(i as int)),
            texts(fs_write@) == writable(all.take(i as int)),
            allow_proc_spawn <==> exists|k: int| 0 <= k < i && (#[trigger] all[k]) is ProcSpawn,
            allow_network <==> exists|k: int| 0 <= k < i && (#[trigger] all[k]) is NetConnect,
        decreases grants@.len() - i,
    {
        let ghost read_before = texts(fs_read@);
        let ghost write_before = texts(fs_write@);
        proof {
            assert(all.take(i + 1).drop_last() =~= all.take(i as int));
            assert(all.take(i + 1).last() == all[i as int]);
        }
        match &grants[i] {
            RuntimeCapability::FsRead(p) => {
                fs_read.push(p.clone());
                proof {
                    assert(texts(fs_read@) =~= read_before.push(p@));
                    assert(texts(fs_read@) =~= seq![workspace@] + readable(all.take(i + 1)));
                }
            },
            RuntimeCapability::FsWrite(p) => {
                fs_write.push(p.clone());
                assert(texts(fs_write@) =~= write_before.push(p@));
            },
            RuntimeCapability::NetConnect(_) => {
                allow_network = true;
                assert(all[i as int] is NetConnect);
            },
            RuntimeCapability::ProcSpawn => {
                allow_proc_spawn = true;
                assert(all[i as int] is ProcSpawn);
            },
            _ => {},
        }
        i = i + 1;
    }
    assert(all.take(grants@.len() as int) =~= all);
    SandboxPolicy::from_parts(tier, fs_read, fs_write, allow_proc_spawn, allow_network)
}

/// Why the grants requested for a job are refused, where they are: the first
/// one that is malformed or that the session does not permit.
pub open spec fn first_refused(requested: Seq<Seq<char>>, grants: Seq<CapabilityView>) -> Option<
    ErrorView,
>
    decreases requested.len(),
{
    if requested.len() == 0 {
        None
    } else {
        match first_refused(requested.drop_last(), grants) {
            Some(e) => Some(e),
            None => match parsed(requested.last()) {
                Err(e) => Some(e),
                Ok(cap) => if any_permits(grants, cap) {
                    None
                } else {
                    Some(denied(requested.last()))
                },
            },
        }
    }
}

proof fn lemma_first_refused(requested: Seq<Seq<char>>, grants: Seq<CapabilityView>, at: int)
    requires
        0 <= at <= requested.len(),
        first_refused(requested.take(at), grants) is Some,
    ensures
        first_refused(requested, grants) == first_refused(requested.take(at), grants),
    decreases requested.len() - at,
{
    if at == requested.len() {
        assert(requested.take(at) =~= requested);
    } else {
        assert(requested.take(at + 1).drop_last() =~= requested.take(at));
        lemma_first_refused(requested, grants, at + 1);
    }
}

/// Check the grants requested for a job against those of the session.
pub fn validate_job_capabilities(requested: &Vec<Capability>, grants: &CapabilitySet) -> (r: Result<
    (),
    Error,
>)
    ensures
        match r {
            Ok(_) => first_refused(grant_texts(requested@), grants@) is None,
            Err(e) => first_refused(grant_texts(requested@), grants@) == Some(e@),
        },
{
    let ghost all = grant_texts(requested@);
    assert(all.take(0) =~= Seq::empty());
    let mut i: usize = 0;
    while i < requested.len()
        invariant
            i <= requested@.len(),
            all == grant_texts(requested@),
            first_refused(all.take(i as int), grants@) is None,
        decreases requested@.len() - i,
    {
        proof {
            assert(all.take(i + 1).drop_last() =~= all.take(i as int));
            assert(all.take(i + 1).last() == requested@[i as int]@);
        }
        match RuntimeCapability::parse(&requested[i]) {
            Err(e) => {
                proof {
                    lemma_first_refused(all, grants@, i + 1);
                }
                return Err(e);
            },
            Ok(cap) => {
                if !grants.permits(&cap) {
                    proof {
                        lemma_first_refused(all, grants@, i + 1);
                    }
                    return Err(Error::CapabilityDenied { required: requested[i].0.clone() });
                }
            },
        }
        i = i + 1;
    }
    assert(all.take(requested@.len() as int) =~= all);
    Ok(())
}

/// A planned job: its work, and what the session had when it was planned.
pub struct StartPlan {
    /// The work.
    pub work: Work,
    /// The workspace of the session.
    pub workspace: Workspace,
    /// The grants of the session.
    pub capabilities: CapabilitySet,
    /// The enforcement tier of the session.
    pub tier: EnforcementTier,
}

/// A job that is ready to be started.
#[derive(Debug)]
pub enum Launch {
    /// A child process.
    Process {
        /// The program and its arguments.
        command: ResolvedCommand,
        /// The working directory.
        cwd: String,
        /// The sandbox policy.
        policy: SandboxPolicy,
    },
    /// A component that runs inside the runtime.
    Code {
        /// The component.
        bytes: Vec<u8>,
        /// The working directory of the commands that it invokes.
        cwd: String,
    },
}

/// A job that is ready to be started, with its texts and bytes as sequences.
#[verifier::ext_equal]
pub enum LaunchView {
    Process { command: CommandView, cwd: Seq<char>, policy: PolicyView },
    Code { bytes: Seq<u8>, cwd: Seq<char> },
}

impl View for Launch {
    type V = LaunchView;

    open spec fn view(&self) -> LaunchView {
        match self {
            Launch::Process { command, cwd, policy } => LaunchView::Process {
                command: command@,
                cwd: cwd@,
                policy: policy@,
            },
            Launch::Code { bytes, cwd } => LaunchView::Code { bytes: bytes@, cwd: cwd@ },
        }
    }
}

/// The command that runs a shell string.
pub open spec fn shell_command(script: Seq<char>) -> CommandView {
    CommandView { program: "sh"@, args: seq!["-c"@, script] }
}

/// A policy that lets the child spawn.
pub open spec fn spawning(policy: PolicyView) -> PolicyView {
    PolicyView { allow_proc_spawn: true, ..policy }
}

/// The launch of planned work in a working directory. A resolved command is
/// started directly; its one spawn is allowed whatever the grants say.
pub open spec fn launch_of(work: WorkView, cwd: Seq<char>, policy: PolicyView) -> LaunchView {
    match work {
        WorkView::Shell(script) => LaunchView::Process {
            command: shell_command(script),
            cwd,
            policy,
        },
        WorkView::Argv(command) => LaunchView::Process { command, cwd, policy: spawning(policy) },
        WorkView::Code(bytes) => LaunchView::Code { bytes, cwd },
    }
}

/// The outcome of preparing a launch: the working directory has to lie within
/// the workspace, then the requested grants have to be permitted.
pub open spec fn launch_outcome(
    work: WorkView,
    tier: EnforcementTier,
    root: Seq<char>,
    grants: Seq<CapabilityView>,
    rel: Option<Seq<char>>,
    canonical: Option<Seq<char>>,
    requested: Seq<Seq<char>>,
) -> Result<LaunchView, ErrorView> {
    match confined_cwd(cwd_target(rel, root), canonical, root) {
        Err(e) => Err(e),
        Ok(cwd) => match first_refused(requested, grants) {
            Some(e) => Err(e),
            None => Ok(launch_of(work, cwd, policy_for(tier, root, grants))),
        },
    }
}

/// An optional text, by its characters.
pub open spec fn option_text(s: Option<String>) -> Option<Seq<char>> {
    match s {
        Some(text) => Some(text@),
        None => None,
    }
}

/// Prepare the launch of a planned job, given what resolving its working
/// directory gave and the grants that the request asks for.
pub fn prepare_launch(
    plan: StartPlan,
    rel: &Option<String>,
    canonical: Option<String>,
    requested: &Vec<Capability>,
) -> (r: Result<Launch, Error>)
    ensures
        outcome(r) == launch_outcome(
            plan.work@,
            plan.tier,
            plan.workspace@,
            plan.capabilities@,
            option_text(*rel),
            option_text(canonical),
            grant_texts(requested@),
        ),
{
    let requested_dir: Option<&str> = match rel {
        Some(text) => Some(text.as_str()),
        None => None,
    };
    let cwd = match resolve_cwd(requested_dir, canonical, &plan.workspace) {
        Ok(cwd) => cwd,
        Err(e) => {
            return Err(e);
        },
    };
    match validate_job_capabilities(requested, &plan.capabilities) {
        Ok(_) => {},
        Err(e) => {
            return Err(e);
        },
    }
    let mut policy = build_sandbox_policy(plan.tier, &plan.workspace, &plan.capabilities);
    match plan.work {
        Work::Shell(script) => {
            let args: Vec<String> = vec!["-c".to_owned(), script];
            assert(texts(args@) =~= seq!["-c"@, script@]);
            Ok(
                Launch::Process {
                    command: ResolvedCommand { program: "sh".to_owned(), args },
                    cwd,
                    policy,
                },
            )
        },
        Work::Argv(command) => {
            policy.allow_proc_spawn = true;
            Ok(Launch::Process { command, cwd, policy })
        },
        Work::Code(bytes) => Ok(Launch::Code { bytes, cwd }),
    }
}

/// Whether `r` is an outcome of a component's invocation of a capability, given
/// what its parameter text parses to: the invocation needs the grant that a
/// capability job needs, and runs under the policy of such a job.
pub open spec fn invocation_planned<P: Provider>(
    name: Seq<char>,
    params_json: Seq<char>,
    params: Result<serde_json::Value, Seq<char>>,
    grants: Seq<CapabilityView>,
    registry: ProviderRegistry<P>,
    r: Result<CommandView, ErrorView>,
) -> bool {
    if !may_invoke(grants, name) {
        r == Err::<CommandView, ErrorView>(denied("tool:"@ + name))
    } else {
        match params {
            Err(message) => r == Err::<CommandView, ErrorView>(
                ErrorView::CapabilityParse {
                    raw: params_json,
                    reason: "invalid params JSON: "@ + message,
                },
            ),
            Ok(value) => if registry.catalog().entries.contains_key(name) {
                registry.resolved_by_owner(name, value, r)
            } else {
                r == Err::<CommandView, ErrorView>(no_capability(name))
            },
        }
    }
}

/// Plan a component's invocation of a capability, given what its parameter text
/// parses to.
pub fn plan_invocation<P: Provider>(
    name: &str,
    params_json: &str,
    params: Result<serde_json::Value, String>,
    grants: &CapabilitySet,
    registry: &ProviderRegistry<P>,
) -> (r: Result<ResolvedCommand, Error>)
    requires
        registry.wf(),
    ensures
        invocation_planned(
            name@,
            params_json@,
            match params {
                Ok(value) => Ok(value),
                Err(message) => Err(message@),
            },
            grants@,
            *registry,
            outcome(r),
        ),
{
    if !invocation_allowed(grants, name) {
        return Err(Error::CapabilityDenied { required: concat_text("tool:", name) });
    }
    match params {
        Err(message) => Err(
            Error::CapabilityParse {
                raw: params_json.to_owned(),
                reason: concat_text("invalid params JSON: ", message.as_str()),
            },
        ),
        Ok(value) => registry.resolve(name, &value),
    }
}

/// Plan a component's invocation of a capability: the command to run and the
/// policy to run it under.
pub fn invoke_code_capability<P: Provider>(
    name: &str,
    params_json: &str,
    capabilities: &CapabilitySet,
    registry: &ProviderRegistry<P>,
    workspace: &Workspace,
    tier: EnforcementTier,
) -> (r: Result<(ResolvedCommand, SandboxPolicy), Error>)
    requires
        registry.wf(),
    ensures
        match r {
            Ok((command, policy)) => {
                &&& invocation_planned(
                    name@,
                    params_json@,
                    json_value(params_json@),
                    capabilities@,
                    *registry,
                    Ok(command@),
                )
                &&& policy@ == spawning(policy_for(tier, workspace@, capabilities@))
            },
            Err(e) => invocation_planned(
                name@,
                params_json@,
                json_value(params_json@),
                capabilities@,
                *registry,
                Err(e@),
            ),
        },
{
    let params = text_to_value(params_json);
    match plan_invocation(name, params_json, params, capabilities, registry) {
        Err(e) => Err(e),
        Ok(command) => {
            let mut policy = build_sandbox_policy(tier, workspace, capabilities);
            policy.allow_proc_spawn = true;
            Ok((command, policy))
        },
    }
}

proof fn lemma_opened_paths(grants: Seq<CapabilityView>)
    ensures
        forall|i: int|
            0 <= i < readable(grants).len() ==> grants.contains(
                CapabilityView::FsRead(#[trigger] readable(grants)[i]),
            ),
        forall|i: int|
            0 <= i < writable(grants).len() ==> grants.contains(
                CapabilityView::FsWrite(#[trigger] writable(grants)[i]),
            ),
    decreases grants.len(),
{
    if grants.len() > 0 {
        let fewer = grants.drop_last();
        lemma_opened_paths(fewer);
        assert(grants.contains(grants.last()));
        assert forall|c: CapabilityView| fewer.contains(c) implies #[trigger] grants.contains(c) by {
            let k = choose|k: int| 0 <= k < fewer.len() && fewer[k] == c;
            assert(grants[k] == c);
        }
        assert forall|i: int| 0 <= i < readable(grants).len() implies grants.contains(
            CapabilityView::FsRead(#[trigger] readable(grants)[i]),
        ) by {
            if i < readable(fewer).len() {
                assert(readable(grants)[i] == readable(fewer)[i]);
            }
        }
        assert forall|i: int| 0 <= i < writable(grants).len() implies grants.contains(
            CapabilityView::FsWrite(#[trigger] writable(grants)[i]),
        ) by {
            if i < writable(fewer).len() {
                assert(writable(grants)[i] == writable(fewer)[i]);
            }
        }
    }
}

/// A policy opens nothing that was not granted: beside the workspace, which may
/// be read, every path and the network come from a grant, and the tier is the one
/// declared.
pub proof fn policy_opens_only_what_is_granted(
    tier: EnforcementTier,
    root: Seq<char>,
    grants: Seq<CapabilityView>,
)
    ensures
        policy_for(tier, root, grants).tier == tier,
        forall|i: int|
            0 <= i < policy_for(tier, root, grants).fs_read.len() ==> {
                let path = #[trigger] policy_for(tier, root, grants).fs_read[i];
                path == root || grants.contains(CapabilityView::FsRead(path))
            },
        forall|i: int|
            0 <= i < policy_for(tier, root, grants).fs_write.len() ==> grants.contains(
                CapabilityView::FsWrite(#[trigger] policy_for(tier, root, grants).fs_write[i]),
            ),
        policy_for(tier, root, grants).allow_network ==> exists|host: Seq<char>|
            grants.contains(CapabilityView::NetConnect(host)),
        policy_for(tier, root, grants).allow_proc_spawn ==> grants.contains(
            CapabilityView::ProcSpawn,
        ),
{
    lemma_opened_paths(grants);
    let policy = policy_for(tier, root, grants);
    assert forall|i: int| 0 <= i < policy.fs_read.len() implies {
        let path = #[trigger] policy.fs_read[i];
        path == root || grants.contains(CapabilityView::FsRead(path))
    } by {
        if i > 0 {
            assert(policy.fs_read[i] == readable(grants)[i - 1]);
        }
    }
    if policy.allow_network {
        let k = choose|k: int| 0 <= k < grants.len() && (#[trigger] grants[k]) is NetConnect;
        assert(grants.contains(CapabilityView::NetConnect(grants[k]->NetConnect_0)));
    }
    if policy.allow_proc_spawn {
        let k = choose|k: int| 0 <= k < grants.len() && (#[trigger] grants[k]) is ProcSpawn;
        assert(grants[k] == CapabilityView::ProcSpawn);
    }
}

/// A job starts inside its workspace and under the tier of its session; its
/// policy is that of the session's grants, save that a resolved command may be
/// spawned.
pub proof fn launch_stays_within_the_session(
    work: WorkView,
    tier: EnforcementTier,
    root: Seq<char>,
    grants: Seq<CapabilityView>,
    rel: Option<Seq<char>>,
    canonical: Option<Seq<char>>,
    requested: Seq<Seq<char>>,
)
    requires
        launch_outcome(work, tier, root, grants, rel, canonical, requested) is Ok,
    ensures
        match launch_outcome(work, tier, root, grants, rel, canonical, requested)->Ok_0 {
            LaunchView::Process { cwd, policy, .. } => {
                &&& path_within(cwd, root)
                &&& policy.tier == tier
                &&& policy == policy_for(tier, root, grants) || work is Argv && policy == spawning(
                    policy_for(tier, root, grants),
                )
            },
            LaunchView::Code { cwd, .. } => path_within(cwd, root),
        },
{
}

/// The grants that a job may ask for are those that its session permits, so a
/// job never holds more than its session.
pub proof fn accepted_grants_are_permitted(
    requested: Seq<Seq<char>>,
    grants: Seq<CapabilityView>,
    i: int,
)
    requires
        first_refused(requested, grants) is None,
        0 <= i < requested.len(),
    ensures
        parsed(requested[i]) matches Ok(cap) && any_permits(grants, cap),
    decreases requested.len(),
{
    if i < requested.len() - 1 {
        accepted_grants_are_permitted(requested.drop_last(), grants, i);
    }
}

proof fn lemma_spawn_grant(grants: Seq<CapabilityView>)
    ensures
        any_permits(grants, CapabilityView::ProcSpawn) <==> grants.contains(
            CapabilityView::ProcSpawn,
        ),
{
    if any_permits(grants, CapabilityView::ProcSpawn) {
        let i = choose|i: int|
            0 <= i < grants.len() && permits(#[trigger] grants[i], CapabilityView::ProcSpawn);
        assert(grants[i] == CapabilityView::ProcSpawn);
    }
    if grants.contains(CapabilityView::ProcSpawn) {
        let i = choose|i: int| 0 <= i < grants.len() && grants[i] == CapabilityView::ProcSpawn;
        assert(permits(grants[i], CapabilityView::ProcSpawn));
    }
}

/// A command runs exactly where the session may spawn, and it runs word for word;
/// without that grant the refusal names it.
pub proof fn commands_need_the_spawn_grant<P: Provider>(
    command: String,
    grants: Seq<CapabilityView>,
    registry: ProviderRegistry<P>,
    r: Result<WorkView, ErrorView>,
)
    requires
        work_planned(JobPayload::Command { command }, grants, registry, r),
    ensures
        r is Ok <==> grants.contains(CapabilityView::ProcSpawn),
        r matches Ok(work) ==> work == WorkView::Shell(command@),
        r matches Err(e) ==> e == (ErrorView::CapabilityDenied { required: "proc.spawn"@ }),
{
    lemma_spawn_grant(grants);
}

/// A capability is planned only for who holds its tool grant or may spawn, and
/// only where the catalog has it: the denial comes first and names the grant, and
/// an unknown name is told as such.
pub proof fn capabilities_need_their_grant<P: Provider>(
    name: String,
    params: serde_json::Value,
    grants: Seq<CapabilityView>,
    registry: ProviderRegistry<P>,
    r: Result<WorkView, ErrorView>,
)
    requires
        work_planned(JobPayload::Capability { name, params }, grants, registry, r),
    ensures
        ({
            let held = grants.contains(CapabilityView::ProcSpawn) || grants.contains(
                CapabilityView::Tool(name@),
            );
            &&& !held ==> r == Err::<WorkView, ErrorView>(
                ErrorView::CapabilityDenied { required: "tool:"@ + name@ },
            )
            &&& held && !registry.catalog().entries.contains_key(name@) ==> r == Err::<
                WorkView,
                ErrorView,
            >(no_capability(name@))
            &&& r matches Ok(work) ==> held && registry.catalog().entries.contains_key(name@)
                && work is Argv
        }),
{
    tools_are_open_to_their_holders(grants, name@);
}

/// Code runs as it decodes, whatever the grants.
pub proof fn code_needs_no_grant<P: Provider>(
    code: String,
    lang: Option<String>,
    grants: Seq<CapabilityView>,
    registry: ProviderRegistry<P>,
    r: Result<WorkView, ErrorView>,
    bytes: Seq<u8>,
)
    requires
        work_planned(JobPayload::Code { code, lang }, grants, registry, r),
        base64_bytes(code@) == Ok::<Seq<u8>, Seq<char>>(bytes),
        lang matches Some(name) ==> name@ == "wasm-component"@,
    ensures
        r == Ok::<WorkView, ErrorView>(WorkView::Code(bytes)),
{
}

/// A component's invocation needs the same grant as a job of that capability, and
/// is refused for bad parameters only once it is allowed.
pub proof fn invocations_need_the_grant_of_a_job<P: Provider>(
    name: Seq<char>,
    params_json: Seq<char>,
    params: Result<serde_json::Value, Seq<char>>,
    grants: Seq<CapabilityView>,
    registry: ProviderRegistry<P>,
    r: Result<CommandView, ErrorView>,
)
    requires
        invocation_planned(name, params_json, params, grants, registry, r),
    ensures
        ({
            let held = grants.contains(CapabilityView::ProcSpawn) || grants.contains(
                CapabilityView::Tool(name),
            );
            &&& !held ==> r == Err::<CommandView, ErrorView>(
                ErrorView::CapabilityDenied { required: "tool:"@ + name },
            )
            &&& r is Ok ==> held && params is Ok && registry.catalog().entries.contains_key(name)
            &&& held && params is Err ==> (r matches Err(e) && e == (ErrorView::CapabilityParse {
                raw: params_json,
                reason: "invalid params JSON: "@ + params->Err_0,
            }))
        }),
{
    tools_are_open_to_their_holders(grants, name);
}

proof fn lemma_grants_open_paths(grants: Seq<CapabilityView>, path: Seq<char>)
    ensures
        grants.contains(CapabilityView::FsRead(path)) ==> readable(grants).contains(path),
        grants.contains(CapabilityView::FsWrite(path)) ==> writable(grants).contains(path),
    decreases grants.len(),
{
    if grants.len() > 0 {
        let fewer = grants.drop_last();
        lemma_grants_open_paths(fewer, path);
        if grants.contains(CapabilityView::FsRead(path)) {
            let k = choose|k: int| 0 <= k < grants.len() && grants[k] == CapabilityView::FsRead(path);
            if k < fewer.len() {
                assert(fewer[k] == grants[k]);
                let i = choose|i: int| 0 <= i < readable(fewer).len() && readable(fewer)[i] == path;
                assert(readable(grants)[i] == path);
            } else {
                assert(readable(grants)[readable(fewer).len() as int] == path);
            }
        }
        if grants.contains(CapabilityView::FsWrite(path)) {
            let k = choose|k: int|
                0 <= k < grants.len() && grants[k] == CapabilityView::FsWrite(path);
            if k < fewer.len() {
                assert(fewer[k] == grants[k]);
                let i = choose|i: int| 0 <= i < writable(fewer).len() && writable(fewer)[i] == path;
                assert(writable(grants)[i] == path);
            } else {
                assert(writable(grants)[writable(fewer).len() as int] == path);
            }
        }
    }
}

/// A policy opens all that is granted: the workspace and every read grant for
/// reading, every write grant for writing, spawning and the network where any
/// grant asks for them.
pub proof fn policy_opens_all_that_is_granted(
    tier: EnforcementTier,
    root: Seq<char>,
    grants: Seq<CapabilityView>,
    at: int,
)
    ensures
        policy_for(tier, root, grants).fs_read.contains(root),
        0 <= at < grants.len() ==> match grants[at] {
            CapabilityView::FsRead(path) => policy_for(tier, root, grants).fs_read.contains(path),
            CapabilityView::FsWrite(path) => policy_for(tier, root, grants).fs_write.contains(path),
            CapabilityView::NetConnect(_) => policy_for(tier, root, grants).allow_network,
            CapabilityView::ProcSpawn => policy_for(tier, root, grants).allow_proc_spawn,
            _ => true,
        },
{
    let policy = policy_for(tier, root, grants);
    assert(policy.fs_read[0] == root);
    if 0 <= at < grants.len() {
        assert(grants.contains(grants[at]));
        match grants[at] {
            CapabilityView::FsRead(path) => {
                lemma_grants_open_paths(grants, path);
                let i = choose|i: int|
                    0 <= i < readable(grants).len() && readable(grants)[i] == path;
                assert(policy.fs_read[i + 1] == path);
            },
            CapabilityView::FsWrite(path) => lemma_grants_open_paths(grants, path),
            _ => {},
        }
    }
}

/// The grants asked for are accepted exactly where each of them is well-formed and
/// permitted; otherwise the first that is not is what the refusal is about.
pub proof fn first_bad_request_is_refused(requested: Seq<Seq<char>>, grants: Seq<CapabilityView>)
    ensures
        first_refused(requested, grants) is None <==> forall|i: int|
            0 <= i < requested.len() ==> (parsed(#[trigger] requested[i]) matches Ok(cap)
                && any_permits(grants, cap)),
        first_refused(requested, grants) matches Some(e) ==> exists|at: int|
            {
                &&& 0 <= at < requested.len()
                &&& forall|i: int|
                    0 <= i < at ==> (parsed(#[trigger] requested[i]) matches Ok(cap)
                        && any_permits(grants, cap))
                &&& match parsed(#[trigger] requested[at]) {
                    Err(fault) => e == fault,
                    Ok(cap) => !any_permits(grants, cap) && e == (ErrorView::CapabilityDenied {
                        required: requested[at],
                    }),
                }
            },
    decreases requested.len(),
{
    if requested.len() > 0 {
        let head = requested.drop_last();
        first_bad_request_is_refused(head, grants);
        assert forall|i: int| 0 <= i < head.len() implies #[trigger] head[i] == requested[i] by {}
        assert(requested[requested.len() - 1] == requested.last());
        if let Some(e) = first_refused(head, grants) {
            let at = choose|at: int|
                {
                    &&& 0 <= at < head.len()
                    &&& forall|i: int|
                        0 <= i < at ==> (parsed(#[trigger] head[i]) matches Ok(cap) && any_permits(
                            grants,
                            cap,
                        ))
                    &&& match parsed(#[trigger] head[at]) {
                        Err(fault) => e == fault,
                        Ok(cap) => !any_permits(grants, cap) && e == (ErrorView::CapabilityDenied {
                            required: head[at],
                        }),
                    }
                };
            assert(requested[at] == head[at]);
            assert forall|i: int| 0 <= i < at implies (parsed(#[trigger] requested[i]) matches Ok(
                cap,
            ) && any_permits(grants, cap)) by {
                assert(head[i] == requested[i]);
            }
        } else {
            assert forall|i: int| 0 <= i < head.len() implies (
            parsed(#[trigger] requested[i]) matches Ok(cap) && any_permits(grants, cap)) by {
                assert(head[i] == requested[i]);
            }
        }
    }
}

/// A launch runs the very work that was planned: a script by `sh -c` with the
/// script as one argument, a resolved command with its own arguments, a component
/// with its own bytes; each in the working directory that was resolved.
pub proof fn launch_runs_the_planned_work(work: WorkView, cwd: Seq<char>, policy: PolicyView)
    ensures
        match (work, launch_of(work, cwd, policy)) {
            (WorkView::Shell(script), LaunchView::Process { command, cwd: at, policy: under }) => {
                &&& command.program == "sh"@
                &&& command.args.len() == 2
                &&& command.args[0] == "-c"@
                &&& command.args[1] == script
                &&& at == cwd
                &&& under == policy
            },
            (WorkView::Argv(given), LaunchView::Process { command, cwd: at, policy: under }) => {
                &&& command == given
                &&& at == cwd
                &&& under.allow_proc_spawn
                &&& under.tier == policy.tier
                &&& under.fs_read == policy.fs_read
                &&& under.fs_write == policy.fs_write
                &&& under.allow_network == policy.allow_network
            },
            (WorkView::Code(given), LaunchView::Code { bytes, cwd: at }) => bytes == given && at
                == cwd,
            _ => false,
        },
{
}

/// A job is launched exactly where its working directory resolves inside the
/// workspace and each grant that it asks for is permitted.
pub proof fn launch_needs_its_directory_and_grants(
    work: WorkView,
    tier: EnforcementTier,
    root: Seq<char>,
    grants: Seq<CapabilityView>,
    rel: Option<Seq<char>>,
    canonical: Option<Seq<char>>,
    requested: Seq<Seq<char>>,
)
    ensures
        launch_outcome(work, tier, root, grants, rel, canonical, requested) is Ok <==> {
            &&& canonical matches Some(path) && path_parts(root).is_prefix_of(path_parts(path))
            &&& forall|i: int|
                0 <= i < requested.len() ==> (parsed(#[trigger] requested[i]) matches Ok(cap)
                    && any_permits(grants, cap))
        },
        launch_outcome(work, tier, root, grants, rel, canonical, requested) matches Ok(launch)
            ==> match launch {
            LaunchView::Process { cwd, .. } => canonical == Some(cwd),
            LaunchView::Code { cwd, .. } => canonical == Some(cwd),
        },
{
    first_bad_request_is_refused(requested, grants);
}

} // verus!
