//! The state that all request handlers share.

use vstd::prelude::*;
use vstd::string::*;

use crate::builtins::{builtin_listing, builtin_registry, is_builtin};
use crate::catalog_provider::{
    backed, registration_keeps_the_catalog_backed, CatalogProvider,
};
use crate::error::Error;
use crate::job::engine::{following, EngineView, JobEngine};
use crate::job::log::DEFAULT_LOG_BYTE_CAP;
use crate::job::store::{JobIndices, JobStore};
use crate::json::{open_object, open_object_schema};
use crate::mcp::{
    ordered_tools, tool_names, tools_fault, McpBridgeCommand, McpToolDescriptor, McpToolProvider,
};
use crate::proto::ids::SessionId;
use crate::provider::{ListingView, Provider};
use crate::registry::{
    empty_catalog, registration_fault, with_listings, CatalogView, ProviderRegistry,
};
use crate::session::SessionStore;
use crate::text::{concat_text, decimal, decimal_is_injective, decimal_text, texts};

verus! {

/// The state of a runtime: its engine, over one session store and one registry,
/// and the number of the next session.
pub struct AppState<P> {
    /// The job engine, with the sessions and the registry.
    pub engine: JobEngine<P>,
    /// The number of the next session.
    pub session_counter: u64,
}

/// The id of the session with a number.
pub open spec fn session_name(n: nat) -> Seq<char> {
    "s_"@ + decimal(n)
}

/// The engine of a runtime in which nothing has happened yet.
pub open spec fn idle_engine() -> EngineView {
    EngineView {
        sessions: Map::empty(),
        jobs: JobIndices { jobs: Map::empty(), by_session: Map::empty() },
        cancellable: Set::empty(),
        next_id: 1,
        log_byte_cap: DEFAULT_LOG_BYTE_CAP,
    }
}

impl<P: Provider> AppState<P> {
    /// What holds of every state.
    pub open spec fn wf(&self) -> bool {
        self.engine.wf()
    }

    /// Build a state over a registry: no sessions, no jobs, and the first
    /// session will be number 1.
    pub fn with_registry(registry: ProviderRegistry<P>) -> (r: Self)
        requires
            registry.wf(),
        ensures
            r.wf(),
            r.engine.registry == registry,
            r.engine@ == idle_engine(),
            r.session_counter == 1,
    {
        AppState {
            engine: JobEngine::new(SessionStore::new(), JobStore::new(), registry),
            session_counter: 1,
        }
    }

    /// Allocate the next session id.
    pub fn next_session_id(&mut self) -> (r: SessionId)
        ensures
            r@ == session_name(old(self).session_counter as nat),
            final(self).session_counter == following(old(self).session_counter),
            final(self).engine == old(self).engine,
    {
        let n: u64 = self.session_counter;
        let digits = decimal_text(n);
        self.session_counter = if n == u64::MAX {
            0
        } else {
            n + 1
        };
        SessionId(concat_text("s_", digits.as_str()))
    }
}

/// Sessions with different numbers have different ids.
pub proof fn session_ids_are_distinct(a: nat, b: nat)
    requires
        a != b,
    ensures
        session_name(a) != session_name(b),
{
    if session_name(a) == session_name(b) {
        assert(decimal(a) =~= session_name(a).skip("s_"@.len() as int));
        assert(decimal(b) =~= session_name(b).skip("s_"@.len() as int));
        decimal_is_injective(a, b);
    }
}

/// The fixed arguments of a static bridge.
pub fn static_mcp_bridge_args() -> (r: Vec<String>)
    ensures
        texts(r@) == seq!["call"@],
{
    let mut args: Vec<String> = Vec::new();
    args.push("call".to_owned());
    assert(texts(args@) =~= seq!["call"@]);
    args
}

/// A tool to mount: its name, its description and its schema.
#[derive(Debug, Clone, PartialEq)]
pub struct MountedTool {
    /// The tool name.
    pub name: String,
    /// The description.
    pub desc: String,
    /// The schema of its input.
    pub schema: serde_json::Value,
}

/// Whether descriptors are those of tools mounted behind a bridge.
pub open spec fn mounted(
    provider_id: Seq<char>,
    program: Seq<char>,
    args: Seq<Seq<char>>,
    tools: Seq<MountedTool>,
    descriptors: Seq<McpToolDescriptor>,
) -> bool {
    &&& descriptors.len() == tools.len()
    &&& forall|i: int|
        0 <= i < tools.len() ==> {
            let d = #[trigger] descriptors[i];
            &&& d.provider_id@ == provider_id
            &&& d.name@ == tools[i].name@
            &&& d.desc@ == tools[i].desc@
            &&& d.schema == tools[i].schema
            &&& d.bridge.program@ == program
            &&& texts(d.bridge.args@) == args
        }
}

/// The index of mounted tools: every name with its description, in order.
pub open spec fn mounted_listing(tools: Seq<MountedTool>) -> Seq<ListingView> {
    Seq::new(tools.len(), |i: int| ListingView { name: tools[i].name@, desc: tools[i].desc@ })
}

/// The catalog of the built-in capabilities.
pub open spec fn builtin_catalog() -> CatalogView {
    with_listings(empty_catalog(), "native"@, builtin_listing())
}

/// The descriptors of tools mounted behind a bridge.
pub fn mount_descriptors(
    provider_id: &str,
    bridge_program: &str,
    bridge_args: &Vec<String>,
    tools: &Vec<MountedTool>,
) -> (r: Vec<McpToolDescriptor>)
    ensures
        mounted(provider_id@, bridge_program@, texts(bridge_args@), tools@, r@),
{
    let mut descriptors: Vec<McpToolDescriptor> = Vec::new();
    let mut i: usize = 0;
    while i < tools.len()
        invariant
            i <= tools@.len(),
            descriptors@.len() == i,
            forall|k: int|
                0 <= k < i ==> {
                    let d = #[trigger] descriptors@[k];
                    &&& d.provider_id@ == provider_id@
                    &&& d.name@ == tools@[k].name@
                    &&& d.desc@ == tools@[k].desc@
                    &&& d.schema == tools@[k].schema
                    &&& d.bridge.program@ == bridge_program@
                    &&& texts(d.bridge.args@) == texts(bridge_args@)
                },
        decreases tools@.len() - i,
    {
        let args = bridge_args.clone();
        assert(texts(args@) =~= texts(bridge_args@));
        descriptors.push(
            McpToolDescriptor {
                provider_id: provider_id.to_owned(),
                name: tools[i].name.clone(),
                desc: tools[i].desc.clone(),
                schema: tools[i].schema.clone(),
                bridge: McpBridgeCommand { program: bridge_program.to_owned(), args },
            },
        );
        i = i + 1;
    }
    descriptors
}

/// Whether a provider is the built-in one.
pub open spec fn holds_builtin(provider: CatalogProvider) -> bool {
    provider matches CatalogProvider::Native(p) && is_builtin(p)
}

/// Whether a state is a new one with the built-in capabilities alone.
pub open spec fn starts_with_builtins(state: AppState<CatalogProvider>) -> bool {
    &&& state.wf()
    &&& state.engine@ == idle_engine()
    &&& state.session_counter == 1
    &&& state.engine.registry.catalog() == builtin_catalog()
    &&& state.engine.registry.registered().len() == 1
    &&& holds_builtin(state.engine.registry.registered()[0])
    &&& backed(state.engine.registry.registered(), state.engine.registry.catalog())
}

/// Whether `r` is what mounting tools beside the built-in capabilities gives.
pub open spec fn mount_settled(
    provider_id: Seq<char>,
    program: Seq<char>,
    args: Seq<Seq<char>>,
    tools: Seq<MountedTool>,
    r: Result<AppState<CatalogProvider>, Error>,
) -> bool {
    exists|descriptors: Seq<McpToolDescriptor>| #[trigger]
        mounted(provider_id, program, args, tools, descriptors) && match tools_fault(
            provider_id,
            descriptors,
        ) {
            Some(fault) => r matches Err(e) && e@ == fault,
            None => match registration_fault(
                seq!["native"@],
                provider_id,
                mounted_listing(tools),
            ) {
                Some(fault) => r matches Err(e) && e@ == fault,
                None => r matches Ok(state) && {
                    &&& state.wf()
                    &&& state.engine@ == idle_engine()
                    &&& state.session_counter == 1
                    &&& state.engine.registry.catalog() == with_listings(
                        builtin_catalog(),
                        provider_id,
                        mounted_listing(tools),
                    )
                    &&& state.engine.registry.registered().len() == 2
                    &&& holds_builtin(state.engine.registry.registered()[0])
                    &&& state.engine.registry.registered()[1] matches CatalogProvider::Mcp(p)
                        && p.given_id() == provider_id && (forall|i: int|
                        0 <= i < tools.len() ==> p.offers()[tools[i].name@]
                            == #[trigger] descriptors[i]) && forall|name: Seq<char>|
                        p.offers().contains_key(name) <==> tool_names(descriptors).contains(name)
                    &&& backed(
                        state.engine.registry.registered(),
                        state.engine.registry.catalog(),
                    )
                },
            },
        }
}

impl Default for AppState<CatalogProvider> {
    /// The same as [`AppState::new`].
    fn default() -> (r: Self)
        ensures
            starts_with_builtins(r),
    {
        Self::new()
    }
}

impl AppState<CatalogProvider> {
    /// Build a state with the built-in capabilities.
    pub fn new() -> (r: Self)
        ensures
            starts_with_builtins(r),
    {
        Self::with_registry(builtin_registry())
    }

    /// Build a state with the built-in capabilities and tools behind a bridge.
    pub fn with_mcp_tools(
        provider_id: String,
        bridge_program: String,
        bridge_args: Vec<String>,
        tools: Vec<MountedTool>,
    ) -> (r: Result<Self, Error>)
        ensures
            mount_settled(provider_id@, bridge_program@, texts(bridge_args@), tools@, r),
    {
        let mut registry = builtin_registry();
        let descriptors = mount_descriptors(
            provider_id.as_str(),
            bridge_program.as_str(),
            &bridge_args,
            &tools,
        );
        let ghost all = descriptors@;
        let ghost id = provider_id@;
        assert(mounted(id, bridge_program@, texts(bridge_args@), tools@, all));
        let provider = match McpToolProvider::new(provider_id, descriptors) {
            Ok(provider) => provider,
            Err(e) => return Err(e),
        };
        let ghost listing = ordered_tools(provider.order(), provider.offers());
        proof {
            assert(listing =~= mounted_listing(tools@)) by {
                assert forall|i: int| 0 <= i < tools@.len() implies #[trigger] listing[i]
                    == mounted_listing(tools@)[i] by {
                    assert(tool_names(all)[i] == all[i].name@);
                    assert(provider.offers()[tool_names(all)[i]] == all[i]);
                }
            }
            assert(registry.ids() =~= seq!["native"@]);
        }
        let mount = CatalogProvider::Mcp(provider);
        proof {
            assert forall|i: int| 0 <= i < provider.order().len() implies provider.offers().contains_key(
                #[trigger] provider.order()[i],
            ) by {
                assert(tool_names(all).contains(tool_names(all)[i]));
            }
            registration_keeps_the_catalog_backed(
                registry.registered(),
                registry.catalog(),
                mount,
                listing,
            );
        }
        match registry.register(mount) {
            Err(e) => Err(e),
            Ok(_) => {
                proof {
                    assert(registry.registered()[1] == mount);
                    assert forall|i: int| 0 <= i < tools@.len() implies provider.offers()[tools@[i].name@]
                        == #[trigger] all[i] by {
                        assert(tool_names(all)[i] == all[i].name@);
                    }
                }
                Ok(Self::with_registry(registry))
            },
        }
    }

    /// Build a state with the built-in capabilities and one static tool.
    pub fn with_mcp_tool(
        provider_id: String,
        tool_name: String,
        desc: String,
        bridge_program: String,
    ) -> (r: Result<Self, Error>)
        ensures
            exists|tools: Seq<MountedTool>|
                {
                    &&& tools.len() == 1
                    &&& tools[0].name@ == tool_name@
                    &&& tools[0].desc@ == desc@
                    &&& tools[0].schema == open_object()
                    &&& #[trigger] mount_settled(
                        provider_id@,
                        bridge_program@,
                        seq!["call"@],
                        tools,
                        r,
                    )
                },
    {
        let mut tools: Vec<MountedTool> = Vec::new();
        tools.push(MountedTool { name: tool_name, desc, schema: open_object_schema() });
        let r = Self::with_mcp_tools(
            provider_id,
            bridge_program,
            static_mcp_bridge_args(),
            tools,
        );
        assert(mount_settled(provider_id@, bridge_program@, seq!["call"@], tools@, r));
        r
    }
}

/// A new runtime knows no session and no job, and numbers its jobs from 1.
pub proof fn runtime_starts_idle(id: Seq<char>)
    ensures
        !idle_engine().sessions.contains_key(id),
        !idle_engine().jobs.jobs.contains_key(id),
        !idle_engine().jobs.by_session.contains_key(id),
        !idle_engine().cancellable.contains(id),
        idle_engine().next_id == 1,
        idle_engine().log_byte_cap == DEFAULT_LOG_BYTE_CAP,
{
}

/// Tools mounted behind one bridge are called through it, one descriptor for each
/// tool, with the tool's own name, description and schema, and under one provider.
pub proof fn mounted_tools_share_their_bridge(
    provider_id: Seq<char>,
    program: Seq<char>,
    args: Seq<Seq<char>>,
    tools: Seq<MountedTool>,
    descriptors: Seq<McpToolDescriptor>,
    i: int,
)
    requires
        mounted(provider_id, program, args, tools, descriptors),
        0 <= i < tools.len(),
    ensures
        descriptors.len() == tools.len() == mounted_listing(tools).len(),
        descriptors[i].provider_id@ == provider_id,
        descriptors[i].bridge.program@ == program,
        texts(descriptors[i].bridge.args@) == args,
        descriptors[i].schema == tools[i].schema,
        descriptors[i].name@ == tools[i].name@,
        mounted_listing(tools)[i].name == tools[i].name@,
        descriptors[i].desc@ == tools[i].desc@,
        mounted_listing(tools)[i].desc == tools[i].desc@,
{
}

/// A runtime starts idle, with the built-in capabilities, and with its mounted
/// tools beside them where there are any: every tool is offered under its own
/// name by one provider, and called through the bridge that was given.
pub proof fn runtime_offers_what_is_mounted(
    plain: AppState<CatalogProvider>,
    provider_id: Seq<char>,
    program: Seq<char>,
    args: Seq<Seq<char>>,
    tools: Seq<MountedTool>,
    r: Result<AppState<CatalogProvider>, Error>,
    i: int,
)
    requires
        starts_with_builtins(plain),
        mount_settled(provider_id, program, args, tools, r),
        0 <= i < tools.len(),
    ensures
        plain.wf(),
        plain.session_counter == 1,
        plain.engine@.sessions.len() == 0,
        plain.engine@.next_id == 1,
        plain.engine.registry.registered().len() == 1,
        plain.engine.registry.registered()[0] matches CatalogProvider::Native(p) && is_builtin(p),
        provider_id == "native"@ ==> r is Err,
        r matches Ok(state) ==> {
            let registered = state.engine.registry.registered();
            &&& state.wf()
            &&& state.session_counter == 1
            &&& state.engine@ == plain.engine@
            &&& registered.len() == 2
            &&& registered[0] matches CatalogProvider::Native(p) && is_builtin(p)
            &&& registered[1] matches CatalogProvider::Mcp(p) && p.given_id() == provider_id
                && p.offers().contains_key(tools[i].name@) && {
                let d = p.offers()[tools[i].name@];
                &&& d.name@ == tools[i].name@
                &&& d.desc@ == tools[i].desc@
                &&& d.schema == tools[i].schema
                &&& d.bridge.program@ == program
                &&& texts(d.bridge.args@) == args
            }
        },
{
    if provider_id == "native"@ {
        assert(seq!["native"@][0] == provider_id);
        assert(seq!["native"@].contains(provider_id));
    }
    if r is Ok {
        let p = r->Ok_0.engine.registry.registered()[1]->Mcp_0;
        let descriptors = choose|descriptors: Seq<McpToolDescriptor>|
            {
                &&& #[trigger] mounted(provider_id, program, args, tools, descriptors)
                &&& tools_fault(provider_id, descriptors) is None
                &&& forall|k: int|
                    0 <= k < tools.len() ==> p.offers()[tools[k].name@] == #[trigger] descriptors[k]
                &&& forall|name: Seq<char>|
                    p.offers().contains_key(name) <==> tool_names(descriptors).contains(name)
            };
        assert(p.offers()[tools[i].name@] == descriptors[i]);
        assert(tool_names(descriptors)[i] == descriptors[i].name@);
        assert(tool_names(descriptors).contains(tools[i].name@));
    }
}

} // verus!
