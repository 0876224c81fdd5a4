//! Static MCP tool adapter: external tools, already discovered, offered as
//! capabilities and run through a bridge command.

use vstd::prelude::*;
use vstd::string::*;

use crate::error::{Error, ErrorView};
use crate::json::{json_text, value_to_text};
use crate::proto::discovery::{CapabilityDetail, CapabilityDetailView};
use crate::provider::{
    listing_views, no_capability, CapabilityListing, CommandView, ListingView, Provider,
    ResolvedCommand,
};
use crate::text::{concat_text, concat_three, same_text, texts};
use crate::textmap::TextMap;

verus! {

/// Bridge command that runs an external tool through an adapter process.
///
/// The argument vector of an invocation is `args`, `--provider`, the provider
/// id, `--tool`, the tool name, `--params`, and the parameters as JSON text.
#[derive(Debug, Clone, PartialEq, Eq)]
pub struct McpBridgeCommand {
    /// Executable name or path of the bridge process.
    pub program: String,
    /// Fixed arguments passed before the tool binding arguments.
    pub args: Vec<String>,
}

/// Static metadata for one external tool.
#[derive(Debug, Clone, PartialEq)]
pub struct McpToolDescriptor {
    /// Stable id of the external provider this tool belongs to.
    pub provider_id: String,
    /// Local tool name within that provider.
    pub name: String,
    /// One-line human-readable description.
    pub desc: String,
    /// JSON Schema for the tool input.
    pub schema: serde_json::Value,
    /// Bridge command that invokes this tool.
    pub bridge: McpBridgeCommand,
}

/// A provider of static external tools.
#[derive(Debug)]
pub struct McpToolProvider {
    id: String,
    tools: TextMap<McpToolDescriptor>,
}

/// The signature of a tool.
pub open spec fn tool_signature(name: Seq<char>) -> Seq<char> {
    name + "(input: object): string"@
}

/// The names of tools.
pub open spec fn tool_names(tools: Seq<McpToolDescriptor>) -> Seq<Seq<char>> {
    Seq::new(tools.len(), |i: int| tools[i].name@)
}

/// What is wrong with a list of tools for a provider id, where something is:
/// the first tool that belongs to another provider or repeats a name.
pub open spec fn tools_fault(id: Seq<char>, tools: Seq<McpToolDescriptor>) -> Option<ErrorView>
    decreases tools.len(),
{
    if tools.len() == 0 {
        None
    } else {
        match tools_fault(id, tools.drop_last()) {
            Some(e) => Some(e),
            None => {
                let tool = tools.last();
                if tool.provider_id@ != id {
                    Some(
                        ErrorView::CapabilityParse {
                            raw: tool.provider_id@,
                            reason: "MCP tool provider id must match `"@ + id + "`"@,
                        },
                    )
                } else if tool_names(tools.drop_last()).contains(tool.name@) {
                    Some(ErrorView::DuplicateCapability { provider: id, name: tool.name@ })
                } else {
                    None
                }
            },
        }
    }
}

proof fn lemma_first_tools_fault(id: Seq<char>, tools: Seq<McpToolDescriptor>, at: int)
    requires
        0 <= at <= tools.len(),
        tools_fault(id, tools.take(at)) is Some,
    ensures
        tools_fault(id, tools) == tools_fault(id, tools.take(at)),
    decreases tools.len() - at,
{
    if at == tools.len() {
        assert(tools.take(at) =~= tools);
    } else {
        assert(tools.take(at + 1).drop_last() =~= tools.take(at));
        lemma_first_tools_fault(id, tools, at + 1);
    }
}

/// The bridge command of an invocation, given the parameters as text or the
/// message with which they could not be written.
pub open spec fn bridge_command(
    tool: McpToolDescriptor,
    local_name: Seq<char>,
    params: Result<Seq<char>, Seq<char>>,
) -> Result<CommandView, ErrorView> {
    match params {
        Err(message) => Err(
            ErrorView::CapabilityParse {
                raw: local_name,
                reason: "failed to serialize MCP tool params: "@ + message,
            },
        ),
        Ok(text) => Ok(
            CommandView {
                program: tool.bridge.program@,
                args: texts(tool.bridge.args@) + seq![
                    "--provider"@,
                    tool.provider_id@,
                    "--tool"@,
                    tool.name@,
                    "--params"@,
                    text,
                ],
            },
        ),
    }
}

/// The signature of a tool.
pub fn mcp_tool_signature(tool_name: &str) -> (r: String)
    ensures
        r@ == tool_signature(tool_name@),
{
    concat_text(tool_name, "(input: object): string")
}

/// The bridge command of an invocation, given the parameters as text or the
/// message with which they could not be written.
pub fn bridge_invocation(
    tool: &McpToolDescriptor,
    local_name: &str,
    params: Result<String, String>,
) -> (r: Result<ResolvedCommand, Error>)
    ensures
        match params {
            Ok(text) => r matches Ok(command) && Ok::<CommandView, ErrorView>(command@)
                == bridge_command(*tool, local_name@, Ok(text@)),
            Err(message) => r matches Err(e) && Err::<CommandView, ErrorView>(e@)
                == bridge_command(*tool, local_name@, Err(message@)),
        },
{
    match params {
        Err(message) => Err(
            Error::CapabilityParse {
                raw: local_name.to_owned(),
                reason: concat_text("failed to serialize MCP tool params: ", message.as_str()),
            },
        ),
        Ok(text) => {
            let mut args = tool.bridge.args.clone();
            assert(texts(args@) =~= texts(tool.bridge.args@));
            args.push("--provider".to_owned());
            args.push(tool.provider_id.clone());
            args.push("--tool".to_owned());
            args.push(tool.name.clone());
            args.push("--params".to_owned());
            args.push(text);
            assert(texts(args@) =~= texts(tool.bridge.args@) + seq![
                "--provider"@,
                tool.provider_id@,
                "--tool"@,
                tool.name@,
                "--params"@,
                text@,
            ]);
            Ok(ResolvedCommand { program: tool.bridge.program.clone(), args })
        },
    }
}

impl McpToolProvider {
    /// The tools by their names.
    pub closed spec fn offers(&self) -> Map<Seq<char>, McpToolDescriptor> {
        self.tools@
    }

    /// The names in the order in which the tools were given.
    pub closed spec fn order(&self) -> Seq<Seq<char>> {
        self.tools.order()
    }

    /// The identifier.
    pub closed spec fn given_id(&self) -> Seq<char> {
        self.id@
    }

    #[verifier::type_invariant]
    spec fn valid(self) -> bool {
        &&& self.tools.wf()
        &&& forall|name: Seq<char>| #[trigger]
            self.tools@.contains_key(name) ==> self.tools@[name].name@ == name
    }

    /// Make a provider of tools; a tool of another provider and a name that
    /// occurs twice are rejected.
    pub fn new(id: String, tools: Vec<McpToolDescriptor>) -> (r: Result<Self, Error>)
        ensures
            match r {
                Ok(p) => {
                    let names = tool_names(tools@);
                    &&& tools_fault(id@, tools@) is None
                    &&& p.given_id() == id@
                    &&& p.order() == names
                    &&& forall|name: Seq<char>|
                        p.offers().contains_key(name) <==> names.contains(name)
                    &&& forall|i: int|
                        0 <= i < tools@.len() ==> p.offers()[names[i]] == (#[trigger] tools@[i])
                },
                Err(e) => tools_fault(id@, tools@) == Some(e@),
            },
    {
        let mut map: TextMap<McpToolDescriptor> = TextMap::new();
        let ghost given = tools@;
        let ghost names = tool_names(given);
        let mut rest = tools;
        let count: usize = rest.len();
        let mut i: usize = 0;
        assert(names.take(0) =~= Seq::<Seq<char>>::empty());
        assert(given.take(0) =~= Seq::<McpToolDescriptor>::empty());
        while i < count
            invariant
                i <= count == given.len(),
                given == tools@,
                rest@ == given.skip(i as int),
                names == tool_names(given),
                map.wf(),
                map.order() == names.take(i as int),
                tools_fault(id@, given.take(i as int)) is None,
                forall|k: int| 0 <= k < i ==> map@[names[k]] == #[trigger] given[k],
                forall|name: Seq<char>|
                    map@.contains_key(name) <==> names.take(i as int).contains(name),
                forall|name: Seq<char>| #[trigger]
                    map@.contains_key(name) ==> map@[name].name@ == name,
            decreases count - i,
        {
            let tool = rest.remove(0);
            proof {
                assert(tool == given[i as int]);
                assert(rest@ =~= given.skip(i + 1));
                assert(given.take(i + 1).drop_last() =~= given.take(i as int));
                assert(given.take(i + 1).last() == tool);
                assert(tool_names(given.take(i as int)) =~= names.take(i as int));
            }
            if !same_text(tool.provider_id.as_str(), id.as_str()) {
                proof {
                    lemma_first_tools_fault(id@, given, i + 1);
                }
                return Err(
                    Error::CapabilityParse {
                        raw: tool.provider_id,
                        reason: concat_three(
                            "MCP tool provider id must match `",
                            id.as_str(),
                            "`",
                        ),
                    },
                );
            }
            if map.contains_key(tool.name.as_str()) {
                proof {
                    lemma_first_tools_fault(id@, given, i + 1);
                }
                return Err(Error::DuplicateCapability { provider: id, name: tool.name });
            }
            let name = tool.name.clone();
            let _ = map.insert(name, tool);
            proof {
                let now = names.take(i + 1);
                assert(now =~= names.take(i as int).push(name@));
                assert forall|k: int| 0 <= k < i + 1 implies map@[names[k]] == #[trigger] given[k] by {
                    if k < i {
                        assert(names.take(i as int)[k] == names[k]);
                        assert(names.take(i as int).contains(names[k]));
                    }
                }
                assert forall|n: Seq<char>| map@.contains_key(n) <==> now.contains(n) by {
                    if names.take(i as int).contains(n) {
                        let k = choose|k: int|
                            0 <= k < i && names.take(i as int)[k] == n;
                        assert(now[k] == n);
                    }
                    assert(now[i as int] == name@);
                }
            }
            i = i + 1;
        }
        assert(names.take(count as int) =~= names);
        assert(given.take(count as int) =~= given);
        Ok(McpToolProvider { id, tools: map })
    }
}

/// The index of a provider: every name in order, with its description.
pub open spec fn ordered_tools(
    order: Seq<Seq<char>>,
    offers: Map<Seq<char>, McpToolDescriptor>,
) -> Seq<ListingView> {
    Seq::new(order.len(), |i: int| ListingView { name: order[i], desc: offers[order[i]].desc@ })
}

impl Provider for McpToolProvider {
    open spec fn provider_id(&self) -> Seq<char> {
        self.given_id()
    }

    /// Every name in the order in which the tools were given.
    open spec fn lists(&self, r: Result<Seq<ListingView>, ErrorView>) -> bool {
        r == Ok::<Seq<ListingView>, ErrorView>(ordered_tools(self.order(), self.offers()))
    }

    /// The signature and schema of a tool.
    open spec fn describes(
        &self,
        local_name: Seq<char>,
        r: Result<CapabilityDetailView, ErrorView>,
    ) -> bool {
        if self.offers().contains_key(local_name) {
            r == Ok::<CapabilityDetailView, ErrorView>(
                CapabilityDetailView {
                    signature: tool_signature(local_name),
                    schema: self.offers()[local_name].schema,
                },
            )
        } else {
            r == Err::<CapabilityDetailView, ErrorView>(no_capability(local_name))
        }
    }

    /// The bridge command of a tool.
    open spec fn resolves(
        &self,
        local_name: Seq<char>,
        params: serde_json::Value,
        r: Result<CommandView, ErrorView>,
    ) -> bool {
        if self.offers().contains_key(local_name) {
            r == bridge_command(self.offers()[local_name], local_name, json_text(params))
        } else {
            r == Err::<CommandView, ErrorView>(no_capability(local_name))
        }
    }

    fn id(&self) -> (r: &str) {
        self.id.as_str()
    }

    fn index(&self) -> (r: Result<Vec<CapabilityListing>, Error>) {
        proof {
            use_type_invariant(self);
        }
        let mut listings: Vec<CapabilityListing> = Vec::new();
        let count: usize = self.tools.len();
        let mut i: usize = 0;
        while i < count
            invariant
                self.tools.wf(),
                count == self.order().len(),
                i <= count,
                listings@.len() == i,
                forall|k: int|
                    0 <= k < i ==> (#[trigger] listings@[k])@ == ordered_tools(
                        self.order(),
                        self.offers(),
                    )[k],
            decreases count - i,
        {
            let name = self.tools.key_at(i).clone();
            let desc = self.tools.value_at(i).desc.clone();
            listings.push(CapabilityListing { name, desc });
            i = i + 1;
        }
        assert(listing_views(listings@) =~= ordered_tools(self.order(), self.offers()));
        Ok(listings)
    }

    fn describe(&self, local_name: &str) -> (r: Result<CapabilityDetail, Error>) {
        proof {
            use_type_invariant(self);
        }
        match self.tools.get(local_name) {
            Some(tool) => Ok(
                CapabilityDetail {
                    signature: mcp_tool_signature(tool.name.as_str()),
                    schema: tool.schema.clone(),
                },
            ),
            None => Err(Error::CapabilityNotFound { name: local_name.to_owned() }),
        }
    }

    fn resolve(&self, local_name: &str, params: &serde_json::Value) -> (r: Result<
        ResolvedCommand,
        Error,
    >) {
        proof {
            use_type_invariant(self);
        }
        match self.tools.get(local_name) {
            None => Err(Error::CapabilityNotFound { name: local_name.to_owned() }),
            Some(tool) => bridge_invocation(tool, local_name, value_to_text(params)),
        }
    }
}

/// A bridge gets its fixed arguments first and then, each behind its flag, the
/// provider, the tool and the parameters of this very tool.
pub proof fn bridge_is_told_what_to_call(
    tool: McpToolDescriptor,
    local_name: Seq<char>,
    params: Result<Seq<char>, Seq<char>>,
    i: int,
)
    ensures
        bridge_command(tool, local_name, params) is Ok <==> params is Ok,
        bridge_command(tool, local_name, params) matches Ok(command) ==> {
            let n = tool.bridge.args@.len() as int;
            &&& command.program == tool.bridge.program@
            &&& command.args.len() == n + 6
            &&& 0 <= i < n ==> command.args[i] == tool.bridge.args@[i]@
            &&& command.args[n] == "--provider"@
            &&& command.args[n + 1] == tool.provider_id@
            &&& command.args[n + 2] == "--tool"@
            &&& command.args[n + 3] == tool.name@
            &&& command.args[n + 4] == "--params"@
            &&& params == Ok::<Seq<char>, Seq<char>>(command.args[n + 5])
        },
{
}

/// Tools can be mounted together exactly where they all belong to the provider and
/// have names of their own.
pub proof fn mounted_tools_belong_together(id: Seq<char>, tools: Seq<McpToolDescriptor>)
    ensures
        tools_fault(id, tools) is None <==> {
            &&& tool_names(tools).no_duplicates()
            &&& forall|i: int|
                0 <= i < tools.len() ==> (#[trigger] tools[i]).provider_id@ == id
        },
    decreases tools.len(),
{
    if tools.len() > 0 {
        let head = tools.drop_last();
        mounted_tools_belong_together(id, head);
        let names = tool_names(tools);
        let before = tool_names(head);
        assert(names.drop_last() =~= before);
        assert forall|i: int| 0 <= i < head.len() implies #[trigger] head[i] == tools[i] by {}
        assert(tools[tools.len() - 1] == tools.last());
        if tools_fault(id, tools) is None {
            assert forall|i: int, j: int|
                0 <= i < names.len() && 0 <= j < names.len() && i != j implies names[i]
                != names[j] by {
                if i < before.len() && j < before.len() {
                    assert(before[i] != before[j]);
                } else if i < before.len() {
                    assert(before.contains(before[i]));
                } else {
                    assert(before.contains(before[j]));
                }
            }
            assert forall|i: int| 0 <= i < tools.len() implies (#[trigger] tools[i]).provider_id@
                == id by {
                if i < head.len() {
                    assert(head[i].provider_id@ == id);
                }
            }
        }
        if names.no_duplicates() && (forall|i: int|
            0 <= i < tools.len() ==> (#[trigger] tools[i]).provider_id@ == id) {
            assert forall|i: int, j: int|
                0 <= i < before.len() && 0 <= j < before.len() && i != j implies before[i]
                != before[j] by {
                assert(names[i] != names[j]);
            }
            assert forall|i: int| 0 <= i < head.len() implies (#[trigger] head[i]).provider_id@
                == id by {
                assert(tools[i].provider_id@ == id);
            }
            if before.contains(tools.last().name@) {
                let k = choose|k: int| 0 <= k < before.len() && before[k] == tools.last().name@;
                assert(names[k] == names[names.len() - 1]);
            }
        }
    }
}

impl McpToolProvider {
    /// The provider lists each of its tools under its own name and description,
    /// describes it with a signature that starts with that name and with its own
    /// schema, and runs its own bridge. It tells any other name that there is none.
    pub proof fn answers_come_from_the_tool(
        &self,
        name: Seq<char>,
        params: serde_json::Value,
        listed: Result<Seq<ListingView>, ErrorView>,
        detail: Result<CapabilityDetailView, ErrorView>,
        command: Result<CommandView, ErrorView>,
    )
        requires
            self.lists(listed),
            self.describes(name, detail),
            self.resolves(name, params, command),
        ensures
            listed matches Ok(listing) && listing.len() == self.order().len() && forall|i: int|
                0 <= i < listing.len() ==> (#[trigger] listing[i]).name == self.order()[i]
                    && listing[i].desc == self.offers()[self.order()[i]].desc@,
            detail is Ok <==> self.offers().contains_key(name),
            detail matches Ok(d) ==> d.schema == self.offers()[name].schema && d.signature == name
                + "(input: object): string"@,
            command is Ok <==> self.offers().contains_key(name) && json_text(params) is Ok,
            command matches Ok(c) ==> c.program == self.offers()[name].bridge.program@
                && c.args.last() == json_text(params)->Ok_0,
            !self.offers().contains_key(name) ==> command == Err::<CommandView, ErrorView>(
                ErrorView::CapabilityNotFound { name },
            ),
    {
    }
}

} // verus!
