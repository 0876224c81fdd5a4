//! Static MCP config files.

use vstd::prelude::*;
use vstd::string::*;

use crate::text::{
    concat_three, decimal, decimal_text, is_white, trim_text, trimmed,
    trimming_takes_only_white_space,
};
use crate::transport::state::MountedTool;

verus! {

/// What a config file holds.
#[derive(Debug)]
pub struct McpConfigFile {
    /// The provider id.
    pub provider: String,
    /// The bridge.
    pub bridge: BridgeConfig,
    /// The tools.
    pub tools: Vec<ToolConfig>,
}

/// The bridge of a config file.
#[derive(Debug)]
pub struct BridgeConfig {
    /// The bridge program.
    pub program: String,
    /// Its fixed arguments.
    pub args: Vec<String>,
}

/// A tool of a config file.
#[derive(Debug)]
pub struct ToolConfig {
    /// The tool name.
    pub name: String,
    /// The description.
    pub desc: String,
    /// The schema of its input.
    pub schema: serde_json::Value,
}

/// What a config file mounts.
#[derive(Debug, PartialEq)]
pub struct McpConfigMount {
    /// The provider id.
    pub provider_id: String,
    /// The bridge program.
    pub bridge_program: String,
    /// Its fixed arguments.
    pub bridge_args: Vec<String>,
    /// The tools.
    pub tools: Vec<MountedTool>,
}

/// Whether a text is empty or white space only.
pub open spec fn blank(text: Seq<char>) -> bool {
    trimmed(text).len() == 0
}

/// The complaint about an empty field.
pub open spec fn empty_field(field: Seq<char>) -> Seq<char> {
    "MCP config "@ + field + " must not be empty"@
}

/// The complaint about an empty field of a tool.
pub open spec fn empty_tool_field(at: nat, field: Seq<char>) -> Seq<char> {
    "MCP config tool["@ + decimal(at) + field
}

/// The complaint about the tool at a position, where there is one.
pub open spec fn tool_complaint(tool: ToolConfig, at: nat) -> Option<Seq<char>> {
    if blank(tool.name@) {
        Some(empty_tool_field(at, "].name must not be empty"@))
    } else if blank(tool.desc@) {
        Some(empty_tool_field(at, "].desc must not be empty"@))
    } else {
        None
    }
}

/// The complaint about the first faulty tool, where there is one.
pub open spec fn tools_complaint(tools: Seq<ToolConfig>) -> Option<Seq<char>>
    decreases tools.len(),
{
    if tools.len() == 0 {
        None
    } else {
        match tools_complaint(tools.drop_last()) {
            Some(complaint) => Some(complaint),
            None => tool_complaint(tools.last(), (tools.len() - 1) as nat),
        }
    }
}

/// The complaint about a config file, where there is one: an empty provider, an
/// empty bridge program, no tools, or a faulty tool.
pub open spec fn config_complaint(file: McpConfigFile) -> Option<Seq<char>> {
    if blank(file.provider@) {
        Some(empty_field("provider"@))
    } else if blank(file.bridge.program@) {
        Some(empty_field("bridge.program"@))
    } else if file.tools@.len() == 0 {
        Some("MCP config must define at least one tool"@)
    } else {
        tools_complaint(file.tools@)
    }
}

proof fn lemma_first_complaint(tools: Seq<ToolConfig>, at: int)
    requires
        0 <= at <= tools.len(),
        tools_complaint(tools.take(at)) is Some,
    ensures
        tools_complaint(tools) == tools_complaint(tools.take(at)),
    decreases tools.len() - at,
{
    if at == tools.len() {
        assert(tools.take(at) =~= tools);
    } else {
        assert(tools.take(at + 1).drop_last() =~= tools.take(at));
        lemma_first_complaint(tools, at + 1);
    }
}

/// Whether a text is empty or white space only.
pub fn is_blank(text: &str) -> (r: bool)
    ensures
        r == blank(text@),
{
    let bare = trim_text(text);
    bare.as_str().unicode_len() == 0
}

/// Refuse a field that is empty or white space only.
pub fn reject_empty(field: &str, value: &str) -> (r: Result<(), String>)
    ensures
        match r {
            Ok(_) => !blank(value@),
            Err(complaint) => blank(value@) && complaint@ == empty_field(field@),
        },
{
    if is_blank(value) {
        Err(concat_three("MCP config ", field, " must not be empty"))
    } else {
        Ok(())
    }
}

fn complain_of_tool(at: usize, field: &str) -> (r: String)
    ensures
        r@ == empty_tool_field(at as nat, field@),
{
    let digits = decimal_text(at as u64);
    concat_three("MCP config tool[", digits.as_str(), field)
}

/// Whether a mount is what a config file says.
pub open spec fn mounts(file: McpConfigFile, mount: McpConfigMount) -> bool {
    &&& mount.provider_id == file.provider
    &&& mount.bridge_program == file.bridge.program
    &&& mount.bridge_args == file.bridge.args
    &&& mount.tools@.len() == file.tools@.len()
    &&& forall|i: int|
        0 <= i < file.tools@.len() ==> {
            let tool = #[trigger] mount.tools@[i];
            &&& tool.name == file.tools@[i].name
            &&& tool.desc == file.tools@[i].desc
            &&& tool.schema == file.tools@[i].schema
        }
}

impl McpConfigFile {
    /// What the file mounts, or the first complaint about it.
    pub fn into_mount(self) -> (r: Result<McpConfigMount, String>)
        ensures
            match r {
                Ok(mount) => config_complaint(self) is None && mounts(self, mount),
                Err(complaint) => config_complaint(self) == Some(complaint@),
            },
    {
        match reject_empty("provider", self.provider.as_str()) {
            Ok(_) => {},
            Err(complaint) => return Err(complaint),
        }
        match reject_empty("bridge.program", self.bridge.program.as_str()) {
            Ok(_) => {},
            Err(complaint) => return Err(complaint),
        }
        if self.tools.len() == 0 {
            return Err("MCP config must define at least one tool".to_owned());
        }
        let ghost all = self.tools@;
        let mut rest = self.tools;
        let mut tools: Vec<MountedTool> = Vec::new();
        let count: usize = rest.len();
        let mut i: usize = 0;
        assert(all.take(0) =~= Seq::<ToolConfig>::empty());
        while i < count
            invariant
                i <= count == all.len(),
                all == self.tools@,
                config_complaint(self) == tools_complaint(all),
                rest@ == all.skip(i as int),
                tools_complaint(all.take(i as int)) is None,
                tools@.len() == i,
                forall|k: int|
                    0 <= k < i ==> {
                        let tool = #[trigger] tools@[k];
                        &&& tool.name == all[k].name
                        &&& tool.desc == all[k].desc
                        &&& tool.schema == all[k].schema
                    },
            decreases count - i,
        {
            let tool = rest.remove(0);
            proof {
                assert(tool == all[i as int]);
                assert(rest@ =~= all.skip(i + 1));
                assert(all.take(i + 1).drop_last() =~= all.take(i as int));
                assert(all.take(i + 1).last() == tool);
                if tools_complaint(all.take(i + 1)) is Some {
                    lemma_first_complaint(all, i + 1);
                }
            }
            if is_blank(tool.name.as_str()) {
                return Err(complain_of_tool(i, "].name must not be empty"));
            }
            if is_blank(tool.desc.as_str()) {
                return Err(complain_of_tool(i, "].desc must not be empty"));
            }
            tools.push(MountedTool { name: tool.name, desc: tool.desc, schema: tool.schema });
            i = i + 1;
        }
        assert(all.take(count as int) =~= all);
        Ok(
            McpConfigMount {
                provider_id: self.provider,
                bridge_program: self.bridge.program,
                bridge_args: self.bridge.args,
                tools,
            },
        )
    }
}

/// A config file is mounted exactly where every text that it needs is there: a
/// provider, a bridge program, and at least one tool, each with a name and a
/// description.
pub proof fn complete_files_are_mounted(file: McpConfigFile)
    ensures
        config_complaint(file) is None <==> {
            &&& !blank(file.provider@)
            &&& !blank(file.bridge.program@)
            &&& file.tools@.len() > 0
            &&& forall|i: int|
                0 <= i < file.tools@.len() ==> !blank((#[trigger] file.tools@[i]).name@) && !blank(
                    file.tools@[i].desc@,
                )
        },
{
    first_faulty_tool_is_named(file.tools@);
}

/// Of faulty tools the first one is complained about, by its position, and it
/// lacks what the complaint says.
pub proof fn first_faulty_tool_is_named(tools: Seq<ToolConfig>)
    ensures
        tools_complaint(tools) is None <==> forall|i: int|
            0 <= i < tools.len() ==> !blank((#[trigger] tools[i]).name@) && !blank(tools[i].desc@),
        tools_complaint(tools) matches Some(complaint) ==> exists|at: int|
            {
                &&& 0 <= at < tools.len()
                &&& complaint == empty_tool_field(
                    at as nat,
                    if blank((#[trigger] tools[at]).name@) {
                        "].name must not be empty"@
                    } else {
                        "].desc must not be empty"@
                    },
                )
                &&& blank(tools[at].name@) || blank(tools[at].desc@)
                &&& forall|i: int|
                    0 <= i < at ==> !blank((#[trigger] tools[i]).name@) && !blank(tools[i].desc@)
            },
    decreases tools.len(),
{
    if tools.len() > 0 {
        let head = tools.drop_last();
        let n = head.len() as int;
        first_faulty_tool_is_named(head);
        assert forall|i: int| 0 <= i < n implies head[i] == #[trigger] tools[i] by {}
        assert(tools.last() == tools[n]);
        if tools_complaint(head) is Some {
            let at = choose|at: int|
                {
                    &&& 0 <= at < head.len()
                    &&& tools_complaint(head)->0 == empty_tool_field(
                        at as nat,
                        if blank((#[trigger] head[at]).name@) {
                            "].name must not be empty"@
                        } else {
                            "].desc must not be empty"@
                        },
                    )
                    &&& blank(head[at].name@) || blank(head[at].desc@)
                    &&& forall|i: int|
                        0 <= i < at ==> !blank((#[trigger] head[i]).name@) && !blank(head[i].desc@)
                };
            assert(head[at] == tools[at]);
            assert forall|i: int| 0 <= i < at implies !blank((#[trigger] tools[i]).name@) && !blank(
                tools[i].desc@,
            ) by {
                assert(head[i] == tools[i]);
            }
        } else {
            assert forall|i: int| 0 <= i < n implies !blank((#[trigger] tools[i]).name@) && !blank(
                tools[i].desc@,
            ) by {
                assert(head[i] == tools[i]);
            }
            if tools_complaint(tools) is Some {
                assert(blank(tools[n].name@) || blank(tools[n].desc@));
            }
        }
    }
}

/// White space is blank, and a text with anything else in it is not.
pub proof fn only_white_space_is_blank(text: Seq<char>)
    ensures
        blank(text) <==> forall|i: int| 0 <= i < text.len() ==> is_white(#[trigger] text[i]),
{
    trimming_takes_only_white_space(text);
    let kept = trimmed(text);
    let (before, after) = choose|before: Seq<char>, after: Seq<char>|
        {
            &&& text == #[trigger] (before + trimmed(text) + after)
            &&& forall|i: int| 0 <= i < before.len() ==> is_white(#[trigger] before[i])
            &&& forall|i: int| 0 <= i < after.len() ==> is_white(#[trigger] after[i])
        };
    if kept.len() > 0 {
        assert(text[before.len() as int] == kept[0]);
    } else {
        assert forall|i: int| 0 <= i < text.len() implies is_white(#[trigger] text[i]) by {
            if i < before.len() {
                assert(text[i] == before[i]);
            } else {
                assert(text[i] == after[i - before.len()]);
            }
        }
    }
}

/// A mount holds the file's provider and bridge, and its tools one by one, each
/// with its own name, description and schema.
pub proof fn mounts_hold_what_their_files_say(
    file: McpConfigFile,
    mount: McpConfigMount,
    i: int,
)
    requires
        mounts(file, mount),
    ensures
        mount.provider_id@ == file.provider@,
        mount.bridge_program@ == file.bridge.program@,
        mount.bridge_args@ == file.bridge.args@,
        mount.tools@.len() == file.tools@.len(),
        0 <= i < file.tools@.len() ==> {
            &&& mount.tools@[i].name@ == file.tools@[i].name@
            &&& mount.tools@[i].desc@ == file.tools@[i].desc@
            &&& mount.tools@[i].schema == file.tools@[i].schema
        },
{
}

} // verus!
