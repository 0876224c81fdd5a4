//! Which tools a server mounts, as its flags say.

use vstd::prelude::*;
use vstd::string::*;

verus! {

/// The mount flags of a server.
#[derive(Debug)]
pub struct MountFlags {
    /// Static provider id.
    pub mcp_provider: Option<String>,
    /// Static tool name.
    pub mcp_tool: Option<String>,
    /// Static tool description.
    pub mcp_desc: Option<String>,
    /// Bridge program of the static tool.
    pub mcp_bridge: Option<String>,
    /// Path of a config file.
    pub mcp_config: Option<String>,
}

/// A static tool.
#[derive(Debug, PartialEq, Eq)]
pub struct ServeMcpTool {
    /// The provider id.
    pub provider_id: String,
    /// The tool name.
    pub tool_name: String,
    /// The description.
    pub desc: String,
    /// The bridge program.
    pub bridge_program: String,
}

/// Where the mounted tools come from.
#[derive(Debug, PartialEq, Eq)]
pub enum MountSource {
    /// The static tool of the flags.
    Tool(ServeMcpTool),
    /// The config file at a path.
    Config(String),
}

/// Whether one of the static tool flags is given.
pub open spec fn some_static(flags: MountFlags) -> bool {
    flags.mcp_provider is Some || flags.mcp_tool is Some || flags.mcp_desc is Some
        || flags.mcp_bridge is Some
}

/// Whether all of the static tool flags are given.
pub open spec fn all_static(flags: MountFlags) -> bool {
    flags.mcp_provider is Some && flags.mcp_tool is Some && flags.mcp_desc is Some
        && flags.mcp_bridge is Some
}

/// Whether choosing what to mount gave this: a config file or all four static
/// flags, not both, or nothing.
pub open spec fn mount_chosen(flags: MountFlags, r: Result<Option<MountSource>, String>) -> bool {
    if flags.mcp_config is Some && some_static(flags) {
        r matches Err(complaint) && complaint@
            == "--mcp-config cannot be combined with --mcp-provider, --mcp-tool, --mcp-desc, or --mcp-bridge"@
    } else if flags.mcp_config is Some {
        r == Ok::<Option<MountSource>, String>(Some(MountSource::Config(flags.mcp_config->0)))
    } else if all_static(flags) {
        r == Ok::<Option<MountSource>, String>(
            Some(
                MountSource::Tool(
                    ServeMcpTool {
                        provider_id: flags.mcp_provider->0,
                        tool_name: flags.mcp_tool->0,
                        desc: flags.mcp_desc->0,
                        bridge_program: flags.mcp_bridge->0,
                    },
                ),
            ),
        )
    } else if some_static(flags) {
        r matches Err(complaint) && complaint@
            == "--mcp-provider, --mcp-tool, --mcp-desc, and --mcp-bridge must be supplied together"@
    } else {
        r == Ok::<Option<MountSource>, String>(None)
    }
}

/// Which tools are mounted: a config file or all four static flags, not both,
/// or nothing.
pub fn mcp_mount(flags: MountFlags) -> (r: Result<Option<MountSource>, String>)
    ensures
        mount_chosen(flags, r),
{
    let has_static_flag = flags.mcp_provider.is_some() || flags.mcp_tool.is_some()
        || flags.mcp_desc.is_some() || flags.mcp_bridge.is_some();
    if flags.mcp_config.is_some() && has_static_flag {
        return Err(
            "--mcp-config cannot be combined with --mcp-provider, --mcp-tool, --mcp-desc, or --mcp-bridge".to_owned(),
        );
    }
    if let Some(path) = flags.mcp_config {
        return Ok(Some(MountSource::Config(path)));
    }
    match (flags.mcp_provider, flags.mcp_tool, flags.mcp_desc, flags.mcp_bridge) {
        (None, None, None, None) => Ok(None),
        (Some(provider_id), Some(tool_name), Some(desc), Some(bridge_program)) => Ok(
            Some(
                MountSource::Tool(ServeMcpTool { provider_id, tool_name, desc, bridge_program }),
            ),
        ),
        _ => Err(
            "--mcp-provider, --mcp-tool, --mcp-desc, and --mcp-bridge must be supplied together".to_owned(),
        ),
    }
}

/// What is mounted is what the flags say: each text of the tool is that of its
/// own flag, and the path is that of the config flag. No flags mount nothing, and
/// only some of the static flags, or any beside a config file, are refused.
pub proof fn flags_say_what_is_mounted(
    flags: MountFlags,
    r: Result<Option<MountSource>, String>,
)
    requires
        mount_chosen(flags, r),
    ensures
        r matches Ok(Some(MountSource::Tool(tool))) ==> {
            &&& flags.mcp_config is None
            &&& flags.mcp_provider == Some(tool.provider_id)
            &&& flags.mcp_tool == Some(tool.tool_name)
            &&& flags.mcp_desc == Some(tool.desc)
            &&& flags.mcp_bridge == Some(tool.bridge_program)
        },
        r matches Ok(Some(MountSource::Config(path))) ==> {
            &&& flags.mcp_config == Some(path)
            &&& flags.mcp_provider is None
            &&& flags.mcp_tool is None
            &&& flags.mcp_desc is None
            &&& flags.mcp_bridge is None
        },
        r matches Ok(None) <==> {
            &&& flags.mcp_config is None
            &&& flags.mcp_provider is None
            &&& flags.mcp_tool is None
            &&& flags.mcp_desc is None
            &&& flags.mcp_bridge is None
        },
        r is Err <==> {
            let given = (if flags.mcp_provider is Some { 1int } else { 0 }) + (
            if flags.mcp_tool is Some { 1int } else { 0 }) + (if flags.mcp_desc is Some {
                1int
            } else {
                0
            }) + (if flags.mcp_bridge is Some { 1int } else { 0 });
            given > 0 && (flags.mcp_config is Some || given < 4)
        },
{
}

} // verus!
