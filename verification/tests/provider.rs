//! Providers: in-memory, static tools, and the built-in capabilities.

use axp::builtins::builtin_registry;
use axp::catalog_provider::CatalogProvider;
use axp::error::Error;
use axp::mcp::{McpBridgeCommand, McpToolDescriptor, McpToolProvider};
use axp::provider::{
    CapabilityArg, CapabilityDescriptor, ExecutionSpec, NativeProvider, Provider, ResolvedCommand,
};
use axp::registry::ProviderRegistry;

fn json(text: &str) -> serde_json::Value {
    serde_json::from_str(text).expect("json")
}

fn make_provider(id: &str, caps: &[(&str, &str, &str)]) -> NativeProvider {
    let descriptors = caps
        .iter()
        .map(|(name, desc, sig)| CapabilityDescriptor {
            name: name.to_string(),
            desc: desc.to_string(),
            signature: sig.to_string(),
            schema: json(r#"{"type": "object", "properties": {}}"#),
            execution: ExecutionSpec {
                program: "true".into(),
                args_template: vec![],
            },
        })
        .collect();
    NativeProvider::new(id.to_owned(), descriptors)
        .ok()
        .expect("test descriptors have unique names")
}

#[test]
fn index_lists_all_capabilities() {
    let provider = make_provider(
        "native",
        &[
            (
                "git_diff",
                "Show uncommitted changes as a patch",
                "git_diff(): string",
            ),
            (
                "git_log",
                "Show recent commit history for a repo",
                "git_log(): string",
            ),
        ],
    );

    let mut listings = provider.index().unwrap();
    listings.sort_by(|a, b| a.name.cmp(&b.name));

    assert_eq!(listings.len(), 2);
    assert_eq!(listings[0].name, "git_diff");
    assert_eq!(listings[0].desc, "Show uncommitted changes as a patch");
    assert_eq!(listings[1].name, "git_log");
    assert_eq!(listings[1].desc, "Show recent commit history for a repo");
}

#[test]
fn index_does_not_include_signature_or_schema() {
    let provider = make_provider(
        "native",
        &[(
            "git_diff",
            "Show uncommitted changes as a patch",
            "git_diff(): string",
        )],
    );
    let listings = provider.index().unwrap();
    assert_eq!(listings.len(), 1);
    assert_eq!(listings[0].name, "git_diff");
}

#[test]
fn describe_known_capability_returns_correct_detail() {
    let schema = r#"{"type": "object", "properties": {"path": {"type": "string"}}}"#;
    let provider = NativeProvider::new(
        "native".to_owned(),
        vec![CapabilityDescriptor {
            name: "git_diff".to_string(),
            desc: "Show uncommitted changes as a patch".to_string(),
            signature: "git_diff(): string".to_string(),
            schema: json(schema),
            execution: ExecutionSpec {
                program: "git".into(),
                args_template: vec![CapabilityArg::Literal("diff".into())],
            },
        }],
    )
    .ok()
    .expect("unique descriptor");

    let detail = provider.describe("git_diff").unwrap();
    assert_eq!(detail.signature, "git_diff(): string");
    assert_eq!(detail.schema, json(schema));
}

#[test]
fn describe_unknown_capability_returns_capability_not_found() {
    let provider = make_provider(
        "native",
        &[(
            "git_diff",
            "Show uncommitted changes as a patch",
            "git_diff(): string",
        )],
    );

    let err = provider.describe("nonexistent").unwrap_err();
    assert!(
        matches!(err, Error::CapabilityNotFound { ref name } if name == "nonexistent"),
        "unexpected error: {err:?}"
    );
}

#[test]
fn provider_id_is_correct() {
    let provider = make_provider("my_provider", &[]);
    assert_eq!(provider.id(), "my_provider");
}

fn git_diff_provider() -> NativeProvider {
    NativeProvider::new(
        "native".to_owned(),
        vec![CapabilityDescriptor {
            name: "git_diff".to_string(),
            desc: "Show uncommitted changes as a patch".to_string(),
            signature: "git_diff(): string".to_string(),
            schema: json(r#"{"type": "object", "properties": {}}"#),
            execution: ExecutionSpec {
                program: "git".into(),
                args_template: vec![CapabilityArg::Literal("diff".into())],
            },
        }],
    )
    .ok()
    .expect("unique descriptor")
}

fn path_cat_provider() -> NativeProvider {
    NativeProvider::new(
        "native".to_owned(),
        vec![CapabilityDescriptor {
            name: "cat_file".to_string(),
            desc: "Print the contents of the named file".to_string(),
            signature: "cat_file(path: string): string".to_string(),
            schema: json(r#"{"type":"object","properties":{"path":{"type":"string"}},"additionalProperties":false}"#),
            execution: ExecutionSpec {
                program: "cat".into(),
                args_template: vec![CapabilityArg::Param("path".into())],
            },
        }],
    )
    .ok()
    .expect("unique descriptor")
}

#[test]
fn resolve_literal_only_returns_correct_program_and_args() {
    let provider = git_diff_provider();
    let cmd = provider
        .resolve("git_diff", &json("{}"))
        .expect("resolve must succeed");
    assert_eq!(cmd.program, "git");
    assert_eq!(cmd.args, vec!["diff"]);
}

#[test]
fn resolve_param_binding_substitutes_string_field() {
    let provider = path_cat_provider();
    let cmd = provider
        .resolve("cat_file", &json(r#"{"path": "/tmp/foo.txt"}"#))
        .expect("resolve must succeed");
    assert_eq!(cmd.program, "cat");
    assert_eq!(cmd.args, vec!["/tmp/foo.txt"]);
}

#[test]
fn resolve_missing_param_returns_capability_parse() {
    let provider = path_cat_provider();
    let err = provider.resolve("cat_file", &json("{}")).unwrap_err();
    assert!(
        matches!(err, Error::CapabilityParse { ref raw, .. } if raw == "path"),
        "expected CapabilityParse for missing param, got: {err:?}"
    );
}

#[test]
fn resolve_non_string_param_returns_capability_parse() {
    let provider = path_cat_provider();
    let err = provider
        .resolve("cat_file", &json(r#"{"path": 42}"#))
        .unwrap_err();
    assert!(
        matches!(err, Error::CapabilityParse { ref raw, .. } if raw == "path"),
        "expected CapabilityParse for non-string param, got: {err:?}"
    );
}

#[test]
fn resolve_unknown_local_name_returns_capability_not_found() {
    let provider = git_diff_provider();
    let err = provider.resolve("nonexistent", &json("{}")).unwrap_err();
    assert!(
        matches!(err, Error::CapabilityNotFound { ref name } if name == "nonexistent"),
        "expected CapabilityNotFound, got: {err:?}"
    );
}

// ── static tools ─────────────────────────────────────────────────────────

const TOOL_SCHEMA: &str = r#"{
    "type": "object",
    "properties": { "query": {"type": "string"} },
    "required": ["query"],
    "additionalProperties": false
}"#;

fn tool(name: &str, desc: &str) -> McpToolDescriptor {
    McpToolDescriptor {
        provider_id: "mcp_docs".to_owned(),
        name: name.to_owned(),
        desc: desc.to_owned(),
        schema: json(TOOL_SCHEMA),
        bridge: McpBridgeCommand {
            program: "/usr/local/bin/axp-mcp-bridge".to_owned(),
            args: vec!["call".to_owned()],
        },
    }
}

fn tool_provider() -> McpToolProvider {
    McpToolProvider::new(
        "mcp_docs".to_owned(),
        vec![tool(
            "search",
            "Search the configured MCP documentation index",
        )],
    )
    .ok()
    .expect("test descriptors have unique names")
}

#[test]
fn index_lists_only_names_and_descriptions() {
    let listings = tool_provider().index().expect("index must succeed");
    assert_eq!(listings.len(), 1);
    assert_eq!(listings[0].name, "search");
    assert_eq!(
        listings[0].desc,
        "Search the configured MCP documentation index"
    );
}

#[test]
fn describe_returns_signature_and_schema() {
    let detail = tool_provider()
        .describe("search")
        .expect("describe must succeed");
    assert_eq!(detail.signature, "search(input: object): string");
    assert_eq!(detail.schema, json(TOOL_SCHEMA));
}

#[test]
fn resolve_binds_provider_tool_and_serialized_params_as_argv() {
    let cmd = tool_provider()
        .resolve(
            "search",
            &json(r#"{"query": "rust && rm -rf /", "limit": 3}"#),
        )
        .expect("resolve must succeed");
    assert_eq!(cmd.program, "/usr/local/bin/axp-mcp-bridge");
    assert_eq!(
        cmd.args,
        vec![
            "call",
            "--provider",
            "mcp_docs",
            "--tool",
            "search",
            "--params",
            r#"{"limit":3,"query":"rust && rm -rf /"}"#
        ]
    );
}

#[test]
fn duplicate_tool_name_returns_duplicate_capability() {
    let err = McpToolProvider::new(
        "mcp_docs".to_owned(),
        vec![
            tool("search", "Search the configured MCP documentation index"),
            tool(
                "search",
                "Search another configured MCP documentation index",
            ),
        ],
    )
    .err()
    .expect("duplicate");
    assert!(
        matches!(err, Error::DuplicateCapability { ref provider, ref name }
            if provider == "mcp_docs" && name == "search"),
        "unexpected error: {err:?}"
    );
}

#[test]
fn tool_of_another_provider_is_refused() {
    let err = McpToolProvider::new(
        "other".to_owned(),
        vec![tool("search", "Search the configured MCP documentation index")],
    )
    .err()
    .expect("foreign tool");
    assert!(
        matches!(err, Error::CapabilityParse { ref raw, ref reason }
            if raw == "mcp_docs" && reason == "MCP tool provider id must match `other`"),
        "unexpected error: {err:?}"
    );
}

#[test]
fn unknown_tool_returns_capability_not_found() {
    let err = tool_provider().describe("fetch").unwrap_err();
    assert!(
        matches!(err, Error::CapabilityNotFound { ref name } if name == "fetch"),
        "unexpected error: {err:?}"
    );
}

#[test]
fn registry_collision_with_native_provider_qualifies_both_names() {
    let native = NativeProvider::new(
        "native".to_owned(),
        vec![CapabilityDescriptor {
            name: "search".to_owned(),
            desc: "Search local native project documentation".to_owned(),
            signature: "search(input: object): string".to_owned(),
            schema: json(r#"{"type": "object"}"#),
            execution: ExecutionSpec {
                program: "true".to_owned(),
                args_template: vec![CapabilityArg::Literal("search".to_owned())],
            },
        }],
    )
    .ok()
    .expect("native descriptor is unique");

    let mut registry = ProviderRegistry::new();
    registry.register(CatalogProvider::Native(native)).unwrap();
    registry
        .register(CatalogProvider::Mcp(tool_provider()))
        .unwrap();

    let mut names: Vec<String> = registry
        .index()
        .unwrap()
        .entries
        .into_iter()
        .map(|entry| entry.name)
        .collect();
    names.sort();
    assert_eq!(names, vec!["mcp_docs:search", "native:search"]);
}

// ── built-in capabilities ────────────────────────────────────────────────

fn builtins() -> ProviderRegistry<CatalogProvider> {
    builtin_registry()
}

#[test]
fn builtin_registry_index_contains_both_capabilities() {
    let resp = builtins().index().unwrap();
    let mut names: Vec<&str> = resp.entries.iter().map(|e| e.name.as_str()).collect();
    names.sort();
    assert!(
        names.contains(&"git_diff"),
        "expected git_diff in index: {names:?}"
    );
    assert!(
        names.contains(&"git_log"),
        "expected git_log in index: {names:?}"
    );
}

#[test]
fn builtin_registry_describe_git_diff_returns_correct_signature() {
    let detail = builtins().describe("git_diff").unwrap();
    assert_eq!(detail.signature, "git_diff(): string");
    assert_eq!(
        detail.schema,
        json(r#"{"type":"object","properties":{},"additionalProperties":false}"#)
    );
}

#[test]
fn builtin_registry_describe_nonexistent_returns_capability_not_found() {
    let err = builtins().describe("nonexistent").unwrap_err();
    assert!(
        matches!(err, Error::CapabilityNotFound { ref name } if name == "nonexistent"),
        "unexpected error: {err:?}"
    );
}

#[test]
fn builtin_capabilities_resolve_to_git() {
    let cmd = builtins().resolve("git_log", &json("{}")).unwrap();
    assert_eq!(cmd.program, "git");
    assert_eq!(cmd.args, vec!["log", "--oneline"]);
}

#[test]
fn cloned_command_is_the_same() {
    let command = ResolvedCommand {
        program: "git".to_owned(),
        args: vec!["log".to_owned(), "--oneline".to_owned()],
    };
    assert_eq!(command.clone(), command);
}
