//! Capability grants: parsing, printing and attenuation.

use axp::capability::{CapabilitySet, RuntimeCapability};
use axp::error::Error;
use axp::proto::capability::Capability;


// ── Parsing round-trip ────────────────────────────────────────────────────

#[test]
fn parse_fs_read() {
    let cap = RuntimeCapability::parse_str("fs.read(/proj)").unwrap();
    assert_eq!(cap, RuntimeCapability::FsRead("/proj".to_owned()));
}

#[test]
fn parse_fs_write() {
    let cap = RuntimeCapability::parse_str("fs.write(/var/data)").unwrap();
    assert_eq!(cap, RuntimeCapability::FsWrite("/var/data".to_owned()));
}

#[test]
fn parse_net_connect() {
    let cap = RuntimeCapability::parse_str("net.connect(example.com)").unwrap();
    assert_eq!(cap, RuntimeCapability::NetConnect("example.com".to_owned()));
}

#[test]
fn parse_proc_spawn() {
    let cap = RuntimeCapability::parse_str("proc.spawn").unwrap();
    assert_eq!(cap, RuntimeCapability::ProcSpawn);
}

#[test]
fn parse_pty_open() {
    let cap = RuntimeCapability::parse_str("pty.open").unwrap();
    assert_eq!(cap, RuntimeCapability::PtyOpen);
}

#[test]
fn parse_tool_with_prefix() {
    let cap = RuntimeCapability::parse_str("tool:git").unwrap();
    assert_eq!(cap, RuntimeCapability::Tool("git".to_owned()));
}

#[test]
fn parse_bare_name_becomes_tool() {
    let cap = RuntimeCapability::parse_str("myeditor").unwrap();
    assert_eq!(cap, RuntimeCapability::Tool("myeditor".to_owned()));
}

#[test]
fn display_fs_read() {
    let cap = RuntimeCapability::FsRead("/proj".to_owned());
    assert_eq!(cap.text(), "fs.read(/proj)");
}

#[test]
fn display_fs_write() {
    let cap = RuntimeCapability::FsWrite("/var".to_owned());
    assert_eq!(cap.text(), "fs.write(/var)");
}

#[test]
fn display_net_connect() {
    let cap = RuntimeCapability::NetConnect("example.com".to_owned());
    assert_eq!(cap.text(), "net.connect(example.com)");
}

#[test]
fn display_proc_spawn() {
    assert_eq!(RuntimeCapability::ProcSpawn.text(), "proc.spawn");
}

#[test]
fn display_pty_open() {
    assert_eq!(RuntimeCapability::PtyOpen.text(), "pty.open");
}

#[test]
fn display_tool() {
    let cap = RuntimeCapability::Tool("git".to_owned());
    assert_eq!(cap.text(), "tool:git");
}

/// Bare-name input canonicalizes to `tool:<name>` so that
/// `parse(display(x)) == x` (canonical idempotence).
#[test]
fn bare_name_canonical_idempotence() {
    let original = RuntimeCapability::parse_str("myeditor").unwrap();
    let wire = original.to_wire();
    let reparsed = RuntimeCapability::parse(&wire).unwrap();
    assert_eq!(original, reparsed);
}

#[test]
fn round_trip_all_variants() {
    let caps = vec![
        RuntimeCapability::FsRead("/proj/src".to_owned()),
        RuntimeCapability::FsWrite("/tmp".to_owned()),
        RuntimeCapability::NetConnect("api.example.com".to_owned()),
        RuntimeCapability::ProcSpawn,
        RuntimeCapability::PtyOpen,
        RuntimeCapability::Tool("cargo".to_owned()),
    ];
    for cap in caps {
        let reparsed = RuntimeCapability::parse(&cap.to_wire()).unwrap();
        assert_eq!(cap, reparsed, "round-trip failed for {cap:?}");
    }
}

// ── Parse errors ─────────────────────────────────────────────────────────

#[test]
fn parse_err_relative_path() {
    assert!(
        RuntimeCapability::parse_str("fs.read(relative/path)").is_err(),
        "relative path must be rejected"
    );
}

#[test]
fn parse_err_dotdot_path() {
    assert!(
        RuntimeCapability::parse_str("fs.read(/a/../b)").is_err(),
        "`..` components must be rejected"
    );
}

/// Malformed verb prefix (missing closing paren) must NOT fall through to
/// the bare-name `Tool` branch — it must be an error.
#[test]
fn parse_err_malformed_fs_read_not_tool() {
    let input = "fs.read(/proj";
    let result = RuntimeCapability::parse_str(input);
    assert!(
        result.is_err(),
        "malformed fs.read (missing `)`) must be Err, not Tool"
    );
    match result {
        Err(Error::CapabilityParse { raw, .. }) => {
            // The raw field must echo back the input string verbatim.
            assert_eq!(raw, input);
        }
        other => panic!("expected CapabilityParse error for malformed fs.read, got {other:?}"),
    }
}

#[test]
fn parse_err_net_connect_url_scheme() {
    assert!(
        RuntimeCapability::parse_str("net.connect(http://x)").is_err(),
        "URL with scheme must be rejected"
    );
}

#[test]
fn parse_err_net_connect_port_notation() {
    assert!(
        RuntimeCapability::parse_str("net.connect(host:443)").is_err(),
        "port notation must be rejected"
    );
}

#[test]
fn parse_err_net_connect_empty_domain() {
    assert!(
        RuntimeCapability::parse_str("net.connect()").is_err(),
        "empty domain must be rejected"
    );
}

#[test]
fn parse_err_tool_empty_name() {
    assert!(
        RuntimeCapability::parse_str("tool:").is_err(),
        "empty tool name must be rejected"
    );
}

#[test]
fn parse_err_empty_string() {
    assert!(
        RuntimeCapability::parse_str("").is_err(),
        "empty string must be rejected"
    );
}

#[test]
fn parse_err_whitespace_only() {
    assert!(
        RuntimeCapability::parse_str("  ").is_err(),
        "whitespace-only string must be rejected"
    );
}

// ── Attenuation — path containment ───────────────────────────────────────

#[test]
fn fs_read_permits_subdirectory() {
    let parent = RuntimeCapability::FsRead("/proj".to_owned());
    let child = RuntimeCapability::FsRead("/proj/sub".to_owned());
    assert!(parent.permits(&child));
}

#[test]
fn fs_read_permits_equal_path() {
    let cap = RuntimeCapability::FsRead("/proj".to_owned());
    assert!(cap.permits(&cap));
}

#[test]
fn fs_read_does_not_permit_broader_path() {
    let parent = RuntimeCapability::FsRead("/proj".to_owned());
    let child = RuntimeCapability::FsRead("/".to_owned());
    assert!(
        !parent.permits(&child),
        "child broader than parent must be denied"
    );
}

/// Critical prefix-string trap: `/proj-extra` must NOT be contained in `/proj`.
#[test]
fn fs_read_does_not_permit_sibling_with_shared_string_prefix() {
    let parent = RuntimeCapability::FsRead("/proj".to_owned());
    let trap = RuntimeCapability::FsRead("/proj-extra".to_owned());
    assert!(
        !parent.permits(&trap),
        "/proj-extra must NOT be permitted by /proj (prefix-string trap)"
    );
}

/// Verbs are orthogonal: an `fs.write` grant must NOT permit an `fs.read`.
#[test]
fn fs_write_does_not_permit_fs_read() {
    let write_grant = RuntimeCapability::FsWrite("/proj".to_owned());
    let read_request = RuntimeCapability::FsRead("/proj/sub".to_owned());
    assert!(
        !write_grant.permits(&read_request),
        "write grant must not permit read (verbs are orthogonal)"
    );
}

/// Verbs are orthogonal: an `fs.read` grant must NOT permit an `fs.write`.
#[test]
fn fs_read_does_not_permit_fs_write() {
    let read_grant = RuntimeCapability::FsRead("/proj".to_owned());
    let write_request = RuntimeCapability::FsWrite("/proj/sub".to_owned());
    assert!(
        !read_grant.permits(&write_request),
        "read grant must not permit write (verbs are orthogonal)"
    );
}

// ── Attenuation — domain sub-domain matching ──────────────────────────────

#[test]
fn net_connect_permits_subdomain() {
    let parent = RuntimeCapability::NetConnect("example.com".to_owned());
    let child = RuntimeCapability::NetConnect("api.example.com".to_owned());
    assert!(parent.permits(&child));
}

#[test]
fn net_connect_permits_equal_domain() {
    let cap = RuntimeCapability::NetConnect("example.com".to_owned());
    assert!(cap.permits(&cap));
}

/// Critical suffix trap: `evil-example.com` must NOT match `example.com`.
#[test]
fn net_connect_does_not_permit_suffix_trap() {
    let parent = RuntimeCapability::NetConnect("example.com".to_owned());
    let trap = RuntimeCapability::NetConnect("evil-example.com".to_owned());
    assert!(
        !parent.permits(&trap),
        "evil-example.com must NOT be permitted by example.com (suffix trap)"
    );
}

#[test]
fn net_connect_does_not_permit_tld_only() {
    let parent = RuntimeCapability::NetConnect("example.com".to_owned());
    let tld = RuntimeCapability::NetConnect("com".to_owned());
    assert!(
        !parent.permits(&tld),
        "bare TLD must not be permitted by example.com"
    );
}

// ── Attenuation — other verbs ─────────────────────────────────────────────

#[test]
fn proc_spawn_permits_proc_spawn() {
    assert!(RuntimeCapability::ProcSpawn.permits(&RuntimeCapability::ProcSpawn));
}

#[test]
fn proc_spawn_does_not_permit_pty_open() {
    assert!(
        !RuntimeCapability::ProcSpawn.permits(&RuntimeCapability::PtyOpen),
        "ProcSpawn must not permit PtyOpen"
    );
}

#[test]
fn pty_open_permits_pty_open() {
    assert!(RuntimeCapability::PtyOpen.permits(&RuntimeCapability::PtyOpen));
}

#[test]
fn tool_git_permits_tool_git() {
    let cap = RuntimeCapability::Tool("git".to_owned());
    assert!(cap.permits(&cap));
}

#[test]
fn tool_git_does_not_permit_tool_gitx() {
    let parent = RuntimeCapability::Tool("git".to_owned());
    let other = RuntimeCapability::Tool("gitx".to_owned());
    assert!(
        !parent.permits(&other),
        "Tool(\"git\") must not permit Tool(\"gitx\")"
    );
}

// ── CapabilitySet ─────────────────────────────────────────────────────────

#[test]
fn capability_set_permits_via_any_grant() {
    let set = CapabilitySet::new(vec![
        RuntimeCapability::FsRead("/proj".to_owned()),
        RuntimeCapability::ProcSpawn,
    ]);

    // Permitted by FsRead grant
    assert!(set.permits(&RuntimeCapability::FsRead("/proj/a".to_owned())));
    // Permitted by ProcSpawn grant
    assert!(set.permits(&RuntimeCapability::ProcSpawn));
    // Not permitted by either grant
    assert!(
        !set.permits(&RuntimeCapability::FsWrite("/proj".to_owned())),
        "FsWrite not in set"
    );
}

#[test]
fn capability_set_from_wire_parses_all() {
    let wire = vec![
        Capability("fs.read(/proj)".to_owned()),
        Capability("proc.spawn".to_owned()),
    ];
    let set = CapabilitySet::from_wire(&wire).unwrap();
    assert_eq!(set.grants().len(), 2);
}

#[test]
fn capability_set_from_wire_errors_on_malformed() {
    let wire = vec![
        Capability("fs.read(/proj)".to_owned()),
        Capability("".to_owned()), // malformed
    ];
    assert!(
        CapabilitySet::from_wire(&wire).is_err(),
        "malformed entry must cause from_wire to fail"
    );
}

#[test]
fn capability_set_empty_denies_all() {
    let set = CapabilitySet::default();
    assert!(!set.permits(&RuntimeCapability::ProcSpawn));
    assert!(!set.permits(&RuntimeCapability::FsRead("/".to_owned())));
}

// ── Laws on concrete values ──────────────────────────────────────────────

#[test]
fn narrowing_twice_is_narrowing() {
    let wide = RuntimeCapability::FsRead("/proj".to_owned());
    let middle = RuntimeCapability::FsRead("/proj/a".to_owned());
    let narrow = RuntimeCapability::FsRead("/proj/a/b".to_owned());
    assert!(wide.permits(&middle));
    assert!(middle.permits(&narrow));
    assert!(wide.permits(&narrow));
}

#[test]
fn every_grant_permits_itself() {
    for text in [
        "fs.read(/a)",
        "fs.write(/a/b)",
        "net.connect(example.com)",
        "proc.spawn",
        "pty.open",
        "tool:git",
    ] {
        let cap = RuntimeCapability::parse_str(text).unwrap();
        assert!(cap.permits(&cap), "{text}");
        assert_eq!(cap.text(), text);
    }
}

#[test]
fn first_malformed_grant_is_the_failure() {
    let wire = vec![
        Capability("fs.read(rel)".to_owned()),
        Capability("".to_owned()),
    ];
    match CapabilitySet::from_wire(&wire) {
        Err(Error::CapabilityParse { raw, .. }) => assert_eq!(raw, "fs.read(rel)"),
        other => panic!("expected CapabilityParse, got {other:?}"),
    }
}

fn reason(text: &str) -> String {
    match RuntimeCapability::parse_str(text) {
        Err(Error::CapabilityParse { raw, reason }) => {
            assert_eq!(raw, text);
            reason
        }
        other => panic!("expected CapabilityParse for {text}, got {other:?}"),
    }
}

#[test]
fn each_malformed_grant_says_why() {
    assert_eq!(reason("fs.write(/a"), "expected closing `)` for fs.write(...)");
    assert_eq!(reason("fs.read(a)"), "path must be absolute (start with `/`)");
    assert_eq!(reason("fs.read(/..)"), "path must not contain `..` components");
    assert_eq!(reason("net.connect()"), "domain must not be empty");
    assert_eq!(reason("tool:"), "tool name must not be empty after `tool:`");
    assert_eq!(reason(""), "empty capability string");
    assert_eq!(reason("a b"), "bare tool name must not contain whitespace");
}

#[test]
fn verb_without_parenthesis_is_a_bare_name() {
    assert_eq!(
        RuntimeCapability::parse_str("fs.read").unwrap(),
        RuntimeCapability::Tool("fs.read".to_owned())
    );
}

fn hash_of(cap: &RuntimeCapability) -> u64 {
    let mut hasher = std::collections::hash_map::DefaultHasher::new();
    std::hash::Hash::hash(cap, &mut hasher);
    std::hash::Hasher::finish(&hasher)
}

/// Paths are compared, and hashed, by their components.
#[test]
fn capabilities_compare_paths_by_components() {
    let plain = RuntimeCapability::FsRead("/ws/src".to_owned());
    for text in ["/ws/src/", "/ws//src", "/ws/./src", "//ws/src"] {
        let same = RuntimeCapability::FsRead(text.to_owned());
        assert_eq!(plain, same);
        assert_eq!(hash_of(&plain), hash_of(&same));
    }
    for other in [
        RuntimeCapability::FsRead("/ws".to_owned()),
        RuntimeCapability::FsRead("ws/src".to_owned()),
        RuntimeCapability::FsRead("/ws/src/..".to_owned()),
        RuntimeCapability::FsWrite("/ws/src".to_owned()),
        RuntimeCapability::Tool("/ws/src".to_owned()),
    ] {
        assert_ne!(plain, other);
        assert_ne!(hash_of(&plain), hash_of(&other));
    }
    assert_ne!(
        RuntimeCapability::NetConnect("a.b/".to_owned()),
        RuntimeCapability::NetConnect("a.b".to_owned())
    );
    assert_eq!(RuntimeCapability::ProcSpawn, RuntimeCapability::ProcSpawn);
    assert_ne!(RuntimeCapability::ProcSpawn, RuntimeCapability::PtyOpen);
}

/// Capabilities that are the same permit, and are permitted by, the same.
#[test]
fn same_capabilities_permit_the_same() {
    let plain = RuntimeCapability::FsRead("/ws".to_owned());
    let slashed = RuntimeCapability::FsRead("/ws/".to_owned());
    assert_eq!(plain, slashed);
    for path in ["/", "/ws", "/ws/src", "/wsx"] {
        let other = RuntimeCapability::FsRead(path.to_owned());
        assert_eq!(plain.permits(&other), slashed.permits(&other));
        assert_eq!(other.permits(&plain), other.permits(&slashed));
    }
}
