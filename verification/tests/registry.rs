//! The provider registry: collisions, quality rules and scoped discovery.

use axp::capability::{CapabilitySet, RuntimeCapability};
use axp::error::Error;
use axp::provider::{
    CapabilityDescriptor, CapabilityListing, ExecutionSpec, NativeProvider,
};
use axp::registry::{check_description_quality, ProviderRegistry};

fn make_descriptor(name: &str, desc: &str, sig: &str) -> CapabilityDescriptor {
    CapabilityDescriptor {
        name: name.to_string(),
        desc: desc.to_string(),
        signature: sig.to_string(),
        schema: serde_json::from_str(r#"{"type": "object"}"#).expect("json"),
        execution: ExecutionSpec {
            program: "true".to_owned(),
            args_template: vec![],
        },
    }
}

fn native(id: &str, caps: &[(&str, &str, &str)]) -> NativeProvider {
    let descriptors = caps
        .iter()
        .map(|(n, d, s)| make_descriptor(n, d, s))
        .collect();
    NativeProvider::new(id.to_owned(), descriptors)
        .ok()
        .expect("test descriptors have unique names")
}

fn sorted_names(registry: &ProviderRegistry<NativeProvider>) -> Vec<String> {
    let mut names: Vec<String> = registry
        .index()
        .unwrap()
        .entries
        .into_iter()
        .map(|e| e.name)
        .collect();
    names.sort();
    names
}

#[test]
fn single_provider_index_exposes_bare_names() {
    let mut reg = ProviderRegistry::new();
    reg.register(native(
        "native",
        &[
            (
                "git_diff",
                "Show uncommitted changes as a patch diff",
                "git_diff(): string",
            ),
            (
                "git_log",
                "Show recent commit history for a repository",
                "git_log(): string",
            ),
        ],
    ))
    .unwrap();
    assert_eq!(sorted_names(&reg), vec!["git_diff", "git_log"]);
}

fn git_diff_registry() -> ProviderRegistry<NativeProvider> {
    let mut reg = ProviderRegistry::new();
    reg.register(native(
        "native",
        &[(
            "git_diff",
            "Show uncommitted changes as a patch diff",
            "git_diff(): string",
        )],
    ))
    .unwrap();
    reg
}

#[test]
fn single_provider_describe_bare_name_works() {
    let detail = git_diff_registry().describe("git_diff").unwrap();
    assert_eq!(detail.signature, "git_diff(): string");
}

#[test]
fn single_provider_describe_unknown_returns_capability_not_found() {
    let err = git_diff_registry().describe("nonexistent").unwrap_err();
    assert!(
        matches!(err, Error::CapabilityNotFound { ref name } if name == "nonexistent"),
        "unexpected error: {err:?}"
    );
}

#[test]
fn two_provider_collision_qualifies_both_and_unique_caps_stay_bare() {
    let mut reg = ProviderRegistry::new();
    reg.register(native(
        "a",
        &[
            (
                "search",
                "Search across all indexed documents in provider A",
                "search(q: string): string",
            ),
            (
                "fetch_a",
                "Fetch a resource from provider A endpoint",
                "fetch_a(): string",
            ),
        ],
    ))
    .unwrap();
    reg.register(native(
        "b",
        &[
            (
                "search",
                "Search across all indexed documents in provider B",
                "search(q: string): string",
            ),
            (
                "fetch_b",
                "Fetch a resource from provider B endpoint",
                "fetch_b(): string",
            ),
        ],
    ))
    .unwrap();

    let names = sorted_names(&reg);
    assert!(
        names.contains(&"a:search".to_string()),
        "missing a:search in {names:?}"
    );
    assert!(
        names.contains(&"b:search".to_string()),
        "missing b:search in {names:?}"
    );
    assert!(
        !names.contains(&"search".to_string()),
        "bare 'search' must not appear in {names:?}"
    );
    assert!(
        names.contains(&"fetch_a".to_string()),
        "missing fetch_a in {names:?}"
    );
    assert!(
        names.contains(&"fetch_b".to_string()),
        "missing fetch_b in {names:?}"
    );
}

#[test]
fn two_provider_collision_describe_routes_to_correct_provider() {
    let mut reg = ProviderRegistry::new();
    reg.register(native(
        "a",
        &[(
            "search",
            "Search across all indexed documents in provider A",
            "search_a(): string",
        )],
    ))
    .unwrap();
    reg.register(native(
        "b",
        &[(
            "search",
            "Search across all indexed documents in provider B",
            "search_b(): string",
        )],
    ))
    .unwrap();

    let detail_a = reg.describe("a:search").unwrap();
    assert_eq!(detail_a.signature, "search_a(): string");
    let detail_b = reg.describe("b:search").unwrap();
    assert_eq!(detail_b.signature, "search_b(): string");
}

#[test]
fn three_provider_collision_all_qualified_no_bare() {
    let mut reg = ProviderRegistry::new();
    for id in ["a", "b", "c"] {
        reg.register(native(
            id,
            &[(
                "search",
                "Search across all indexed documents in this provider",
                "search(q: string): string",
            )],
        ))
        .unwrap();
    }

    let names = sorted_names(&reg);
    assert!(
        names.contains(&"a:search".to_string()),
        "missing a:search in {names:?}"
    );
    assert!(
        names.contains(&"b:search".to_string()),
        "missing b:search in {names:?}"
    );
    assert!(
        names.contains(&"c:search".to_string()),
        "missing c:search in {names:?}"
    );
    assert!(
        !names.contains(&"search".to_string()),
        "bare 'search' must not appear with 3 providers in {names:?}"
    );
}

/// A provider whose index gives two listings with the same name.
#[test]
fn within_provider_duplicate_name_returns_duplicate_capability() {
    let mut reg = ProviderRegistry::new();
    let err = reg
        .register_listed(
            native("dup_provider", &[]),
            vec![
                CapabilityListing {
                    name: "dup_cap".to_string(),
                    desc: "First listing of the duplicated capability here".to_string(),
                },
                CapabilityListing {
                    name: "dup_cap".to_string(),
                    desc: "Second listing of the duplicated capability here".to_string(),
                },
            ],
        )
        .unwrap_err();
    assert!(
        matches!(err, Error::DuplicateCapability { ref provider, ref name }
            if provider == "dup_provider" && name == "dup_cap"),
        "unexpected error: {err:?}"
    );
}

#[test]
fn duplicate_provider_id_returns_duplicate_provider() {
    let mut reg = git_diff_registry();
    let err = reg
        .register(native(
            "native",
            &[(
                "git_log",
                "Show recent commit history for a repository",
                "git_log(): string",
            )],
        ))
        .unwrap_err();
    assert!(
        matches!(err, Error::DuplicateProvider { ref id } if id == "native"),
        "unexpected error: {err:?}"
    );
}

fn refusal(desc: &str) -> Error {
    let mut reg = ProviderRegistry::new();
    reg.register(native("p", &[("git_diff", desc, "git_diff(): string")]))
        .unwrap_err()
}

#[test]
fn empty_description_returns_description_quality() {
    let err = refusal("");
    assert!(
        matches!(err, Error::DescriptionQuality { .. }),
        "expected DescriptionQuality, got: {err:?}"
    );
}

#[test]
fn too_short_description_returns_description_quality() {
    let err = refusal("Short");
    assert!(
        matches!(err, Error::DescriptionQuality { .. }),
        "expected DescriptionQuality, got: {err:?}"
    );
}

#[test]
fn too_long_description_returns_description_quality() {
    let err = refusal(&"A".repeat(200));
    assert!(
        matches!(err, Error::DescriptionQuality { .. }),
        "expected DescriptionQuality, got: {err:?}"
    );
}

#[test]
fn description_echoing_name_returns_description_quality() {
    let err = refusal("git diff");
    assert!(
        matches!(err, Error::DescriptionQuality { .. }),
        "expected DescriptionQuality, got: {err:?}"
    );
}

/// Lower-casing is what makes this an echo of the name.
#[test]
fn description_echoing_name_in_upper_case_is_refused() {
    assert!(check_description_quality("p", "list_everything", "LIST EVERYTHING").is_err());
    assert!(check_description_quality("p", "list_everything", "List everything here").is_ok());
}

#[test]
fn multiline_description_returns_description_quality() {
    let err = refusal("Show diff\nwith newline");
    assert!(
        matches!(err, Error::DescriptionQuality { .. }),
        "expected DescriptionQuality, got: {err:?}"
    );
}

/// White space at the ends does not count, but a line break there still does.
#[test]
fn line_break_at_either_end_returns_description_quality() {
    for desc in [
        "Show uncommitted changes\n",
        "\nShow uncommitted changes",
        "Show uncommitted changes\r",
        "\r\nShow uncommitted changes",
    ] {
        assert!(matches!(
            check_description_quality("p", "git_diff", desc),
            Err(Error::DescriptionQuality { .. })
        ));
    }
    assert!(check_description_quality("p", "git_diff", "  Show uncommitted changes\t").is_ok());
}

#[test]
fn description_length_limits_are_inclusive() {
    assert!(check_description_quality("p", "c", &"a".repeat(9)).is_err());
    assert!(check_description_quality("p", "c", &"a".repeat(10)).is_ok());
    assert!(check_description_quality("p", "c", &"a".repeat(120)).is_ok());
    assert!(check_description_quality("p", "c", &"a".repeat(121)).is_err());
}

#[test]
fn rejected_registration_leaves_registry_unchanged() {
    let mut reg = git_diff_registry();
    let result = reg.register(native("bad", &[("tool", "x", "tool(): void")]));
    assert!(result.is_err(), "expected registration to fail");
    assert_eq!(
        sorted_names(&reg),
        vec!["git_diff"],
        "registry was modified by rejected registration"
    );
    let err = reg.describe("tool").unwrap_err();
    assert!(matches!(err, Error::CapabilityNotFound { .. }));
}

#[test]
fn discovery_shows_what_the_grants_allow() {
    let mut reg = git_diff_registry();
    reg.register(native(
        "more",
        &[(
            "git_log",
            "Show recent commit history for a repository",
            "git_log(): string",
        )],
    ))
    .unwrap();
    let one = CapabilitySet::new(vec![RuntimeCapability::Tool("git_log".to_owned())]);
    let names: Vec<String> = reg
        .index_for_capabilities(&one)
        .unwrap()
        .entries
        .into_iter()
        .map(|e| e.name)
        .collect();
    assert_eq!(names, vec!["git_log"]);
    assert!(reg.describe_for_capabilities("git_log", &one).is_ok());
    assert!(matches!(
        reg.describe_for_capabilities("git_diff", &one),
        Err(Error::CapabilityNotFound { .. })
    ));
    let all = CapabilitySet::new(vec![RuntimeCapability::ProcSpawn]);
    assert_eq!(reg.index_for_capabilities(&all).unwrap().entries.len(), 2);
    let none = CapabilitySet::default();
    assert!(reg.index_for_capabilities(&none).unwrap().entries.is_empty());
}
