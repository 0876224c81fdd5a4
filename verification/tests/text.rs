//! Texts, paths, numbers and times.

use axp::path::{components, has_parent_component, is_within, starts_at_root};
use axp::text::{
    contains_text, decimal_text, is_white_char, parse_number, signed_decimal_text, split_text,
    trim_end_text, trim_text,
};
use axp::time::Timestamp;

#[test]
fn white_space_is_what_the_standard_library_says() {
    for code in 0..=0x10ffffu32 {
        if let Some(c) = char::from_u32(code) {
            assert_eq!(is_white_char(c), c.is_whitespace(), "{code:x}");
        }
    }
}

#[test]
fn trimming_is_what_the_standard_library_does() {
    for text in ["", " ", "a", " a ", "\t\u{a0}x y\u{2028}", "\u{3000}", "x\n\n"] {
        assert_eq!(trim_text(text), text.trim());
        assert_eq!(trim_end_text(text), text.trim_end());
    }
}

#[test]
fn numbers_are_written_and_read_back() {
    for n in [0u64, 9, 10, 99, 1_000, u64::MAX] {
        assert_eq!(decimal_text(n), n.to_string());
        assert_eq!(parse_number(&decimal_text(n)), Some(n));
    }
    for n in [0i64, -1, i64::MIN, i64::MAX] {
        assert_eq!(signed_decimal_text(n), n.to_string());
    }
}

#[test]
fn splitting_and_searching_follow_the_standard_library() {
    for text in ["", "/", "a/b", "/a//b/", "é/ü"] {
        let expected: Vec<String> = text.split('/').map(str::to_owned).collect();
        assert_eq!(split_text(text, '/'), expected);
        for part in ["", "a", "/b", "ü", "zz"] {
            assert_eq!(contains_text(text, part), text.contains(part), "{text} {part}");
        }
    }
}

#[test]
fn paths_are_compared_by_components_as_the_standard_library_does() {
    let paths = ["/", "/a", "/a/", "/a/b", "/a//b", "/a/./b", "/ab", "a", "a/b", "/a/../b", ""];
    for path in paths {
        for base in paths {
            assert_eq!(
                is_within(path, base),
                std::path::Path::new(path).starts_with(base),
                "{path:?} in {base:?}"
            );
        }
        assert_eq!(
            starts_at_root(path),
            std::path::Path::new(path).is_absolute(),
            "{path:?}"
        );
        let climbs = std::path::Path::new(path)
            .components()
            .any(|c| c == std::path::Component::ParentDir);
        assert_eq!(has_parent_component(path), climbs, "{path:?}");
    }
    assert_eq!(components("/a//b/."), vec!["/", "a", "b"]);
}

#[test]
fn instants_split_toward_the_past() {
    assert_eq!(Timestamp::after_epoch(42, 7).split(), (42, 7));
    assert_eq!(Timestamp::before_epoch(2, 250).split(), (-3, 999_999_750));
    assert_eq!(Timestamp::before_epoch(1, 0).split(), (-1, 0));
    assert_eq!(Timestamp::after_epoch(3, 4_999_999).millis_since_epoch(), 3_004);
    assert_eq!(Timestamp::before_epoch(3, 0).millis_since_epoch(), 0);
}

#[test]
fn protocol_version_is_non_empty() {
    assert!(!axp::proto::version::PROTOCOL_VERSION.is_empty());
}
