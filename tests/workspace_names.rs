use checkpoint_sync::path_utils::normalize_relative_path;
use checkpoint_sync::workspace::{active_state, archived_state, build_directory_name, sanitize_segment};

#[test]
fn builds_directory_name_with_sanitized_segments() {
    let name = build_directory_name("Repo Name", "feature/test", "abcdef123456");
    assert!(name.starts_with("repo-name-feature-test-abcdef12"));
}

#[test]
fn directory_name_is_exact() {
    assert_eq!(
        build_directory_name("My_Repo", "fix: a\\b", "0123456789abcdef"),
        "my-repo-fix--a-b-01234567"
    );
}

#[test]
fn short_workspace_id_is_kept_whole() {
    assert_eq!(build_directory_name("r", "b", "abc"), "r-b-abc");
}

#[test]
fn short_id_respects_character_boundaries() {
    // Three-byte characters: the eighth byte falls inside the third one.
    assert_eq!(build_directory_name("r", "b", "日本語x"), "r-b-日本語x");
    // Two-byte characters: eight bytes are four whole characters.
    assert_eq!(build_directory_name("r", "b", "ééééé"), "r-b-éééé");
}

#[test]
fn sanitize_drops_other_characters_and_falls_back() {
    assert_eq!(sanitize_segment("A.b!c"), "abc");
    assert_eq!(sanitize_segment("***"), "workspace");
    assert_eq!(sanitize_segment(""), "workspace");
}

#[test]
fn workspace_states() {
    assert_eq!(active_state(), "active");
    assert_eq!(archived_state(), "archived");
}

#[test]
fn relative_paths_are_normalized() {
    assert_eq!(normalize_relative_path("a/./b/../c").unwrap(), "a/c");
    assert_eq!(normalize_relative_path("./x//y/").unwrap(), "x/y");
    assert_eq!(normalize_relative_path("").unwrap(), "");
}

#[test]
fn relative_path_errors() {
    assert_eq!(normalize_relative_path("/etc/passwd").unwrap_err(), "Path must be workspace-relative");
    assert_eq!(normalize_relative_path("a/../../b").unwrap_err(), "File is outside workspace");
}
