use forks_core::diffmod::compute_unified_diff;
use forks_core::gitops::{default_branch_from, worktree_name_from_path};
use forks_core::netinfo::{
    ensure_forksd_decision, forksd_base_url, forksd_bind, forksd_port, parse_u16, HealthAction,
};
use forks_core::strutil::{contains_substr, ends_with, starts_with, str_eq, u64_to_string};
use forks_core::tokens::{generate_token, get_or_create_token, rotate_token, token_from_stored};

#[test]
fn decimal_rendering_is_exact() {
    assert_eq!(u64_to_string(0), "0");
    assert_eq!(u64_to_string(7), "7");
    assert_eq!(u64_to_string(38765), "38765");
    assert_eq!(u64_to_string(1234567890123), "1234567890123");
    assert_eq!(u64_to_string(u64::MAX), "18446744073709551615");
}

#[test]
fn string_helpers_behave() {
    assert!(str_eq("abc", "abc"));
    assert!(!str_eq("abc", "abd"));
    assert!(starts_with("refs/heads/x", "refs/heads/"));
    assert!(!starts_with("refs", "refs/heads/"));
    assert!(ends_with("topic.lock", ".lock"));
    assert!(!ends_with("lock", ".lock"));
    assert!(contains_substr("a//b", "//"));
    assert!(!contains_substr("a/b", "//"));
}

#[test]
fn port_parsing_matches_the_standard_parser() {
    assert_eq!(parse_u16("80"), Some(80));
    assert_eq!(parse_u16("+80"), Some(80));
    assert_eq!(parse_u16("65535"), Some(65535));
    assert_eq!(parse_u16("65536"), None);
    assert_eq!(parse_u16("184467440737095516150"), None);
    assert_eq!(parse_u16(""), None);
    assert_eq!(parse_u16("+"), None);
    assert_eq!(parse_u16("8 0"), None);
    assert_eq!(parse_u16("-1"), None);
    assert_eq!(parse_u16("3.5"), None);
}

#[test]
fn port_and_bind_defaults() {
    assert_eq!(forksd_port(None), 38765);
    assert_eq!(forksd_port(Some("9000")), 9000);
    assert_eq!(forksd_port(Some("junk")), 38765);
    assert_eq!(forksd_bind(None), "127.0.0.1");
    assert_eq!(forksd_bind(Some("0.0.0.0".to_string())), "0.0.0.0");
}

#[test]
fn base_url_brackets_ipv6() {
    assert_eq!(forksd_base_url("127.0.0.1", 38765), "http://127.0.0.1:38765");
    assert_eq!(forksd_base_url("::1", 8080), "http://[::1]:8080");
    assert_eq!(forksd_base_url("localhost", 1), "http://localhost:1");
}

#[test]
fn health_outcomes_map_to_actions() {
    assert_eq!(ensure_forksd_decision(true, 200, &None), HealthAction::UseToken);
    assert_eq!(ensure_forksd_decision(false, 0, &None), HealthAction::SpawnService);
    assert_eq!(ensure_forksd_decision(false, 401, &None), HealthAction::AuthMismatch);
    assert_eq!(
        ensure_forksd_decision(false, 403, &Some("auth_invalid".to_string())),
        HealthAction::AuthMismatch
    );
    assert_eq!(ensure_forksd_decision(false, 500, &None), HealthAction::Failed(500));
}

#[test]
fn tokens_are_43_characters_of_url_safe_base64() {
    let token = generate_token();
    assert_eq!(token.len(), 43);
    assert!(token.chars().all(|c| c.is_ascii_alphanumeric() || c == '-' || c == '_'));
    let other = rotate_token();
    assert_eq!(other.len(), 43);
    assert_ne!(token, other);
}

#[test]
fn stored_tokens_are_trimmed_and_blank_ones_replaced() {
    assert_eq!(token_from_stored(Some("  abc\n")), Some("abc".to_string()));
    assert_eq!(token_from_stored(Some("   \n\t")), None);
    // The whole White_Space set is trimmed, as str::trim does.
    assert_eq!(token_from_stored(Some("\u{c}token\u{a0}")), Some("token".to_string()));
    assert_eq!(token_from_stored(Some("\u{2003}\u{85}")), None);
    assert_eq!(token_from_stored(None), None);
    let (kept, fresh) = get_or_create_token(Some("  stored-token \n"));
    assert_eq!(kept, "stored-token");
    assert!(!fresh);
    let (minted, fresh) = get_or_create_token(Some(" \n"));
    assert_eq!(minted.len(), 43);
    assert!(fresh);
}

#[test]
fn worktree_names_come_from_the_final_component() {
    assert_eq!(worktree_name_from_path("/work/trees/alpha", "feat/x"), "alpha");
    assert_eq!(worktree_name_from_path("/work/trees/beta/", "feat/x"), "beta");
    assert_eq!(worktree_name_from_path("///", "feat/x"), "feat-x");
    assert_eq!(worktree_name_from_path("", "a/b/c"), "a-b-c");
    assert_eq!(worktree_name_from_path("plain", "f"), "plain");
}

#[test]
fn worktree_names_skip_directory_links() {
    assert_eq!(worktree_name_from_path("/x/..", "feat/x"), "feat-x");
    assert_eq!(worktree_name_from_path("/x/.", "feat/x"), "feat-x");
    assert_eq!(worktree_name_from_path("/x/.hidden", "f"), ".hidden");
    assert_eq!(worktree_name_from_path("/x/...", "f"), "...");
}

#[test]
fn default_branch_prefers_origin_head() {
    assert_eq!(
        default_branch_from(Some("refs/remotes/origin/main".to_string()), Some("dev".to_string())),
        "main"
    );
    assert_eq!(
        default_branch_from(Some("elsewhere/main".to_string()), Some("dev".to_string())),
        "elsewhere/main"
    );
    assert_eq!(default_branch_from(None, Some("dev".to_string())), "dev");
    assert_eq!(default_branch_from(None, None), "main");
}

#[test]
fn equal_texts_diff_to_nothing() {
    assert_eq!(compute_unified_diff("same\n", "same\n", None).unwrap(), "");
}

#[test]
fn one_line_change_renders_a_unified_hunk() {
    let diff = compute_unified_diff("a\n", "b\n", None).unwrap();
    assert_eq!(diff, "--- a\n+++ b\n@@ -1 +1 @@\n-a\n+b\n");
}

#[test]
fn oversized_context_is_clamped() {
    let with_huge = compute_unified_diff("a\nx\n", "b\nx\n", Some(100000)).unwrap();
    let with_cap = compute_unified_diff("a\nx\n", "b\nx\n", Some(200)).unwrap();
    assert_eq!(with_huge, with_cap);
}
