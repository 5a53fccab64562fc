use forks_core::refname::validate_git_ref;

fn err_of(name: &str) -> String {
    validate_git_ref(name).unwrap_err()
}

#[test]
fn accepts_feature_slash() {
    assert!(validate_git_ref("feature/x").is_ok());
}

#[test]
fn accepts_plain_names() {
    assert!(validate_git_ref("main").is_ok());
    assert!(validate_git_ref("release-1.2.3").is_ok());
    assert!(validate_git_ref("a").is_ok());
    assert!(validate_git_ref("topic/sub/deep").is_ok());
}

#[test]
fn accepts_256_chars() {
    let name: String = std::iter::repeat('a').take(256).collect();
    assert!(validate_git_ref(&name).is_ok());
}

#[test]
fn rejects_257_chars() {
    let name: String = std::iter::repeat('a').take(257).collect();
    assert_eq!(err_of(&name), "invalid ref: empty or too long");
}

#[test]
fn rejects_empty() {
    assert_eq!(err_of(""), "invalid ref: empty or too long");
}

#[test]
fn rejects_leading_dash() {
    assert_eq!(err_of("-evil"), "invalid ref: starts with dash");
}

#[test]
fn rejects_dot_lock_suffix() {
    assert_eq!(err_of("topic.lock"), "invalid ref: ends with .lock");
}

#[test]
fn rejects_consecutive_slashes() {
    assert_eq!(err_of("a//b"), "invalid ref: contains consecutive slashes");
}

#[test]
fn rejects_at_brace() {
    assert_eq!(err_of("a@{b"), "invalid ref: contains @{");
}

#[test]
fn rejects_control_characters() {
    assert_eq!(err_of("a\u{1}b"), "invalid ref: contains control character");
    assert_eq!(err_of("a\u{7f}b"), "invalid ref: contains control character");
    assert_eq!(err_of("a\tb"), "invalid ref: contains control character");
}

#[test]
fn rejects_tilde() {
    assert_eq!(err_of("refs~1"), "invalid ref: contains forbidden character");
}

#[test]
fn rejects_forbidden_characters() {
    for name in [
        "a b", "a^b", "a:b", "a?b", "a*b", "a[b", "a]b", "a\\b", "a@b", "a{b",
    ] {
        assert_eq!(err_of(name), "invalid ref: contains forbidden character");
    }
}

#[test]
fn rejects_component_starting_with_dot() {
    assert_eq!(err_of("a/.git"), "invalid ref: invalid path component");
    assert_eq!(err_of(".hidden"), "invalid ref: invalid path component");
}

#[test]
fn rejects_component_ending_with_dot() {
    assert_eq!(err_of("a./b"), "invalid ref: invalid path component");
    assert_eq!(err_of("name."), "invalid ref: invalid path component");
}

#[test]
fn rejects_empty_components() {
    assert_eq!(err_of("/a"), "invalid ref: invalid path component");
    assert_eq!(err_of("a/"), "invalid ref: invalid path component");
}

#[test]
fn first_broken_rule_names_the_error() {
    // The dash rule is checked before the .lock rule.
    assert_eq!(err_of("-a.lock"), "invalid ref: starts with dash");
    // The .lock rule is checked before the component rules.
    assert_eq!(err_of(".a.lock"), "invalid ref: ends with .lock");
}
