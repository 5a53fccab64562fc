//! Validation of git ref/branch names, after the rules of
//! git-check-ref-format.
//!
//! Every user-supplied ref name is held against these rules before it is
//! used in a mutating repository operation, so that a malformed or unsafe
//! name can never reach the underlying git library.

use vstd::prelude::*;

use crate::strutil::{contains_substr, ends_with, has_substring};

verus! {

/// Control characters: codepoints at or below 0x1F, and 0x7F.
pub open spec fn is_control_char(c: char) -> bool {
    (c as u32) <= 0x1f || (c as u32) == 0x7f
}

/// The characters git forbids anywhere in a ref name.
pub open spec fn is_forbidden_char(c: char) -> bool {
    ||| c == ' '
    ||| c == '~'
    ||| c == '^'
    ||| c == ':'
    ||| c == '?'
    ||| c == '*'
    ||| c == '['
    ||| c == ']'
    ||| c == '\\'
    ||| c == '@'
    ||| c == '{'
}

/// The name ends in ".lock".
pub open spec fn ends_in_lock(s: Seq<char>) -> bool {
    s.len() >= 5 && s.subrange(s.len() - 5, s.len() as int) =~= ".lock"@
}

/// Some character of `s` is a control character.
pub open spec fn has_control_char(s: Seq<char>) -> bool {
    exists|i: int| 0 <= i < s.len() && is_control_char(s[i])
}

/// Some character of `s` is forbidden.
pub open spec fn has_forbidden_char(s: Seq<char>) -> bool {
    exists|i: int| 0 <= i < s.len() && is_forbidden_char(s[i])
}

/// Splitting `s` on '/' yields a component that is empty, or starts or
/// ends with '.'. A component starts at position 0 or right after a '/',
/// and ends at the last position or right before a '/'.
pub open spec fn has_bad_component(s: Seq<char>) -> bool {
    ||| s.len() == 0
    ||| s[0] == '/'
    ||| s[s.len() - 1] == '/'
    ||| has_substring(s, "//"@)
    ||| exists|i: int| 0 <= i < s.len() && (#[trigger] s[i]) == '.' && (i == 0 || s[i - 1] == '/')
    ||| exists|i: int| 0 <= i < s.len() && (#[trigger] s[i]) == '.' && (i == s.len() - 1 || s[i + 1] == '/')
}

/// A ref name is well formed when it has 1 to 256 characters, does not
/// start with '-', does not end in ".lock", contains no "//", no "@{",
/// no control character and no forbidden character, and every
/// slash-separated component is nonempty and neither starts nor ends
/// with '.'.
pub open spec fn ref_name_ok(s: Seq<char>) -> bool {
    &&& 1 <= s.len() <= 256
    &&& s[0] != '-'
    &&& !ends_in_lock(s)
    &&& !has_substring(s, "//"@)
    &&& !has_substring(s, "@{"@)
    &&& !has_control_char(s)
    &&& !has_forbidden_char(s)
    &&& !has_bad_component(s)
}

/// The message reported for a malformed name: the rules are checked in a
/// fixed order and the first broken one names the error.
pub open spec fn ref_error_msg(s: Seq<char>) -> Seq<char> {
    if !(1 <= s.len() <= 256) {
        "invalid ref: empty or too long"@
    } else if s[0] == '-' {
        "invalid ref: starts with dash"@
    } else if ends_in_lock(s) {
        "invalid ref: ends with .lock"@
    } else if has_substring(s, "//"@) {
        "invalid ref: contains consecutive slashes"@
    } else if has_substring(s, "@{"@) {
        "invalid ref: contains @{"@
    } else if has_control_char(s) {
        "invalid ref: contains control character"@
    } else if has_forbidden_char(s) {
        "invalid ref: contains forbidden character"@
    } else {
        "invalid ref: invalid path component"@
    }
}

fn is_control_char_exec(c: char) -> (r: bool)
    ensures
        r == is_control_char(c),
{
    let code = c as u32;
    code <= 0x1f || code == 0x7f
}

fn is_forbidden_char_exec(c: char) -> (r: bool)
    ensures
        r == is_forbidden_char(c),
{
    c == ' ' || c == '~' || c == '^' || c == ':' || c == '?' || c == '*' || c == '[' || c == ']'
        || c == '\\' || c == '@' || c == '{'
}

fn has_control_char_exec(s: &str) -> (r: bool)
    ensures
        r == has_control_char(s@),
{
    let len = s.unicode_len();
    let mut i: usize = 0;
    while i < len
        invariant
            len == s@.len(),
            0 <= i <= len,
            forall|j: int| 0 <= j < i ==> !is_control_char(s@[j]),
        decreases len - i,
    {
        if is_control_char_exec(s.get_char(i)) {
            return true;
        }
        i += 1;
    }
    false
}

fn has_forbidden_char_exec(s: &str) -> (r: bool)
    ensures
        r == has_forbidden_char(s@),
{
    let len = s.unicode_len();
    let mut i: usize = 0;
    while i < len
        invariant
            len == s@.len(),
            0 <= i <= len,
            forall|j: int| 0 <= j < i ==> !is_forbidden_char(s@[j]),
        decreases len - i,
    {
        if is_forbidden_char_exec(s.get_char(i)) {
            return true;
        }
        i += 1;
    }
    false
}

/// Checks the dot rules for components; empty components are covered by
/// the caller's leading-slash, trailing-slash and "//" checks.
fn has_bad_dot_exec(s: &str) -> (r: bool)
    requires
        s@.len() >= 1,
    ensures
        r == ((exists|i: int|
            0 <= i < s@.len() && (#[trigger] s@[i]) == '.' && (i == 0 || s@[i - 1] == '/')) || (
        exists|i: int|
            0 <= i < s@.len() && (#[trigger] s@[i]) == '.' && (i == s@.len() - 1 || s@[i + 1]
                == '/'))),
{
    let len = s.unicode_len();
    let mut i: usize = 0;
    while i < len
        invariant
            len == s@.len(),
            1 <= len,
            0 <= i <= len,
            forall|j: int|
                0 <= j < i ==> !((#[trigger] s@[j]) == '.' && (j == 0 || s@[j - 1] == '/')),
            forall|j: int|
                0 <= j < i ==> !((#[trigger] s@[j]) == '.' && (j == len - 1 || s@[j + 1] == '/')),
        decreases len - i,
    {
        if s.get_char(i) == '.' {
            if i == 0 || s.get_char(i - 1) == '/' {
                return true;
            }
            if i == len - 1 || s.get_char(i + 1) == '/' {
                return true;
            }
        }
        i += 1;
    }
    false
}

/// Validates a git ref name. Returns `Ok(())` exactly for well-formed
/// names; a malformed name yields the message of the first broken rule.
pub fn validate_git_ref(name: &str) -> (r: Result<(), String>)
    ensures
        r is Ok <==> ref_name_ok(name@),
        r is Err ==> r->Err_0@ =~= ref_error_msg(name@),
{
    let len = name.unicode_len();
    if len == 0 || len > 256 {
        return Err(String::from_str("invalid ref: empty or too long"));
    }
    if name.get_char(0) == '-' {
        return Err(String::from_str("invalid ref: starts with dash"));
    }
    proof {
        reveal_strlit(".lock");
    }
    if ends_with(name, ".lock") {
        return Err(String::from_str("invalid ref: ends with .lock"));
    }
    if contains_substr(name, "//") {
        return Err(String::from_str("invalid ref: contains consecutive slashes"));
    }
    if contains_substr(name, "@{") {
        return Err(String::from_str("invalid ref: contains @{"));
    }
    if has_control_char_exec(name) {
        return Err(String::from_str("invalid ref: contains control character"));
    }
    if has_forbidden_char_exec(name) {
        return Err(String::from_str("invalid ref: contains forbidden character"));
    }
    if name.get_char(0) == '/' || name.get_char(len - 1) == '/' || has_bad_dot_exec(name) {
        return Err(String::from_str("invalid ref: invalid path component"));
    }
    assert(!has_bad_component(name@));
    Ok(())
}

} // verus!
