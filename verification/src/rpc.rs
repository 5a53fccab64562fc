//! The request/response protocol: one newline-terminated JSON request
//! per connection, one JSON response back.
//!
//! A request reads `{id, method, params}`. The method picks the
//! parameter shape; a shape mismatch is answered with
//! "invalid_params", an unknown method with "unknown_method", and an
//! unparseable line with a response under the id "unknown" carrying
//! the parse failure. Every accepted line yields exactly one
//! response.

use vstd::prelude::*;

use crate::cache::RepoCache;
use crate::diffmod::unified_diff;
use crate::diffmod::unified_diff_of;
use crate::gitops::{
    git_branch_exists, git_changed_files, git_create_branch, git_create_worktree,
    git_current_branch, git_current_commit, git_default_branch, git_delete_branch, git_is_repo,
    git_list_worktrees, git_remove_worktree, git_repo_root, git_reset_hard, git_status,
};
use crate::jsonin::{json_parse, request_parts, value_object_fields, JsonScalar};
use crate::jsonout::{json_of_response, render_response, RpcOutcome};
use crate::refname::{ref_error_msg, ref_name_ok};
use crate::strutil::str_eq;
use crate::tokens::{trim_blank, trim_blank_exec};

verus! {

/// The first member of `fields` named `key`, if any.
pub open spec fn lookup_field(fields: Seq<(String, JsonScalar)>, key: Seq<char>) -> Option<
    JsonScalar,
>
    decreases fields.len(),
{
    if fields.len() == 0 {
        None
    } else if fields.first().0@ == key {
        Some(fields.first().1)
    } else {
        lookup_field(fields.drop_first(), key)
    }
}

/// A required string member: its text, or `None` on absence or any
/// other type.
pub open spec fn str_field(fields: Seq<(String, JsonScalar)>, key: Seq<char>) -> Option<Seq<char>> {
    match lookup_field(fields, key) {
        Some(JsonScalar::Str(s)) => Some(s@),
        _ => None,
    }
}

/// An optional string member: absent or null is fine; any other
/// non-string type is a shape mismatch (outer `None`).
pub open spec fn opt_str_field(fields: Seq<(String, JsonScalar)>, key: Seq<char>) -> Option<
    Option<Seq<char>>,
> {
    match lookup_field(fields, key) {
        None => Some(None),
        Some(JsonScalar::Null) => Some(None),
        Some(JsonScalar::Str(s)) => Some(Some(s@)),
        _ => None,
    }
}

/// An optional boolean member, absent or null meaning unset.
pub open spec fn opt_bool_field(fields: Seq<(String, JsonScalar)>, key: Seq<char>) -> Option<
    Option<bool>,
> {
    match lookup_field(fields, key) {
        None => Some(None),
        Some(JsonScalar::Null) => Some(None),
        Some(JsonScalar::Bool(b)) => Some(Some(b)),
        _ => None,
    }
}

/// An optional unsigned number member, absent or null meaning unset.
pub open spec fn opt_u64_field(fields: Seq<(String, JsonScalar)>, key: Seq<char>) -> Option<
    Option<u64>,
> {
    match lookup_field(fields, key) {
        None => Some(None),
        Some(JsonScalar::Null) => Some(None),
        Some(JsonScalar::UInt(n)) => Some(Some(n)),
        _ => None,
    }
}

fn find_field(fields: &Vec<(String, JsonScalar)>, key: &str) -> (r: Option<usize>)
    ensures
        match r {
            Some(at) => 0 <= at < fields@.len() && lookup_field(fields@, key@) == Some(
                fields@[at as int].1,
            ),
            None => lookup_field(fields@, key@) is None,
        },
{
    proof {
        assert(fields@.skip(0) =~= fields@);
    }
    let mut i: usize = 0;
    while i < fields.len()
        invariant
            0 <= i <= fields@.len(),
            lookup_field(fields@, key@) == lookup_field(fields@.skip(i as int), key@),
        decreases fields@.len() - i,
    {
        proof {
            assert(fields@.skip(i as int).len() > 0);
            assert(fields@.skip(i as int).first() == fields@[i as int]);
            assert(fields@.skip(i as int).drop_first() =~= fields@.skip(i + 1));
        }
        if str_eq(fields[i].0.as_str(), key) {
            return Some(i);
        }
        i += 1;
    }
    proof {
        assert(fields@.skip(fields@.len() as int) =~= Seq::<(String, JsonScalar)>::empty());
    }
    None
}

fn get_str_field(fields: &Vec<(String, JsonScalar)>, key: &str) -> (r: Option<String>)
    ensures
        match r {
            Some(s) => str_field(fields@, key@) == Some(s@),
            None => str_field(fields@, key@) is None,
        },
{
    match find_field(fields, key) {
        Some(at) => match &fields[at].1 {
            JsonScalar::Str(s) => Some(s.clone()),
            _ => None,
        },
        None => None,
    }
}

fn get_opt_str_field(fields: &Vec<(String, JsonScalar)>, key: &str) -> (r: Option<Option<String>>)
    ensures
        match r {
            Some(Some(s)) => opt_str_field(fields@, key@) == Some(Some(s@)),
            Some(None) => opt_str_field(fields@, key@) == Some(Option::<Seq<char>>::None),
            None => opt_str_field(fields@, key@) is None,
        },
{
    match find_field(fields, key) {
        Some(at) => match &fields[at].1 {
            JsonScalar::Str(s) => Some(Some(s.clone())),
            JsonScalar::Null => Some(None),
            _ => None,
        },
        None => Some(None),
    }
}

fn get_opt_bool_field(fields: &Vec<(String, JsonScalar)>, key: &str) -> (r: Option<Option<bool>>)
    ensures
        r == opt_bool_field(fields@, key@),
{
    match find_field(fields, key) {
        Some(at) => match &fields[at].1 {
            JsonScalar::Bool(b) => Some(Some(*b)),
            JsonScalar::Null => Some(None),
            _ => None,
        },
        None => Some(None),
    }
}

fn get_opt_u64_field(fields: &Vec<(String, JsonScalar)>, key: &str) -> (r: Option<Option<u64>>)
    ensures
        r == opt_u64_field(fields@, key@),
{
    match find_field(fields, key) {
        Some(at) => match &fields[at].1 {
            JsonScalar::UInt(n) => Some(Some(*n)),
            JsonScalar::Null => Some(None),
            _ => None,
        },
        None => Some(None),
    }
}

/// One parsed protocol call, with its parameters.
pub enum RpcCall {
    IsRepo { path: String },
    RepoRoot { path: String },
    DefaultBranch { repo_path: String },
    CurrentBranch { path: String },
    BranchExists { repo_path: String, branch: String },
    CreateBranch { repo_path: String, branch: String, start_point: Option<String> },
    ListWorktrees { repo_path: String },
    CreateWorktree { repo_path: String, path: String, branch: String, create_branch: Option<bool> },
    RemoveWorktree { worktree_path: String, force: Option<bool> },
    DeleteBranch { repo_path: String, branch: String, force: Option<bool> },
    CurrentCommit { repo_path: String },
    ResetHard { repo_path: String, git_ref: String },
    Status { repo_path: String },
    ChangedFiles { repo_path: String },
    DiffUnified { original: String, modified: String, context_lines: Option<u64> },
}

/// The method names the protocol serves.
pub open spec fn known_method(m: Seq<char>) -> bool {
    ||| m == "git_is_repo"@
    ||| m == "git_repo_root"@
    ||| m == "git_default_branch"@
    ||| m == "git_current_branch"@
    ||| m == "git_branch_exists"@
    ||| m == "git_create_branch"@
    ||| m == "git_list_worktrees"@
    ||| m == "git_create_worktree"@
    ||| m == "git_remove_worktree"@
    ||| m == "git_delete_branch"@
    ||| m == "git_current_commit"@
    ||| m == "git_reset_hard"@
    ||| m == "git_status"@
    ||| m == "git_changed_files"@
    ||| m == "diff_unified"@
}

/// Parses a request's method and flattened parameter object into a
/// call. An unknown method is refused before the parameters are
/// looked at; a missing or mistyped parameter is a shape mismatch.
#[verifier::rlimit(60)]
pub fn parse_call(method: &str, fields: &Option<Vec<(String, JsonScalar)>>) -> (r: Result<
    RpcCall,
    String,
>)
    ensures
        !known_method(method@) ==> (r matches Err(e) && e@ =~= "unknown_method"@),
        (known_method(method@) && *fields is None) ==> (r matches Err(e) && e@
            =~= "invalid_params"@),
        method@ == "git_is_repo"@ ==> (*fields matches Some(fs) ==> (match str_field(
            fs@,
            "path"@,
        ) {
            Some(p) => r matches Ok(RpcCall::IsRepo { path }) && path@ == p,
            None => r matches Err(e) && e@ =~= "invalid_params"@,
        })),
        method@ == "git_repo_root"@ ==> (*fields matches Some(fs) ==> (match str_field(
            fs@,
            "path"@,
        ) {
            Some(p) => r matches Ok(RpcCall::RepoRoot { path }) && path@ == p,
            None => r matches Err(e) && e@ =~= "invalid_params"@,
        })),
        method@ == "git_default_branch"@ ==> (*fields matches Some(fs) ==> (match str_field(
            fs@,
            "repoPath"@,
        ) {
            Some(p) => r matches Ok(RpcCall::DefaultBranch { repo_path }) && repo_path@ == p,
            None => r matches Err(e) && e@ =~= "invalid_params"@,
        })),
        method@ == "git_current_branch"@ ==> (*fields matches Some(fs) ==> (match str_field(
            fs@,
            "path"@,
        ) {
            Some(p) => r matches Ok(RpcCall::CurrentBranch { path }) && path@ == p,
            None => r matches Err(e) && e@ =~= "invalid_params"@,
        })),
        method@ == "git_branch_exists"@ ==> (*fields matches Some(fs) ==> (match (str_field(
            fs@,
            "repoPath"@,
        ), str_field(fs@, "branch"@)) {
            (Some(rp), Some(b)) => r matches Ok(RpcCall::BranchExists { repo_path, branch })
                && repo_path@ == rp && branch@ == b,
            _ => r matches Err(e) && e@ =~= "invalid_params"@,
        })),
        method@ == "git_create_branch"@ ==> (*fields matches Some(fs) ==> (match (str_field(
            fs@,
            "repoPath"@,
        ), str_field(fs@, "branch"@), opt_str_field(fs@, "startPoint"@)) {
            (Some(rp), Some(b), Some(sp)) => r matches Ok(
                RpcCall::CreateBranch { repo_path, branch, start_point },
            ) && repo_path@ == rp && branch@ == b && (match (start_point, sp) {
                (Some(got), Some(want)) => got@ == want,
                (None, None) => true,
                _ => false,
            }),
            _ => r matches Err(e) && e@ =~= "invalid_params"@,
        })),
        method@ == "git_list_worktrees"@ ==> (*fields matches Some(fs) ==> (match str_field(
            fs@,
            "repoPath"@,
        ) {
            Some(p) => r matches Ok(RpcCall::ListWorktrees { repo_path }) && repo_path@ == p,
            None => r matches Err(e) && e@ =~= "invalid_params"@,
        })),
        method@ == "git_create_worktree"@ ==> (*fields matches Some(fs) ==> (match (str_field(
            fs@,
            "repoPath"@,
        ), str_field(fs@, "path"@), str_field(fs@, "branch"@), opt_bool_field(
            fs@,
            "createBranch"@,
        )) {
            (Some(rp), Some(p), Some(b), Some(cb)) => r matches Ok(
                RpcCall::CreateWorktree { repo_path, path, branch, create_branch },
            ) && repo_path@ == rp && path@ == p && branch@ == b && create_branch == cb,
            _ => r matches Err(e) && e@ =~= "invalid_params"@,
        })),
        method@ == "git_remove_worktree"@ ==> (*fields matches Some(fs) ==> (match (str_field(
            fs@,
            "worktreePath"@,
        ), opt_bool_field(fs@, "force"@)) {
            (Some(wp), Some(f)) => r matches Ok(RpcCall::RemoveWorktree { worktree_path, force })
                && worktree_path@ == wp && force == f,
            _ => r matches Err(e) && e@ =~= "invalid_params"@,
        })),
        method@ == "git_delete_branch"@ ==> (*fields matches Some(fs) ==> (match (str_field(
            fs@,
            "repoPath"@,
        ), str_field(fs@, "branch"@), opt_bool_field(fs@, "force"@)) {
            (Some(rp), Some(b), Some(f)) => r matches Ok(
                RpcCall::DeleteBranch { repo_path, branch, force },
            ) && repo_path@ == rp && branch@ == b && force == f,
            _ => r matches Err(e) && e@ =~= "invalid_params"@,
        })),
        method@ == "git_current_commit"@ ==> (*fields matches Some(fs) ==> (match str_field(
            fs@,
            "repoPath"@,
        ) {
            Some(p) => r matches Ok(RpcCall::CurrentCommit { repo_path }) && repo_path@ == p,
            None => r matches Err(e) && e@ =~= "invalid_params"@,
        })),
        method@ == "git_reset_hard"@ ==> (*fields matches Some(fs) ==> (match (str_field(
            fs@,
            "repoPath"@,
        ), str_field(fs@, "gitRef"@)) {
            (Some(rp), Some(gr)) => r matches Ok(RpcCall::ResetHard { repo_path, git_ref })
                && repo_path@ == rp && git_ref@ == gr,
            _ => r matches Err(e) && e@ =~= "invalid_params"@,
        })),
        method@ == "git_status"@ ==> (*fields matches Some(fs) ==> (match str_field(
            fs@,
            "repoPath"@,
        ) {
            Some(p) => r matches Ok(RpcCall::Status { repo_path }) && repo_path@ == p,
            None => r matches Err(e) && e@ =~= "invalid_params"@,
        })),
        method@ == "git_changed_files"@ ==> (*fields matches Some(fs) ==> (match str_field(
            fs@,
            "repoPath"@,
        ) {
            Some(p) => r matches Ok(RpcCall::ChangedFiles { repo_path }) && repo_path@ == p,
            None => r matches Err(e) && e@ =~= "invalid_params"@,
        })),
        method@ == "diff_unified"@ ==> (*fields matches Some(fs) ==> (match (str_field(
            fs@,
            "original"@,
        ), str_field(fs@, "modified"@), opt_u64_field(fs@, "contextLines"@)) {
            (Some(o), Some(m), Some(cl)) => r matches Ok(
                RpcCall::DiffUnified { original, modified, context_lines },
            ) && original@ == o && modified@ == m && context_lines == cl,
            _ => r matches Err(e) && e@ =~= "invalid_params"@,
        })),
{
    proof {
        reveal_strlit("git_is_repo");
        reveal_strlit("git_repo_root");
        reveal_strlit("git_default_branch");
        reveal_strlit("git_current_branch");
        reveal_strlit("git_branch_exists");
        reveal_strlit("git_create_branch");
        reveal_strlit("git_list_worktrees");
        reveal_strlit("git_create_worktree");
        reveal_strlit("git_remove_worktree");
        reveal_strlit("git_delete_branch");
        reveal_strlit("git_current_commit");
        reveal_strlit("git_reset_hard");
        reveal_strlit("git_status");
        reveal_strlit("git_changed_files");
        reveal_strlit("diff_unified");
        assert("git_default_branch"@ != "git_current_branch"@) by {
            assert("git_default_branch"@[4] != "git_current_branch"@[4]);
        }
        assert("git_default_branch"@ != "git_list_worktrees"@) by {
            assert("git_default_branch"@[4] != "git_list_worktrees"@[4]);
        }
        assert("git_default_branch"@ != "git_current_commit"@) by {
            assert("git_default_branch"@[4] != "git_current_commit"@[4]);
        }
        assert("git_current_branch"@ != "git_list_worktrees"@) by {
            assert("git_current_branch"@[4] != "git_list_worktrees"@[4]);
        }
        assert("git_current_branch"@ != "git_current_commit"@) by {
            assert("git_current_branch"@[12] != "git_current_commit"@[12]);
        }
        assert("git_list_worktrees"@ != "git_current_commit"@) by {
            assert("git_list_worktrees"@[4] != "git_current_commit"@[4]);
        }
        assert("git_branch_exists"@ != "git_create_branch"@) by {
            assert("git_branch_exists"@[4] != "git_create_branch"@[4]);
        }
        assert("git_branch_exists"@ != "git_delete_branch"@) by {
            assert("git_branch_exists"@[4] != "git_delete_branch"@[4]);
        }
        assert("git_branch_exists"@ != "git_changed_files"@) by {
            assert("git_branch_exists"@[4] != "git_changed_files"@[4]);
        }
        assert("git_create_branch"@ != "git_delete_branch"@) by {
            assert("git_create_branch"@[4] != "git_delete_branch"@[4]);
        }
        assert("git_create_branch"@ != "git_changed_files"@) by {
            assert("git_create_branch"@[5] != "git_changed_files"@[5]);
        }
        assert("git_delete_branch"@ != "git_changed_files"@) by {
            assert("git_delete_branch"@[4] != "git_changed_files"@[4]);
        }
        assert("git_create_worktree"@ != "git_remove_worktree"@) by {
            assert("git_create_worktree"@[4] != "git_remove_worktree"@[4]);
        }
    }
    let fs = match fields {
        Some(fs) => fs,
        None => {
            if str_eq(method, "git_is_repo") || str_eq(method, "git_repo_root") || str_eq(
                method,
                "git_default_branch",
            ) || str_eq(method, "git_current_branch") || str_eq(method, "git_branch_exists")
                || str_eq(method, "git_create_branch") || str_eq(method, "git_list_worktrees")
                || str_eq(method, "git_create_worktree") || str_eq(method, "git_remove_worktree")
                || str_eq(method, "git_delete_branch") || str_eq(method, "git_current_commit")
                || str_eq(method, "git_reset_hard") || str_eq(method, "git_status") || str_eq(
                method,
                "git_changed_files",
            ) || str_eq(method, "diff_unified") {
                return Err(String::from_str("invalid_params"));
            }
            return Err(String::from_str("unknown_method"));
        },
    };
    if str_eq(method, "git_is_repo") {
        match get_str_field(fs, "path") {
            Some(path) => Ok(RpcCall::IsRepo { path }),
            None => Err(String::from_str("invalid_params")),
        }
    } else if str_eq(method, "git_repo_root") {
        match get_str_field(fs, "path") {
            Some(path) => Ok(RpcCall::RepoRoot { path }),
            None => Err(String::from_str("invalid_params")),
        }
    } else if str_eq(method, "git_default_branch") {
        match get_str_field(fs, "repoPath") {
            Some(repo_path) => Ok(RpcCall::DefaultBranch { repo_path }),
            None => Err(String::from_str("invalid_params")),
        }
    } else if str_eq(method, "git_current_branch") {
        match get_str_field(fs, "path") {
            Some(path) => Ok(RpcCall::CurrentBranch { path }),
            None => Err(String::from_str("invalid_params")),
        }
    } else if str_eq(method, "git_branch_exists") {
        match (get_str_field(fs, "repoPath"), get_str_field(fs, "branch")) {
            (Some(repo_path), Some(branch)) => Ok(RpcCall::BranchExists { repo_path, branch }),
            _ => Err(String::from_str("invalid_params")),
        }
    } else if str_eq(method, "git_create_branch") {
        match (
            get_str_field(fs, "repoPath"),
            get_str_field(fs, "branch"),
            get_opt_str_field(fs, "startPoint"),
        ) {
            (Some(repo_path), Some(branch), Some(start_point)) => Ok(
                RpcCall::CreateBranch { repo_path, branch, start_point },
            ),
            _ => Err(String::from_str("invalid_params")),
        }
    } else if str_eq(method, "git_list_worktrees") {
        match get_str_field(fs, "repoPath") {
            Some(repo_path) => Ok(RpcCall::ListWorktrees { repo_path }),
            None => Err(String::from_str("invalid_params")),
        }
    } else if str_eq(method, "git_create_worktree") {
        match (
            get_str_field(fs, "repoPath"),
            get_str_field(fs, "path"),
            get_str_field(fs, "branch"),
            get_opt_bool_field(fs, "createBranch"),
        ) {
            (Some(repo_path), Some(path), Some(branch), Some(create_branch)) => Ok(
                RpcCall::CreateWorktree { repo_path, path, branch, create_branch },
            ),
            _ => Err(String::from_str("invalid_params")),
        }
    } else if str_eq(method, "git_remove_worktree") {
        match (get_str_field(fs, "worktreePath"), get_opt_bool_field(fs, "force")) {
            (Some(worktree_path), Some(force)) => Ok(
                RpcCall::RemoveWorktree { worktree_path, force },
            ),
            _ => Err(String::from_str("invalid_params")),
        }
    } else if str_eq(method, "git_delete_branch") {
        match (
            get_str_field(fs, "repoPath"),
            get_str_field(fs, "branch"),
            get_opt_bool_field(fs, "force"),
        ) {
            (Some(repo_path), Some(branch), Some(force)) => Ok(
                RpcCall::DeleteBranch { repo_path, branch, force },
            ),
            _ => Err(String::from_str("invalid_params")),
        }
    } else if str_eq(method, "git_current_commit") {
        match get_str_field(fs, "repoPath") {
            Some(repo_path) => Ok(RpcCall::CurrentCommit { repo_path }),
            None => Err(String::from_str("invalid_params")),
        }
    } else if str_eq(method, "git_reset_hard") {
        match (get_str_field(fs, "repoPath"), get_str_field(fs, "gitRef")) {
            (Some(repo_path), Some(git_ref)) => Ok(RpcCall::ResetHard { repo_path, git_ref }),
            _ => Err(String::from_str("invalid_params")),
        }
    } else if str_eq(method, "git_status") {
        match get_str_field(fs, "repoPath") {
            Some(repo_path) => Ok(RpcCall::Status { repo_path }),
            None => Err(String::from_str("invalid_params")),
        }
    } else if str_eq(method, "git_changed_files") {
        match get_str_field(fs, "repoPath") {
            Some(repo_path) => Ok(RpcCall::ChangedFiles { repo_path }),
            None => Err(String::from_str("invalid_params")),
        }
    } else if str_eq(method, "diff_unified") {
        match (
            get_str_field(fs, "original"),
            get_str_field(fs, "modified"),
            get_opt_u64_field(fs, "contextLines"),
        ) {
            (Some(original), Some(modified), Some(context_lines)) => Ok(
                RpcCall::DiffUnified { original, modified, context_lines },
            ),
            _ => Err(String::from_str("invalid_params")),
        }
    } else {
        Err(String::from_str("unknown_method"))
    }
}

/// The context radius a u64 request value clamps to.
pub open spec fn clamp_context_u64(context_lines: Option<u64>) -> int {
    match context_lines {
        Some(n) => {
            if n > 200 {
                200
            } else {
                n as int
            }
        },
        None => 3,
    }
}

/// Runs one parsed call. Query calls read through the shared cache;
/// mutating calls validate their refs first and open fresh handles.
pub fn execute_call(cache: &mut RepoCache, call: &RpcCall) -> (r: Result<RpcOutcome, String>)
    requires
        old(cache).wf(),
    ensures
        final(cache).wf(),
        *call matches RpcCall::IsRepo { .. } ==> (r matches Ok(o) && o is Bool),
        *call matches RpcCall::DiffUnified { original, modified, context_lines } ==> (
        r matches Ok(RpcOutcome::Str(d)) && d@ == unified_diff_of(
            original@,
            modified@,
            clamp_context_u64(context_lines),
        )),
        *call matches RpcCall::DeleteBranch { branch, .. } ==> !ref_name_ok(branch@) ==> (
        r matches Err(e) && e@ =~= ref_error_msg(branch@)),
        *call matches RpcCall::CreateBranch { branch, .. } ==> !ref_name_ok(branch@) ==> (
        r matches Err(e) && e@ =~= ref_error_msg(branch@)),
        *call matches RpcCall::CreateWorktree { branch, .. } ==> !ref_name_ok(branch@) ==> (
        r matches Err(e) && e@ =~= ref_error_msg(branch@)),
        *call matches RpcCall::ResetHard { git_ref, .. } ==> !ref_name_ok(git_ref@) ==> (
        r matches Err(e) && e@ =~= ref_error_msg(git_ref@)),
{
    match call {
        RpcCall::IsRepo { path } => match git_is_repo(path.as_str()) {
            Ok(b) => Ok(RpcOutcome::Bool(b)),
            Err(e) => Err(e),
        },
        RpcCall::RepoRoot { path } => match git_repo_root(path.as_str()) {
            Ok(root) => Ok(RpcOutcome::Str(root)),
            Err(e) => Err(e),
        },
        RpcCall::DefaultBranch { repo_path } => match git_default_branch(
            cache,
            repo_path.as_str(),
        ) {
            Ok(b) => Ok(RpcOutcome::Str(b)),
            Err(e) => Err(e),
        },
        RpcCall::CurrentBranch { path } => match git_current_branch(cache, path.as_str()) {
            Ok(b) => Ok(RpcOutcome::Str(b)),
            Err(e) => Err(e),
        },
        RpcCall::BranchExists { repo_path, branch } => match git_branch_exists(
            cache,
            repo_path.as_str(),
            branch.as_str(),
        ) {
            Ok(b) => Ok(RpcOutcome::Bool(b)),
            Err(e) => Err(e),
        },
        RpcCall::CreateBranch { repo_path, branch, start_point } => match git_create_branch(
            repo_path.as_str(),
            branch.as_str(),
            start_point,
        ) {
            Ok(_) => Ok(RpcOutcome::Null),
            Err(e) => Err(e),
        },
        RpcCall::ListWorktrees { repo_path } => match git_list_worktrees(repo_path.as_str()) {
            Ok(ws) => Ok(RpcOutcome::Worktrees(ws)),
            Err(e) => Err(e),
        },
        RpcCall::CreateWorktree { repo_path, path, branch, create_branch } => {
            let create = match create_branch {
                Some(c) => *c,
                None => false,
            };
            match git_create_worktree(repo_path.as_str(), path.as_str(), branch.as_str(), create) {
                Ok(_) => Ok(RpcOutcome::Null),
                Err(e) => Err(e),
            }
        },
        RpcCall::RemoveWorktree { worktree_path, force } => match git_remove_worktree(
            worktree_path.as_str(),
            *force,
        ) {
            Ok(_) => Ok(RpcOutcome::Null),
            Err(e) => Err(e),
        },
        RpcCall::DeleteBranch { repo_path, branch, force } => match git_delete_branch(
            repo_path.as_str(),
            branch.as_str(),
            *force,
        ) {
            Ok(_) => Ok(RpcOutcome::Null),
            Err(e) => Err(e),
        },
        RpcCall::CurrentCommit { repo_path } => match git_current_commit(
            cache,
            repo_path.as_str(),
        ) {
            Ok(id) => Ok(RpcOutcome::Str(id)),
            Err(e) => Err(e),
        },
        RpcCall::ResetHard { repo_path, git_ref } => match git_reset_hard(
            repo_path.as_str(),
            git_ref.as_str(),
        ) {
            Ok(_) => Ok(RpcOutcome::Null),
            Err(e) => Err(e),
        },
        RpcCall::Status { repo_path } => match git_status(repo_path.as_str()) {
            Ok(es) => Ok(RpcOutcome::Statuses(es)),
            Err(e) => Err(e),
        },
        RpcCall::ChangedFiles { repo_path } => match git_changed_files(repo_path.as_str()) {
            Ok(ps) => Ok(RpcOutcome::StrList(ps)),
            Err(e) => Err(e),
        },
        RpcCall::DiffUnified { original, modified, context_lines } => {
            let context: usize = match context_lines {
                Some(n) => {
                    if *n > 200 {
                        200
                    } else {
                        (*n) as usize
                    }
                },
                None => 3,
            };
            let diff = unified_diff(original.as_str(), modified.as_str(), context);
            assert(context as int == clamp_context_u64(*context_lines));
            Ok(RpcOutcome::Str(diff))
        },
    }
}

/// A rendering of a response under this id whose members fit
/// together: ok goes with a result and no error, failure with an
/// error and no result.
pub open spec fn is_wellformed_response(out: Seq<char>, id: Seq<char>) -> bool {
    exists|ok: bool, result: Option<RpcOutcome>, error: Option<Seq<char>>|
        {
            &&& out == #[trigger] json_of_response(id, ok, result, error)
            &&& (ok <==> error is None)
            &&& (ok <==> result is Some)
        }
}

/// What an is-repo request is always answered with: a success
/// carrying a boolean result, or a failure carrying an error.
pub open spec fn is_repo_response(out: Seq<char>, id: Seq<char>) -> bool {
    ||| exists|b: bool| out == #[trigger] json_of_response(
        id,
        true,
        Some(RpcOutcome::Bool(b)),
        None,
    )
    ||| exists|e: Seq<char>| out == #[trigger] json_of_response(
        id,
        false,
        None,
        Some(e),
    )
}

/// Serves one request: parses the call, runs it, and renders exactly
/// one response under the request's id, with ok, result and error
/// fitting together.
pub fn handle_request(cache: &mut RepoCache, id: &str, method: &str, params: &serde_json::Value)
    -> (r: String)
    requires
        old(cache).wf(),
    ensures
        final(cache).wf(),
        is_wellformed_response(r@, id@),
        !known_method(method@) ==> r@ == json_of_response(
            id@,
            false,
            Option::<RpcOutcome>::None,
            Some("unknown_method"@),
        ),
        method@ == "git_is_repo"@ ==> is_repo_response(r@, id@),
{
    let fields = value_object_fields(params);
    let parsed = parse_call(method, &fields);
    let ghost parsed_snapshot = parsed;
    let outcome = match parsed {
        Ok(call) => execute_call(cache, &call),
        Err(e) => Err(e),
    };
    match outcome {
        Ok(value) => {
            let ghost value_snapshot = value;
            let result = Some(value);
            let out = render_response(id, true, &result, &None);
            proof {
                assert(is_wellformed_response(out@, id@));
                if method@ == "git_is_repo"@ {
                    assert(parsed_snapshot matches Ok(c) && c is IsRepo);
                    assert(value_snapshot is Bool);
                    let b = value_snapshot->Bool_0;
                    assert(out@ == json_of_response(id@, true, Some(RpcOutcome::Bool(b)), None));
                }
            }
            out
        },
        Err(e) => {
            let error = Some(e);
            let out = render_response(id, false, &None, &error);
            proof {
                assert(is_wellformed_response(out@, id@));
                assert(out@ == json_of_response(id@, false, Option::<RpcOutcome>::None, Some(e@)));
            }
            out
        },
    }
}

/// The served line's output, when there is one, renders a response
/// whose members fit together.
pub open spec fn response_output_ok(r: Option<String>) -> bool {
    match r {
        Some(out) => exists|id: Seq<char>, ok: bool, result: Option<RpcOutcome>, error: Option<
            Seq<char>,
        >|
            {
                &&& out@ == #[trigger] json_of_response(id, ok, result, error)
                &&& (ok <==> error is None)
                &&& (ok <==> result is Some)
            },
        None => true,
    }
}

/// Serves one line of a connection: a blank line gets no response; an
/// unparseable or shapeless line is answered under the id "unknown"
/// with the failure as its error; anything else is dispatched. Every
/// nonblank line yields exactly one response.
pub fn handle_line(cache: &mut RepoCache, line: &str) -> (r: Option<String>)
    requires
        old(cache).wf(),
    ensures
        final(cache).wf(),
        r is None <==> trim_blank(line@).len() == 0,
        response_output_ok(r),
{
    let trimmed = trim_blank_exec(line);
    if trimmed.as_str().unicode_len() == 0 {
        return None;
    }
    let parsed = match json_parse(line) {
        Ok(v) => v,
        Err(e) => {
            let error = Some(e);
            let out = render_response("unknown", false, &None, &error);
            return Some(out);
        },
    };
    let (id, method, params) = match request_parts(parsed) {
        Some(parts) => parts,
        None => {
            let error = Some(String::from_str("invalid request object"));
            let out = render_response("unknown", false, &None, &error);
            return Some(out);
        },
    };
    let out = handle_request(cache, id.as_str(), method.as_str(), &params);
    proof {
        assert(is_wellformed_response(out@, id@));
        let (ok, result, error) = choose|ok: bool, result: Option<RpcOutcome>, error: Option<
            Seq<char>,
        >|
            {
                &&& out@ == #[trigger] json_of_response(id@, ok, result, error)
                &&& (ok <==> error is None)
                &&& (ok <==> result is Some)
            };
        assert(out@ == json_of_response(id@, ok, result, error));
    }
    Some(out)
}

/// What the protocol server knows about its socket: the path it is
/// bound at, once it is.
pub struct RpcState {
    socket_path: Option<String>,
}

impl RpcState {
    /// The bound path, as the contracts see it.
    pub closed spec fn path_view(self) -> Option<Seq<char>> {
        match self.socket_path {
            Some(p) => Some(p@),
            None => None,
        }
    }

    /// A server that has not bound its socket yet.
    pub fn new() -> (r: RpcState)
        ensures
            r.path_view() is None,
    {
        RpcState { socket_path: None }
    }

    /// Records the bound socket path, exactly once: a second bind is
    /// refused and changes nothing.
    pub fn register_socket(&mut self, path: String) -> (r: Result<(), String>)
        ensures
            old(self).path_view() is None ==> (r is Ok && final(self).path_view() == Some(path@)),
            old(self).path_view() is Some ==> ((r matches Err(e) && e@
                =~= "Git RPC already initialized"@) && final(self).path_view() == old(
                self,
            ).path_view()),
    {
        match &self.socket_path {
            Some(_) => Err(String::from_str("Git RPC already initialized")),
            None => {
                self.socket_path = Some(path);
                Ok(())
            },
        }
    }
}

/// The socket path the server is bound at, if it has started.
pub fn active_socket_path(state: &RpcState) -> (r: Option<String>)
    ensures
        match r {
            Some(p) => state.path_view() == Some(p@),
            None => state.path_view() is None,
        },
{
    match &state.socket_path {
        Some(p) => Some(p.clone()),
        None => None,
    }
}

} // verus!
