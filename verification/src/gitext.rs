//! Trusted boundary to the underlying git library (git2).
//!
//! Each wrapper makes one call into git2 and converts its result to
//! plain values or hands back an opaque handle. What a call returns
//! depends on the repository on disk, so the wrappers promise nothing
//! about the values; the verified logic around them states what holds
//! whatever came back.

use vstd::prelude::*;

verus! {

#[verifier::external_type_specification]
#[verifier::external_body]
pub struct ExRepository(git2::Repository);

#[verifier::external_type_specification]
#[verifier::external_body]
pub struct ExReference<'a>(git2::Reference<'a>);

#[verifier::external_type_specification]
#[verifier::external_body]
pub struct ExCommit<'a>(git2::Commit<'a>);

#[verifier::external_type_specification]
#[verifier::external_body]
pub struct ExObject<'a>(git2::Object<'a>);

#[verifier::external_type_specification]
#[verifier::external_body]
pub struct ExWorktree(git2::Worktree);

/// Relies on git2::Repository::open: opens the repository at exactly
/// this path.
#[verifier::external_body]
pub(crate) fn repo_open(path: &str) -> Result<git2::Repository, String> {
    git2::Repository::open(path).map_err(|err| err.to_string())
}

/// Relies on git2::Repository::discover: opens the repository at this
/// path or at the nearest ancestor that holds one.
#[verifier::external_body]
pub(crate) fn repo_discover(path: &str) -> Result<git2::Repository, String> {
    git2::Repository::discover(path).map_err(|err| err.to_string())
}

/// Relies on git2::Repository::workdir: the working directory of a
/// non-bare repository, `None` for a bare one.
#[verifier::external_body]
pub(crate) fn repo_workdir_path(repo: &git2::Repository) -> Option<String> {
    repo.workdir().map(|p| p.to_string_lossy().to_string())
}

/// Relies on git2::Repository::head: the reference HEAD points at.
#[verifier::external_body]
pub(crate) fn repo_head<'a>(repo: &'a git2::Repository) -> Result<git2::Reference<'a>, String> {
    repo.head().map_err(|err| err.to_string())
}

/// Relies on git2::Repository::is_bare.
#[verifier::external_body]
pub(crate) fn repo_is_bare(repo: &git2::Repository) -> bool {
    repo.is_bare()
}

/// Relies on git2::Repository::head_detached.
#[verifier::external_body]
pub(crate) fn repo_head_detached(repo: &git2::Repository) -> Result<bool, String> {
    repo.head_detached().map_err(|err| err.to_string())
}

/// Relies on git2::Reference::shorthand: the short name of the
/// reference, `None` when it is not valid utf-8.
#[verifier::external_body]
pub(crate) fn ref_shorthand(reference: &git2::Reference<'_>) -> Option<String> {
    reference.shorthand().ok().map(|s| s.to_string())
}

/// Relies on git2::Reference::name: the full name of the reference,
/// `None` when it is not valid utf-8.
#[verifier::external_body]
pub(crate) fn ref_name(reference: &git2::Reference<'_>) -> Option<String> {
    reference.name().ok().map(|s| s.to_string())
}

/// Relies on git2::Reference::target and git2::Oid's hex rendering: the
/// object id a direct reference points at.
#[verifier::external_body]
pub(crate) fn ref_target_id(reference: &git2::Reference<'_>) -> Option<String> {
    reference.target().map(|oid| oid.to_string())
}

/// Relies on git2::Reference::symbolic_target: the full name a symbolic
/// reference points at.
#[verifier::external_body]
pub(crate) fn ref_symbolic_target(reference: &git2::Reference<'_>) -> Option<String> {
    match reference.symbolic_target() {
        Ok(Some(target)) => Some(target.to_string()),
        Ok(None) => None,
        Err(_) => None,
    }
}

/// Relies on git2::Reference::peel_to_commit.
#[verifier::external_body]
pub(crate) fn ref_peel_to_commit<'a>(reference: &git2::Reference<'a>) -> Result<
    git2::Commit<'a>,
    String,
> {
    reference.peel_to_commit().map_err(|err| err.to_string())
}

/// Relies on git2::Reference::delete: removes the reference from the
/// repository.
#[verifier::external_body]
pub(crate) fn ref_delete(reference: &mut git2::Reference<'_>) -> Result<(), String> {
    reference.delete().map_err(|err| err.to_string())
}

/// Relies on git2::Repository::find_reference.
#[verifier::external_body]
pub(crate) fn repo_find_reference<'a>(repo: &'a git2::Repository, name: &str) -> Result<
    git2::Reference<'a>,
    String,
> {
    repo.find_reference(name).map_err(|err| err.to_string())
}

/// Relies on git2::Repository::branch: creates a branch named `name` at
/// `target`, without forcing.
#[verifier::external_body]
pub(crate) fn repo_branch_create(
    repo: &git2::Repository,
    name: &str,
    target: &git2::Commit<'_>,
) -> Result<(), String> {
    repo.branch(name, target, false).map(|_| ()).map_err(|err| err.to_string())
}

/// Relies on git2::Repository::revparse_single: resolves a revision
/// spec to the single object it names.
#[verifier::external_body]
pub(crate) fn repo_revparse_object<'a>(repo: &'a git2::Repository, spec: &str) -> Result<
    git2::Object<'a>,
    String,
> {
    repo.revparse_single(spec).map_err(|err| err.to_string())
}

/// Relies on git2::Object::peel_to_commit.
#[verifier::external_body]
pub(crate) fn object_peel_to_commit<'a>(object: &git2::Object<'a>) -> Result<
    git2::Commit<'a>,
    String,
> {
    object.peel_to_commit().map_err(|err| err.to_string())
}

/// Relies on git2::Repository::reset with ResetType::Hard: moves HEAD,
/// index and working tree to `target`.
#[verifier::external_body]
pub(crate) fn repo_reset_hard(repo: &git2::Repository, target: &git2::Object<'_>) -> Result<
    (),
    String,
> {
    repo.reset(target, git2::ResetType::Hard, None).map_err(|err| err.to_string())
}

/// Relies on git2::Repository::graph_ahead_behind and git2::Commit::id:
/// how many commits `local` is ahead of and behind `upstream`.
#[verifier::external_body]
pub(crate) fn repo_graph_ahead_behind(
    repo: &git2::Repository,
    local: &git2::Commit<'_>,
    upstream: &git2::Commit<'_>,
) -> Result<(usize, usize), String> {
    repo.graph_ahead_behind(local.id(), upstream.id()).map_err(|err| err.to_string())
}

/// Relies on git2::Repository::statuses, git2::StatusEntry::path and
/// git2::Status's raw bits (libgit2's git_status_t): lists each status
/// entry as its path (empty when not utf-8) and its status word. The
/// three flags fill git2::StatusOptions the same way.
#[verifier::external_body]
pub(crate) fn repo_statuses_raw(
    repo: &git2::Repository,
    include_untracked: bool,
    recurse_untracked: bool,
    include_ignored: bool,
) -> Result<Vec<(String, u32)>, String> {
    let mut options = git2::StatusOptions::new();
    options
        .include_untracked(include_untracked)
        .recurse_untracked_dirs(recurse_untracked)
        .include_ignored(include_ignored);
    let statuses = repo.statuses(Some(&mut options)).map_err(|err| err.to_string())?;
    Ok(
        statuses.iter().map(
            |entry| (entry.path().unwrap_or("").to_string(), entry.status().bits()),
        ).collect(),
    )
}

/// Relies on git2::Repository::statuses with default options and
/// git2::Statuses::is_empty: whether the working tree reports no
/// status entry at all.
#[verifier::external_body]
pub(crate) fn repo_statuses_is_empty(repo: &git2::Repository) -> Result<bool, String> {
    repo.statuses(None).map(|statuses| statuses.is_empty()).map_err(|err| err.to_string())
}

/// Relies on git2::Repository::worktrees: the names of the registered
/// linked worktrees, skipping names that are not valid utf-8.
#[verifier::external_body]
pub(crate) fn repo_worktree_names(repo: &git2::Repository) -> Result<Vec<String>, String> {
    let names = repo.worktrees().map_err(|err| err.to_string())?;
    Ok(names.iter().filter_map(|name| name.ok().flatten().map(|n| n.to_string())).collect())
}

/// Relies on git2::Repository::find_worktree.
#[verifier::external_body]
pub(crate) fn repo_find_worktree(repo: &git2::Repository, name: &str) -> Result<
    git2::Worktree,
    String,
> {
    repo.find_worktree(name).map_err(|err| err.to_string())
}

/// Relies on git2::Worktree::open_from_repository.
#[verifier::external_body]
pub(crate) fn worktree_open_from_repository(repo: &git2::Repository) -> Result<
    git2::Worktree,
    String,
> {
    git2::Worktree::open_from_repository(repo).map_err(|err| err.to_string())
}

/// Relies on git2::Worktree::path.
#[verifier::external_body]
pub(crate) fn worktree_path_string(worktree: &git2::Worktree) -> String {
    worktree.path().to_string_lossy().to_string()
}

/// Relies on git2::Worktree::is_locked: whether the worktree registry
/// marks it locked.
#[verifier::external_body]
pub(crate) fn worktree_is_locked(worktree: &git2::Worktree) -> bool {
    matches!(worktree.is_locked(), Ok(git2::WorktreeLockStatus::Locked(_)))
}

/// Relies on git2::Worktree::is_prunable with default prune options.
#[verifier::external_body]
pub(crate) fn worktree_is_prunable(worktree: &git2::Worktree) -> bool {
    let mut options = git2::WorktreePruneOptions::new();
    worktree.is_prunable(Some(&mut options)).unwrap_or(false)
}

/// Relies on git2::Worktree::prune and git2::WorktreePruneOptions: the
/// three flags fill the options the same way.
#[verifier::external_body]
pub(crate) fn worktree_prune(
    worktree: &git2::Worktree,
    valid: bool,
    working_tree: bool,
    locked: bool,
) -> Result<(), String> {
    let mut options = git2::WorktreePruneOptions::new();
    options.valid(valid).working_tree(working_tree).locked(locked);
    worktree.prune(Some(&mut options)).map_err(|err| err.to_string())
}

/// Relies on git2::Repository::worktree and git2::WorktreeAddOptions:
/// registers a worktree named `name` at `path`, checked out at
/// `reference`.
#[verifier::external_body]
pub(crate) fn repo_worktree_add(
    repo: &git2::Repository,
    name: &str,
    path: &str,
    reference: &git2::Reference<'_>,
) -> Result<(), String> {
    let mut options = git2::WorktreeAddOptions::new();
    options.reference(Some(reference));
    repo.worktree(name, std::path::Path::new(path), Some(&options))
        .map(|_| ())
        .map_err(|err| err.to_string())
}

} // verus!
