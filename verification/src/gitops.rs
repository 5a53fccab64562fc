//! Repository operations: queries over the shared handle cache, and
//! mutations on fresh handles.
//!
//! Query operations read through [`crate::cache::RepoCache`]. Mutating
//! operations open their own handle, so a long-lived cached reference
//! can never conflict with the mutation, and every one of them
//! validates its ref arguments before any call into the git library.

use vstd::prelude::*;

use crate::cache::RepoCache;
use crate::gitext::{
    object_peel_to_commit, ref_delete, ref_name, ref_peel_to_commit, ref_shorthand,
    ref_symbolic_target, ref_target_id, repo_branch_create, repo_discover, repo_find_reference,
    repo_find_worktree, repo_graph_ahead_behind, repo_head, repo_head_detached, repo_is_bare,
    repo_open, repo_reset_hard, repo_revparse_object, repo_statuses_is_empty, repo_statuses_raw,
    repo_workdir_path, repo_worktree_add, repo_worktree_names, worktree_is_locked,
    worktree_is_prunable, worktree_open_from_repository, worktree_path_string, worktree_prune,
};
use crate::host::now_ms;
use crate::refname::{ref_error_msg, ref_name_ok, validate_git_ref};
use crate::status::{kept_statuses, map_status_list, GitStatusEntry};
use crate::strutil::{starts_with, str_eq};

verus! {

/// One worktree in a listing: where it is, what it has checked out,
/// and what the registry knows about it.
pub struct WorktreeInfo {
    pub path: String,
    pub head: String,
    pub branch: Option<String>,
    pub bare: bool,
    pub detached: bool,
    pub locked: bool,
    pub prunable: bool,
}

/// Opens the repository at `path` or at the nearest ancestor holding
/// one, as mutating operations do: on a fresh handle, never through
/// the cache.
pub(crate) fn open_repo_at(path: &str) -> Result<git2::Repository, String> {
    match repo_open(path) {
        Ok(repo) => Ok(repo),
        Err(_) => repo_discover(path),
    }
}

/// The branch HEAD is on: the head reference's short name, unless that
/// is the literal "HEAD", which means detached.
pub(crate) fn branch_from_head(repo: &git2::Repository) -> (r: Option<String>)
    ensures
        r matches Some(b) ==> b@ != "HEAD"@,
{
    let head = match repo_head(repo) {
        Ok(head) => head,
        Err(_) => {
            return None;
        },
    };
    let shorthand = match ref_shorthand(&head) {
        Some(name) => name,
        None => {
            return None;
        },
    };
    if str_eq(shorthand.as_str(), "HEAD") {
        None
    } else {
        Some(shorthand)
    }
}

/// The commit id HEAD points at, or the empty string when HEAD cannot
/// be read or is symbolic only.
pub(crate) fn head_oid_string(repo: &git2::Repository) -> String {
    let head = match repo_head(repo) {
        Ok(head) => head,
        Err(_) => {
            return String::new();
        },
    };
    match ref_target_id(&head) {
        Some(id) => id,
        None => String::new(),
    }
}

/// The worktree entry for one path: opens the repository there and
/// reads its head, branch and shape; lock and prunable state come from
/// the caller, who read them from the registry.
pub(crate) fn worktree_info_for_path(path: &str, locked: bool, prunable: bool) -> (r: Result<
    WorktreeInfo,
    String,
>)
    ensures
        r matches Ok(info) ==> {
            &&& info.path@ =~= path@
            &&& info.locked == locked
            &&& info.prunable == prunable
            &&& info.branch matches Some(b) ==> b@ != "HEAD"@
        },
{
    let repo = repo_open(path)?;
    Ok(
        WorktreeInfo {
            path: path.to_owned(),
            head: head_oid_string(&repo),
            branch: branch_from_head(&repo),
            bare: repo_is_bare(&repo),
            detached: match repo_head_detached(&repo) {
                Ok(detached) => detached,
                Err(_) => false,
            },
            locked,
            prunable,
        },
    )
}

/// `s` with every '/' replaced by '-'.
pub open spec fn slashes_dashed(s: Seq<char>) -> Seq<char> {
    s.map_values(|c: char| if c == '/' { '-' } else { c })
}

/// `s` without its trailing slashes.
pub open spec fn trim_trailing_slashes(s: Seq<char>) -> Seq<char>
    decreases s.len(),
{
    if s.len() == 0 {
        s
    } else if s.last() == '/' {
        trim_trailing_slashes(s.drop_last())
    } else {
        s
    }
}

/// The suffix of `s` after its last '/'; all of `s` when it has none.
pub open spec fn suffix_after_slash(s: Seq<char>) -> Seq<char>
    decreases s.len(),
{
    if s.len() == 0 {
        s
    } else if s.last() == '/' {
        Seq::empty()
    } else {
        suffix_after_slash(s.drop_last()).push(s.last())
    }
}

/// The worktree name taken from a path: its final nonempty
/// slash-separated component, unless the path has none or that
/// component is the `.` or `..` directory link — then the fallback
/// with '/' replaced by '-'.
pub open spec fn worktree_name_spec(path: Seq<char>, fallback: Seq<char>) -> Seq<char> {
    let name = suffix_after_slash(trim_trailing_slashes(path));
    if name.len() == 0 || name =~= "."@ || name =~= ".."@ {
        slashes_dashed(fallback)
    } else {
        name
    }
}

proof fn lemma_trim_is_subrange(s: Seq<char>, end: int)
    requires
        0 <= end <= s.len(),
        forall|j: int| end <= j < s.len() ==> s[j] == '/',
        end == 0 || s[end - 1] != '/',
    ensures
        trim_trailing_slashes(s) =~= s.subrange(0, end),
    decreases s.len(),
{
    if s.len() > end {
        assert(s.last() == '/');
        lemma_trim_is_subrange(s.drop_last(), end);
        assert(s.drop_last().subrange(0, end) =~= s.subrange(0, end));
    } else if s.len() > 0 {
        assert(s.last() != '/');
        assert(s.subrange(0, end) =~= s);
    }
}

proof fn lemma_suffix_is_subrange(s: Seq<char>, begin: int)
    requires
        0 <= begin <= s.len(),
        forall|j: int| begin <= j < s.len() ==> s[j] != '/',
        begin == 0 || s[begin - 1] == '/',
    ensures
        suffix_after_slash(s) =~= s.subrange(begin, s.len() as int),
    decreases s.len(),
{
    if s.len() == 0 {
    } else if s.len() == begin {
        assert(s.last() == '/');
    } else {
        assert(s.last() != '/');
        lemma_suffix_is_subrange(s.drop_last(), begin);
        assert(s.drop_last().subrange(begin, s.len() - 1) =~= s.subrange(begin, s.len() - 1));
        assert(s.subrange(begin, s.len() - 1).push(s.last()) =~= s.subrange(
            begin,
            s.len() as int,
        ));
    }
}

fn dashed_fallback(fallback: &str) -> (r: String)
    ensures
        r@ =~= slashes_dashed(fallback@),
{
    let flen = fallback.unicode_len();
    let mut out = String::new();
    let mut i: usize = 0;
    while i < flen
        invariant
            flen == fallback@.len(),
            0 <= i <= flen,
            out@ =~= slashes_dashed(fallback@).subrange(0, i as int),
        decreases flen - i,
    {
        let c = fallback.get_char(i);
        crate::strutil::push_char(&mut out, if c == '/' { '-' } else { c });
        i += 1;
    }
    proof {
        assert(slashes_dashed(fallback@).subrange(0, flen as int) =~= slashes_dashed(fallback@));
    }
    out
}

/// The name a new worktree gets: the final nonempty component of its
/// path, with the `.` and `..` links skipped into the branch-derived
/// fallback.
pub fn worktree_name_from_path(path: &str, fallback: &str) -> (r: String)
    ensures
        r@ =~= worktree_name_spec(path@, fallback@),
{
    let len = path.unicode_len();
    let mut end: usize = len;
    while end > 0 && path.get_char(end - 1) == '/'
        invariant
            len == path@.len(),
            0 <= end <= len,
            forall|j: int| end <= j < len ==> path@[j] == '/',
        decreases end,
    {
        end -= 1;
    }
    proof {
        lemma_trim_is_subrange(path@, end as int);
    }
    if end == 0 {
        proof {
            assert(trim_trailing_slashes(path@) =~= path@.subrange(0, 0));
            assert(suffix_after_slash(trim_trailing_slashes(path@)).len() == 0);
        }
        return dashed_fallback(fallback);
    }
    let mut begin: usize = end;
    while begin > 0 && path.get_char(begin - 1) != '/'
        invariant
            len == path@.len(),
            0 <= begin <= end <= len,
            forall|j: int| begin <= j < end ==> path@[j] != '/',
        decreases begin,
    {
        begin -= 1;
    }
    let trimmed = path.substring_char(0, end);
    proof {
        assert(forall|j: int| begin <= j < end ==> trimmed@[j] == path@[j]);
        lemma_suffix_is_subrange(trimmed@, begin as int);
    }
    let name = trimmed.substring_char(begin, end);
    if str_eq(name, ".") || str_eq(name, "..") {
        return dashed_fallback(fallback);
    }
    name.to_owned()
}

/// Whether `path` lies in a repository (itself or through an
/// ancestor). Never fails: a path outside any repository yields
/// `Ok(false)`.
pub fn git_is_repo(path: &str) -> (r: Result<bool, String>)
    ensures
        r is Ok,
{
    match repo_discover(path) {
        Ok(_) => Ok(true),
        Err(_) => Ok(false),
    }
}

/// The working directory of the repository `path` lies in; an error
/// for a bare repository.
pub fn git_repo_root(path: &str) -> Result<String, String> {
    let repo = repo_discover(path)?;
    match repo_workdir_path(&repo) {
        Some(root) => Ok(root),
        None => Err(String::from_str("repository has no working directory")),
    }
}

/// The default branch name derived from what the repository offers:
/// the symbolic target of origin's HEAD with its remote prefix
/// stripped, else the branch HEAD is on, else "main".
pub open spec fn default_branch_spec(
    origin_target: Option<Seq<char>>,
    head_branch: Option<Seq<char>>,
) -> Seq<char> {
    match origin_target {
        Some(t) => {
            if "refs/remotes/origin/"@.len() <= t.len() && t.subrange(
                0,
                "refs/remotes/origin/"@.len() as int,
            ) =~= "refs/remotes/origin/"@ {
                t.subrange("refs/remotes/origin/"@.len() as int, t.len() as int)
            } else {
                t
            }
        },
        None => match head_branch {
            Some(b) => b,
            None => "main"@,
        },
    }
}

/// The pure choice of default branch name from the two observations.
pub fn default_branch_from(origin_target: Option<String>, head_branch: Option<String>) -> (r:
    String)
    ensures
        r@ =~= default_branch_spec(
            match origin_target {
                Some(t) => Some(t@),
                None => None,
            },
            match head_branch {
                Some(b) => Some(b@),
                None => None,
            },
        ),
{
    proof {
        reveal_strlit("refs/remotes/origin/");
    }
    match origin_target {
        Some(target) => {
            if starts_with(target.as_str(), "refs/remotes/origin/") {
                let plen = "refs/remotes/origin/".unicode_len();
                let tlen = target.as_str().unicode_len();
                target.as_str().substring_char(plen, tlen).to_owned()
            } else {
                target
            }
        },
        None => match head_branch {
            Some(branch) => branch,
            None => String::from_str("main"),
        },
    }
}

/// The default branch of the repository at `repo_path`: prefers the
/// symbolic target of `refs/remotes/origin/HEAD`, then the current
/// branch, then "main".
pub fn git_default_branch(cache: &mut RepoCache, repo_path: &str) -> (r: Result<String, String>)
    requires
        old(cache).wf(),
    ensures
        final(cache).wf(),
{
    let now = now_ms();
    let at = cache.get_or_open(repo_path, now)?;
    let repo = cache.repo_at(at);
    let origin_target = match repo_find_reference(repo, "refs/remotes/origin/HEAD") {
        Ok(reference) => ref_symbolic_target(&reference),
        Err(_) => None,
    };
    let head_branch = branch_from_head(repo);
    Ok(default_branch_from(origin_target, head_branch))
}

/// The branch HEAD is on in the repository at `path`; the empty string
/// when HEAD is detached or unreadable.
pub fn git_current_branch(cache: &mut RepoCache, path: &str) -> (r: Result<String, String>)
    requires
        old(cache).wf(),
    ensures
        final(cache).wf(),
        r matches Ok(b) ==> b@ != "HEAD"@,
{
    let now = now_ms();
    let at = cache.get_or_open(path, now)?;
    let repo = cache.repo_at(at);
    proof {
        reveal_strlit("HEAD");
    }
    match branch_from_head(repo) {
        Some(branch) => Ok(branch),
        None => {
            let empty = String::new();
            assert(empty@ =~= Seq::<char>::empty());
            assert(empty@ != "HEAD"@);
            Ok(empty)
        },
    }
}

/// Whether the branch exists in the repository at `repo_path`. The
/// name is validated first; a malformed name is rejected with its
/// validation error before anything is looked up.
pub fn git_branch_exists(cache: &mut RepoCache, repo_path: &str, branch: &str) -> (r: Result<
    bool,
    String,
>)
    requires
        old(cache).wf(),
    ensures
        final(cache).wf(),
        !ref_name_ok(branch@) ==> (r matches Err(e) && e@ =~= ref_error_msg(branch@)),
        !ref_name_ok(branch@) ==> final(cache).model() == old(cache).model(),
{
    validate_git_ref(branch)?;
    let now = now_ms();
    let at = cache.get_or_open(repo_path, now)?;
    let repo = cache.repo_at(at);
    let ref_name = String::from_str("refs/heads/").concat(branch);
    match repo_find_reference(repo, ref_name.as_str()) {
        Ok(_) => Ok(true),
        Err(_) => Ok(false),
    }
}

/// The commit id HEAD points at in the repository at `repo_path`; an
/// error when HEAD is unborn.
pub fn git_current_commit(cache: &mut RepoCache, repo_path: &str) -> (r: Result<String, String>)
    requires
        old(cache).wf(),
    ensures
        final(cache).wf(),
{
    let now = now_ms();
    let at = cache.get_or_open(repo_path, now)?;
    let repo = cache.repo_at(at);
    let head = repo_head(repo)?;
    match ref_target_id(&head) {
        Some(id) => Ok(id),
        None => Err(String::from_str("HEAD is unborn")),
    }
}

/// Whether `es` is exactly the view of the mapped status listing `m`.
pub open spec fn entries_match(es: Seq<GitStatusEntry>, m: Seq<(Seq<char>, Seq<char>)>) -> bool {
    &&& es.len() == m.len()
    &&& forall|i: int|
        0 <= i < es.len() ==> (#[trigger] es[i]).path@ =~= m[i].0 && es[i].status@ =~= m[i].1
}

/// The status listing of the repository at `repo_path`: untracked
/// files included and recursed, ignored files left out, every entry
/// labelled by the fixed kind priority.
pub fn git_status(repo_path: &str) -> (r: Result<Vec<GitStatusEntry>, String>)
    ensures
        r matches Ok(es) ==> exists|raw: Seq<(Seq<char>, u32)>| entries_match(
            es@,
            kept_statuses(raw),
        ),
{
    let repo = open_repo_at(repo_path)?;
    let raw = repo_statuses_raw(&repo, true, true, false)?;
    let entries = map_status_list(&raw);
    proof {
        let ghost raw_model = raw@.map_values(|e: (String, u32)| (e.0@, e.1));
        assert(entries_match(entries@, kept_statuses(raw_model)));
    }
    Ok(entries)
}

/// The paths of the status listing, in the same order.
pub fn git_changed_files(repo_path: &str) -> (r: Result<Vec<String>, String>)
    ensures
        r matches Ok(ps) ==> exists|raw: Seq<(Seq<char>, u32)>|
            ps@.len() == (#[trigger] kept_statuses(raw)).len() && (forall|i: int|
                0 <= i < ps@.len() ==> (#[trigger] ps@[i])@ =~= kept_statuses(raw)[i].0),
{
    let entries = match git_status(repo_path) {
        Ok(entries) => entries,
        Err(err) => {
            return Err(err);
        },
    };
    let ghost raw = choose|raw: Seq<(Seq<char>, u32)>| entries_match(entries@, kept_statuses(raw));
    let mut paths: Vec<String> = Vec::new();
    let mut i: usize = 0;
    while i < entries.len()
        invariant
            entries_match(entries@, kept_statuses(raw)),
            0 <= i <= entries@.len(),
            paths@.len() == i,
            forall|j: int| 0 <= j < i ==> (#[trigger] paths@[j])@ =~= kept_statuses(raw)[j].0,
        decreases entries@.len() - i,
    {
        paths.push(entries[i].path.clone());
        i += 1;
    }
    Ok(paths)
}

/// Creates `branch` at the commit HEAD points at, without forcing.
pub(crate) fn create_branch_at_head(repo: &git2::Repository, branch: &str) -> Result<(), String> {
    let head = repo_head(repo)?;
    let commit = ref_peel_to_commit(&head)?;
    repo_branch_create(repo, branch, &commit)
}

/// Resolves a revision spec to the commit it names.
pub(crate) fn resolve_commit<'a>(repo: &'a git2::Repository, revspec: &str) -> Result<
    git2::Commit<'a>,
    String,
> {
    let object = repo_revparse_object(repo, revspec)?;
    object_peel_to_commit(&object)
}

/// Whether the worktree at `path` reports no status entry at all.
pub(crate) fn worktree_is_clean(path: &str) -> Result<bool, String> {
    let repo = repo_open(path)?;
    repo_statuses_is_empty(&repo)
}

/// The removal rule: without force the working tree must be clean;
/// force removes unconditionally.
pub open spec fn remove_worktree_allowed(force: Option<bool>, clean: bool) -> bool {
    force == Some(true) || clean
}

/// Gates a worktree removal on the cleanliness check: it passes
/// exactly when force is given or the tree is clean, and refuses
/// with the dirty-tree conflict otherwise.
pub fn remove_worktree_gate(force: Option<bool>, clean: bool) -> (r: Result<(), String>)
    ensures
        r is Ok <==> remove_worktree_allowed(force, clean),
        r matches Err(e) ==> e@ =~= "worktree has uncommitted changes"@,
{
    let forced = match force {
        Some(f) => f,
        None => false,
    };
    if forced || clean {
        Ok(())
    } else {
        Err(String::from_str("worktree has uncommitted changes"))
    }
}

/// The flags a prune gets: always a valid, working-tree prune;
/// locked worktrees go only under force.
pub fn prune_flags(force: Option<bool>) -> (r: (bool, bool, bool))
    ensures
        r.0 == true,
        r.1 == true,
        r.2 <==> force == Some(true),
{
    let forced = match force {
        Some(f) => f,
        None => false,
    };
    (true, true, forced)
}

/// Creates a branch in the repository at `repo_path`, at `start_point`
/// when one is given, else at HEAD. Both names are validated before
/// anything is opened.
pub fn git_create_branch(repo_path: &str, branch: &str, start_point: &Option<String>) -> (r:
    Result<(), String>)
    ensures
        !ref_name_ok(branch@) ==> (r matches Err(e) && e@ =~= ref_error_msg(branch@)),
        (ref_name_ok(branch@) && (*start_point matches Some(sp) && !ref_name_ok(sp@))) ==> (
        r matches Err(e) && e@ =~= ref_error_msg(start_point->Some_0@)),
{
    validate_git_ref(branch)?;
    match start_point {
        Some(sp) => {
            validate_git_ref(sp.as_str())?;
        },
        None => {},
    }
    let repo = open_repo_at(repo_path)?;
    match start_point {
        Some(sp) => {
            let commit = resolve_commit(&repo, sp.as_str())?;
            repo_branch_create(&repo, branch, &commit)
        },
        None => {
            let head = repo_head(&repo)?;
            let commit = ref_peel_to_commit(&head)?;
            repo_branch_create(&repo, branch, &commit)
        },
    }
}

/// Lists the worktrees of the repository at `repo_path`: the primary
/// working directory first when there is one, then every registered
/// linked worktree with its lock and prunable state.
pub fn git_list_worktrees(repo_path: &str) -> (r: Result<Vec<WorktreeInfo>, String>)
    ensures
        r matches Ok(ws) ==> forall|i: int|
            0 <= i < ws@.len() ==> ((#[trigger] ws@[i]).branch matches Some(b) ==> b@
                != "HEAD"@),
{
    let repo = open_repo_at(repo_path)?;
    let mut worktrees: Vec<WorktreeInfo> = Vec::new();
    match repo_workdir_path(&repo) {
        Some(workdir) => {
            let info = worktree_info_for_path(workdir.as_str(), false, false)?;
            worktrees.push(info);
        },
        None => {},
    }
    let names = repo_worktree_names(&repo)?;
    let mut i: usize = 0;
    while i < names.len()
        invariant
            forall|j: int|
                0 <= j < worktrees@.len() ==> ((#[trigger] worktrees@[j]).branch matches Some(b)
                    ==> b@ != "HEAD"@),
        decreases names@.len() - i,
    {
        let worktree = repo_find_worktree(&repo, names[i].as_str())?;
        let locked = worktree_is_locked(&worktree);
        let prunable = worktree_is_prunable(&worktree);
        let wt_path = worktree_path_string(&worktree);
        let info = worktree_info_for_path(wt_path.as_str(), locked, prunable)?;
        worktrees.push(info);
        i += 1;
    }
    Ok(worktrees)
}

/// Registers a worktree at `path` checked out at `branch`, creating
/// the branch at HEAD first when asked to. The worktree is named after
/// the final component of `path`, with the branch as fallback.
pub fn git_create_worktree(repo_path: &str, path: &str, branch: &str, create_branch: bool) -> (r:
    Result<(), String>)
    ensures
        !ref_name_ok(branch@) ==> (r matches Err(e) && e@ =~= ref_error_msg(branch@)),
{
    validate_git_ref(branch)?;
    let repo = open_repo_at(repo_path)?;
    if create_branch {
        create_branch_at_head(&repo, branch)?;
    }
    let ref_full = String::from_str("refs/heads/").concat(branch);
    let reference = repo_find_reference(&repo, ref_full.as_str())?;
    let name = worktree_name_from_path(path, branch);
    repo_worktree_add(&repo, name.as_str(), path, &reference)
}

/// Removes the worktree at `worktree_path`. Without force the
/// working tree must be clean — zero status entries — before the
/// prune, a rule [`remove_worktree_gate`] fixes; force skips the
/// check and prunes even a locked worktree. What the prune is told
/// is fixed by [`prune_flags`].
pub fn git_remove_worktree(worktree_path: &str, force: Option<bool>) -> Result<(), String> {
    let repo = repo_discover(worktree_path)?;
    let worktree = worktree_open_from_repository(&repo)?;
    let forced = match force {
        Some(f) => f,
        None => false,
    };
    if !forced {
        let clean = worktree_is_clean(worktree_path)?;
        remove_worktree_gate(force, clean)?;
    }
    let flags = prune_flags(force);
    worktree_prune(&worktree, flags.0, flags.1, flags.2)
}

/// What a branch deletion may do, given what has been observed.
#[derive(PartialEq, Eq, Structural)]
pub enum DeleteBranchDecision {
    /// Nothing blocks the deletion.
    Proceed,
    /// The branch is checked out and force was not given.
    RefuseCheckedOut,
    /// The branch has commits HEAD lacks and force was not given.
    RefuseUnmerged,
}

/// The deletion rule: force bypasses every check; without it a
/// checked-out branch is refused before anything else, then a branch
/// ahead of HEAD is refused as unmerged.
pub open spec fn delete_decision_spec(
    force: bool,
    checked_out: bool,
    ahead: nat,
) -> DeleteBranchDecision {
    if force {
        DeleteBranchDecision::Proceed
    } else if checked_out {
        DeleteBranchDecision::RefuseCheckedOut
    } else if ahead > 0 {
        DeleteBranchDecision::RefuseUnmerged
    } else {
        DeleteBranchDecision::Proceed
    }
}

/// Decides what a branch deletion may do.
pub fn delete_branch_decision(force: bool, checked_out: bool, ahead: usize) -> (r:
    DeleteBranchDecision)
    ensures
        r == delete_decision_spec(force, checked_out, ahead as nat),
{
    if force {
        DeleteBranchDecision::Proceed
    } else if checked_out {
        DeleteBranchDecision::RefuseCheckedOut
    } else if ahead > 0 {
        DeleteBranchDecision::RefuseUnmerged
    } else {
        DeleteBranchDecision::Proceed
    }
}

/// Deleting the currently checked-out branch without force is always
/// refused with the checked-out conflict, whatever the commit graph
/// says.
pub proof fn lemma_delete_checked_out_always_refused(ahead: nat)
    ensures
        delete_decision_spec(false, true, ahead) == DeleteBranchDecision::RefuseCheckedOut,
{
}

/// Deletes `branch` in the repository at `repo_path`. The name is
/// validated first. Force deletes unconditionally; without force a
/// checked-out branch is refused, then a branch with commits HEAD
/// lacks is refused as not fully merged.
pub fn git_delete_branch(repo_path: &str, branch: &str, force: Option<bool>) -> (r: Result<
    (),
    String,
>)
    ensures
        !ref_name_ok(branch@) ==> (r matches Err(e) && e@ =~= ref_error_msg(branch@)),
{
    validate_git_ref(branch)?;
    let repo = open_repo_at(repo_path)?;
    let ref_full = String::from_str("refs/heads/").concat(branch);
    let mut reference = repo_find_reference(&repo, ref_full.as_str())?;
    let forced = match force {
        Some(f) => f,
        None => false,
    };
    if forced {
        return ref_delete(&mut reference);
    }
    let head = repo_head(&repo)?;
    let head_name = ref_name(&head);
    let branch_name = ref_name(&reference);
    let checked_out = match (&head_name, &branch_name) {
        (Some(h), Some(b)) => str_eq(h.as_str(), b.as_str()),
        (None, None) => true,
        _ => false,
    };
    match delete_branch_decision(false, checked_out, 0) {
        DeleteBranchDecision::RefuseCheckedOut => {
            return Err(String::from_str("cannot delete checked out branch"));
        },
        _ => {},
    }
    let head_commit = ref_peel_to_commit(&head)?;
    let branch_commit = ref_peel_to_commit(&reference)?;
    let (ahead, _behind) = repo_graph_ahead_behind(&repo, &branch_commit, &head_commit)?;
    match delete_branch_decision(false, checked_out, ahead) {
        DeleteBranchDecision::Proceed => ref_delete(&mut reference),
        _ => Err(String::from_str("branch is not fully merged")),
    }
}

/// Hard-resets the repository at `repo_path` to the commit `git_ref`
/// names. The ref is validated first.
pub fn git_reset_hard(repo_path: &str, git_ref: &str) -> (r: Result<(), String>)
    ensures
        !ref_name_ok(git_ref@) ==> (r matches Err(e) && e@ =~= ref_error_msg(git_ref@)),
{
    validate_git_ref(git_ref)?;
    let repo = open_repo_at(repo_path)?;
    let object = repo_revparse_object(&repo, git_ref)?;
    repo_reset_hard(&repo, &object)
}

} // verus!
