use forks_core::cache::RepoCache;
use forks_core::gitops::{
    git_branch_exists, git_changed_files, git_create_branch, git_create_worktree,
    git_current_branch, git_current_commit, git_default_branch, git_delete_branch, git_is_repo,
    git_list_worktrees, git_remove_worktree, git_repo_root, git_reset_hard, git_status,
};
use forks_core::jsonout::render_response;
use forks_core::rpc::{active_socket_path, handle_line, RpcState};

fn init_repo_with_commit(path: &std::path::Path) -> git2::Repository {
    let repo = git2::Repository::init(path).unwrap();
    {
        let sig = git2::Signature::now("tester", "tester@example.com").unwrap();
        let tree_id = {
            let mut index = repo.index().unwrap();
            index.write_tree().unwrap()
        };
        let tree = repo.find_tree(tree_id).unwrap();
        repo.commit(Some("HEAD"), &sig, &sig, "initial", &tree, &[]).unwrap();
    }
    repo
}

fn path_string(dir: &tempfile::TempDir) -> String {
    dir.path().to_string_lossy().to_string()
}

#[test]
fn is_repo_round_trip_over_the_protocol() {
    let dir = tempfile::tempdir().unwrap();
    git2::Repository::init(dir.path()).unwrap();
    let mut cache = RepoCache::new();
    let line = format!(
        "{{\"id\":\"1\",\"method\":\"git_is_repo\",\"params\":{{\"path\":\"{}\"}}}}",
        path_string(&dir)
    );
    let out = handle_line(&mut cache, &line).unwrap();
    assert_eq!(out, "{\"id\":\"1\",\"ok\":true,\"result\":true,\"error\":null}");
}

#[test]
fn unparseable_line_answers_under_the_unknown_id() {
    let mut cache = RepoCache::new();
    let out = handle_line(&mut cache, "this is not json").unwrap();
    assert!(out.starts_with("{\"id\":\"unknown\",\"ok\":false,\"result\":null,\"error\":\""));
    assert!(out.ends_with("\"}"));
}

#[test]
fn blank_lines_get_no_response() {
    let mut cache = RepoCache::new();
    assert!(handle_line(&mut cache, "").is_none());
    assert!(handle_line(&mut cache, "   \t ").is_none());
}

#[test]
fn unknown_methods_are_reported() {
    let mut cache = RepoCache::new();
    let out = handle_line(
        &mut cache,
        "{\"id\":\"9\",\"method\":\"git_fetch\",\"params\":{}}",
    )
    .unwrap();
    assert_eq!(out, "{\"id\":\"9\",\"ok\":false,\"result\":null,\"error\":\"unknown_method\"}");
}

#[test]
fn shape_mismatches_are_invalid_params() {
    let mut cache = RepoCache::new();
    // Missing "path" member.
    let out = handle_line(
        &mut cache,
        "{\"id\":\"2\",\"method\":\"git_is_repo\",\"params\":{}}",
    )
    .unwrap();
    assert_eq!(out, "{\"id\":\"2\",\"ok\":false,\"result\":null,\"error\":\"invalid_params\"}");
    // Wrong type for "path".
    let out = handle_line(
        &mut cache,
        "{\"id\":\"3\",\"method\":\"git_is_repo\",\"params\":{\"path\":5}}",
    )
    .unwrap();
    assert_eq!(out, "{\"id\":\"3\",\"ok\":false,\"result\":null,\"error\":\"invalid_params\"}");
    // Params not an object.
    let out = handle_line(
        &mut cache,
        "{\"id\":\"4\",\"method\":\"git_is_repo\",\"params\":null}",
    )
    .unwrap();
    assert_eq!(out, "{\"id\":\"4\",\"ok\":false,\"result\":null,\"error\":\"invalid_params\"}");
}

#[test]
fn diff_round_trip_over_the_protocol() {
    let mut cache = RepoCache::new();
    let line = "{\"id\":\"5\",\"method\":\"diff_unified\",\"params\":{\"original\":\"a\\n\",\"modified\":\"b\\n\"}}";
    let out = handle_line(&mut cache, line).unwrap();
    assert_eq!(
        out,
        "{\"id\":\"5\",\"ok\":true,\"result\":\"--- a\\n+++ b\\n@@ -1 +1 @@\\n-a\\n+b\\n\",\"error\":null}"
    );
}

#[test]
fn responses_escape_their_strings() {
    let out = render_response("a\"b\n", false, &None, &Some("e\\".to_string()));
    assert_eq!(
        out,
        "{\"id\":\"a\\\"b\\n\",\"ok\":false,\"result\":null,\"error\":\"e\\\\\"}"
    );
}

#[test]
fn deleting_the_checked_out_branch_without_force_conflicts() {
    let dir = tempfile::tempdir().unwrap();
    init_repo_with_commit(dir.path());
    let path = path_string(&dir);
    let mut cache = RepoCache::new();
    let current = git_current_branch(&mut cache, &path).unwrap();
    assert!(!current.is_empty());
    let r = git_delete_branch(&path, &current, None);
    assert_eq!(r, Err("cannot delete checked out branch".to_string()));
    // The refused deletion left the references untouched.
    assert_eq!(git_branch_exists(&mut cache, &path, &current), Ok(true));
    assert_eq!(git_current_branch(&mut cache, &path).unwrap(), current);
}

#[test]
fn unmerged_branches_need_force() {
    let dir = tempfile::tempdir().unwrap();
    let repo = init_repo_with_commit(dir.path());
    let path = path_string(&dir);
    let mut cache = RepoCache::new();
    git_create_branch(&path, "feat", &None).unwrap();
    // One extra commit on feat only.
    {
        let sig = git2::Signature::now("tester", "tester@example.com").unwrap();
        let head = repo.head().unwrap().peel_to_commit().unwrap();
        let tree = head.tree().unwrap();
        repo.commit(Some("refs/heads/feat"), &sig, &sig, "second", &tree, &[&head]).unwrap();
    }
    assert_eq!(
        git_delete_branch(&path, "feat", None),
        Err("branch is not fully merged".to_string())
    );
    assert_eq!(git_branch_exists(&mut cache, &path, "feat"), Ok(true));
    assert_eq!(git_delete_branch(&path, "feat", Some(true)), Ok(()));
    assert_eq!(git_branch_exists(&mut cache, &path, "feat"), Ok(false));
}

#[test]
fn merged_branches_delete_without_force() {
    let dir = tempfile::tempdir().unwrap();
    init_repo_with_commit(dir.path());
    let path = path_string(&dir);
    let mut cache = RepoCache::new();
    git_create_branch(&path, "merged", &None).unwrap();
    assert_eq!(git_delete_branch(&path, "merged", None), Ok(()));
    assert_eq!(git_branch_exists(&mut cache, &path, "merged"), Ok(false));
}

#[test]
fn mutating_operations_validate_their_refs_first() {
    let dir = tempfile::tempdir().unwrap();
    init_repo_with_commit(dir.path());
    let path = path_string(&dir);
    let mut cache = RepoCache::new();
    assert_eq!(
        git_create_branch(&path, "-bad", &None),
        Err("invalid ref: starts with dash".to_string())
    );
    assert_eq!(
        git_delete_branch(&path, "a//b", None),
        Err("invalid ref: contains consecutive slashes".to_string())
    );
    assert_eq!(
        git_reset_hard(&path, "a b"),
        Err("invalid ref: contains forbidden character".to_string())
    );
    assert_eq!(
        git_branch_exists(&mut cache, &path, "x.lock"),
        Err("invalid ref: ends with .lock".to_string())
    );
    assert_eq!(
        git_create_branch(&path, "ok-name", &Some("bad~spec".to_string())),
        Err("invalid ref: contains forbidden character".to_string())
    );
}

#[test]
fn repository_queries_agree_with_the_underlying_library() {
    let dir = tempfile::tempdir().unwrap();
    let repo = init_repo_with_commit(dir.path());
    let path = path_string(&dir);
    let mut cache = RepoCache::new();
    assert_eq!(git_is_repo(&path), Ok(true));
    let outside = tempfile::tempdir().unwrap();
    assert_eq!(git_is_repo(&path_string(&outside)), Ok(false));

    let root = git_repo_root(&path).unwrap();
    let canonical = dir.path().canonicalize().unwrap().to_string_lossy().to_string();
    assert_eq!(root.trim_end_matches('/'), canonical);

    let head_id = repo.head().unwrap().target().unwrap().to_string();
    assert_eq!(git_current_commit(&mut cache, &path).unwrap(), head_id);

    // Without an origin, the default branch is the current one.
    let current = git_current_branch(&mut cache, &path).unwrap();
    assert_eq!(git_default_branch(&mut cache, &path).unwrap(), current);
}

#[test]
fn status_listing_reflects_index_and_worktree() {
    let dir = tempfile::tempdir().unwrap();
    let repo = init_repo_with_commit(dir.path());
    let path = path_string(&dir);
    // An untracked file in the working tree.
    let untracked = tempfile::Builder::new()
        .prefix("loose")
        .suffix(".txt")
        .rand_bytes(0)
        .keep(true)
        .tempfile_in(dir.path())
        .unwrap();
    drop(untracked);
    // A file staged in the index with no working-tree copy: the
    // index-new and worktree-deleted bits meet, and deletion wins the
    // priority over addition.
    {
        let mut index = repo.index().unwrap();
        let entry = git2::IndexEntry {
            ctime: git2::IndexTime::new(0, 0),
            mtime: git2::IndexTime::new(0, 0),
            dev: 0,
            ino: 0,
            mode: 0o100644,
            uid: 0,
            gid: 0,
            file_size: 5,
            id: git2::Oid::zero(),
            flags: 0,
            flags_extended: 0,
            path: b"newfile.txt".to_vec(),
        };
        index.add_frombuffer(&entry, b"hello").unwrap();
        index.write().unwrap();
    }
    let entries = git_status(&path).unwrap();
    assert!(entries.iter().any(|e| e.path == "loose.txt" && e.status == "untracked"));
    assert!(entries.iter().any(|e| e.path == "newfile.txt" && e.status == "deleted"));
    let files = git_changed_files(&path).unwrap();
    assert!(files.iter().any(|f| f == "loose.txt"));
    assert!(files.iter().any(|f| f == "newfile.txt"));
}

#[test]
fn worktrees_are_created_listed_and_removed() {
    let dir = tempfile::tempdir().unwrap();
    init_repo_with_commit(dir.path());
    let path = path_string(&dir);
    let holder = tempfile::tempdir().unwrap();
    let wt_path = holder.path().join("wt1").to_string_lossy().to_string();
    git_create_branch(&path, "wtbranch", &None).unwrap();
    git_create_worktree(&path, &wt_path, "wtbranch", false).unwrap();
    let list = git_list_worktrees(&path).unwrap();
    assert_eq!(list.len(), 2);
    assert!(list[1].path.ends_with("wt1"));
    assert_eq!(list[1].branch.as_deref(), Some("wtbranch"));
    assert!(!list[1].bare);
    git_remove_worktree(&wt_path, Some(true)).unwrap();
    let after = git_list_worktrees(&path).unwrap();
    assert_eq!(after.len(), 1);
}

#[test]
fn dirty_worktrees_are_not_removed_without_force() {
    let dir = tempfile::tempdir().unwrap();
    init_repo_with_commit(dir.path());
    let path = path_string(&dir);
    let holder = tempfile::tempdir().unwrap();
    let wt_dir = holder.path().join("wt2");
    let wt_path = wt_dir.to_string_lossy().to_string();
    git_create_branch(&path, "dirtywt", &None).unwrap();
    git_create_worktree(&path, &wt_path, "dirtywt", false).unwrap();
    // An untracked file makes the worktree dirty.
    let loose = tempfile::Builder::new()
        .prefix("loose")
        .suffix(".txt")
        .rand_bytes(0)
        .keep(true)
        .tempfile_in(&wt_dir)
        .unwrap();
    drop(loose);
    assert_eq!(
        git_remove_worktree(&wt_path, None),
        Err("worktree has uncommitted changes".to_string())
    );
    assert_eq!(
        git_remove_worktree(&wt_path, Some(false)),
        Err("worktree has uncommitted changes".to_string())
    );
    // The refused removal left the worktree registered.
    assert_eq!(git_list_worktrees(&path).unwrap().len(), 2);
    // Force skips the cleanliness check.
    git_remove_worktree(&wt_path, Some(true)).unwrap();
    assert_eq!(git_list_worktrees(&path).unwrap().len(), 1);
}

#[test]
fn the_socket_path_registers_exactly_once() {
    let mut state = RpcState::new();
    assert_eq!(active_socket_path(&state), None);
    assert_eq!(state.register_socket("/tmp/sock".to_string()), Ok(()));
    assert_eq!(active_socket_path(&state), Some("/tmp/sock".to_string()));
    assert_eq!(
        state.register_socket("/tmp/other".to_string()),
        Err("Git RPC already initialized".to_string())
    );
    assert_eq!(active_socket_path(&state), Some("/tmp/sock".to_string()));
}

#[test]
fn current_branch_round_trip_over_the_protocol() {
    let dir = tempfile::tempdir().unwrap();
    init_repo_with_commit(dir.path());
    let path = path_string(&dir);
    let mut cache = RepoCache::new();
    let current = git_current_branch(&mut cache, &path).unwrap();
    let line = format!(
        "{{\"id\":\"6\",\"method\":\"git_current_branch\",\"params\":{{\"path\":\"{}\"}}}}",
        path
    );
    let out = handle_line(&mut cache, &line).unwrap();
    assert_eq!(
        out,
        format!("{{\"id\":\"6\",\"ok\":true,\"result\":\"{}\",\"error\":null}}", current)
    );
}

#[test]
fn branch_exists_round_trip_over_the_protocol() {
    let dir = tempfile::tempdir().unwrap();
    init_repo_with_commit(dir.path());
    let path = path_string(&dir);
    let mut cache = RepoCache::new();
    git_create_branch(&path, "probe", &None).unwrap();
    let line = format!(
        "{{\"id\":\"7\",\"method\":\"git_branch_exists\",\"params\":{{\"repoPath\":\"{}\",\"branch\":\"probe\"}}}}",
        path
    );
    let out = handle_line(&mut cache, &line).unwrap();
    assert_eq!(out, "{\"id\":\"7\",\"ok\":true,\"result\":true,\"error\":null}");
    let line = format!(
        "{{\"id\":\"8\",\"method\":\"git_branch_exists\",\"params\":{{\"repoPath\":\"{}\",\"branch\":\"absent\"}}}}",
        path
    );
    let out = handle_line(&mut cache, &line).unwrap();
    assert_eq!(out, "{\"id\":\"8\",\"ok\":true,\"result\":false,\"error\":null}");
}

#[test]
fn clean_repository_status_renders_an_empty_array() {
    let dir = tempfile::tempdir().unwrap();
    init_repo_with_commit(dir.path());
    let path = path_string(&dir);
    let mut cache = RepoCache::new();
    let line = format!(
        "{{\"id\":\"s\",\"method\":\"git_status\",\"params\":{{\"repoPath\":\"{}\"}}}}",
        path
    );
    let out = handle_line(&mut cache, &line).unwrap();
    assert_eq!(out, "{\"id\":\"s\",\"ok\":true,\"result\":[],\"error\":null}");
}

#[test]
fn reset_hard_moves_head_back() {
    let dir = tempfile::tempdir().unwrap();
    let repo = init_repo_with_commit(dir.path());
    let path = path_string(&dir);
    let mut cache = RepoCache::new();
    let first = git_current_commit(&mut cache, &path).unwrap();
    // A second commit on the current branch.
    {
        let sig = git2::Signature::now("tester", "tester@example.com").unwrap();
        let head = repo.head().unwrap().peel_to_commit().unwrap();
        let tree = head.tree().unwrap();
        repo.commit(Some("HEAD"), &sig, &sig, "second", &tree, &[&head]).unwrap();
    }
    let mut cache = RepoCache::new();
    let second = git_current_commit(&mut cache, &path).unwrap();
    assert_ne!(first, second);
    git_reset_hard(&path, &first).unwrap();
    let mut cache = RepoCache::new();
    assert_eq!(git_current_commit(&mut cache, &path).unwrap(), first);
}

#[test]
fn create_branch_at_a_start_point() {
    let dir = tempfile::tempdir().unwrap();
    let repo = init_repo_with_commit(dir.path());
    let path = path_string(&dir);
    let mut cache = RepoCache::new();
    let first = git_current_commit(&mut cache, &path).unwrap();
    // Advance HEAD by one commit; the new branch should still point
    // at the named start commit.
    {
        let sig = git2::Signature::now("tester", "tester@example.com").unwrap();
        let head = repo.head().unwrap().peel_to_commit().unwrap();
        let tree = head.tree().unwrap();
        repo.commit(Some("HEAD"), &sig, &sig, "second", &tree, &[&head]).unwrap();
    }
    git_create_branch(&path, "pinned", &Some(first.clone())).unwrap();
    let pinned = repo.find_reference("refs/heads/pinned").unwrap();
    assert_eq!(pinned.target().unwrap().to_string(), first);
}
