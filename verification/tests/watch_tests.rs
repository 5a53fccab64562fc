use forks_core::watchfilter::{
    default_ignored_dirs, format_event_path, is_allowed_git_path, should_emit_path, FilterConfig,
};
use forks_core::watchwork::{
    canonicalize_absolute, clamp_debounce, collect_event, flush_events, git_watch_paths,
    kind_label, parse_gitdir_pointer, resolve_gitdir_target, FsEvent, FsEventKind,
    WatchAccumulator, WatchRegistry, WorkerConfig,
};

fn test_filter() -> FilterConfig {
    FilterConfig {
        worktree_path: "/w".to_string(),
        git_dir: Some("/w/.git".to_string()),
        ignored_dirs: default_ignored_dirs(),
    }
}

fn test_config() -> WorkerConfig {
    WorkerConfig {
        watch_id: "1".to_string(),
        repo_root_display: "/w".to_string(),
        worktree_display: "/w".to_string(),
        attempt_id: Some("attempt-7".to_string()),
        debounce_ms: 150,
        filter: test_filter(),
    }
}

#[test]
fn debounce_is_clamped_to_its_bounds() {
    assert_eq!(clamp_debounce(0), 50);
    assert_eq!(clamp_debounce(49), 50);
    assert_eq!(clamp_debounce(50), 50);
    assert_eq!(clamp_debounce(150), 150);
    assert_eq!(clamp_debounce(2000), 2000);
    assert_eq!(clamp_debounce(9999), 2000);
}

#[test]
fn kind_labels_are_fixed() {
    assert_eq!(kind_label(&FsEventKind::Create), "create");
    assert_eq!(kind_label(&FsEventKind::Modify), "modify");
    assert_eq!(kind_label(&FsEventKind::Remove), "remove");
    assert_eq!(kind_label(&FsEventKind::Access), "access");
    assert_eq!(kind_label(&FsEventKind::Any), "any");
    assert_eq!(kind_label(&FsEventKind::Other), "other");
}

#[test]
fn the_default_ignored_set_is_fixed() {
    let dirs = default_ignored_dirs();
    assert_eq!(
        dirs,
        vec![
            ".git",
            "node_modules",
            "dist",
            "build",
            "target",
            ".turbo",
            ".context",
            ".tauri",
            ".next",
            "out",
            "coverage",
            ".cache",
        ]
    );
}

#[test]
fn ignored_directories_are_filtered() {
    let filter = test_filter();
    assert!(should_emit_path("/w/src/main.rs", &filter));
    assert!(!should_emit_path("/w/node_modules/pkg/index.js", &filter));
    assert!(!should_emit_path("/w/a/target/debug/bin", &filter));
    assert!(!should_emit_path("/w/.cache/x", &filter));
    // Outside the worktree, plain paths still pass unless ignored.
    assert!(should_emit_path("/elsewhere/file", &filter));
}

#[test]
fn git_metadata_only_passes_the_allowed_paths() {
    let filter = test_filter();
    assert!(should_emit_path("/w/.git/HEAD", &filter));
    assert!(should_emit_path("/w/.git/index", &filter));
    assert!(should_emit_path("/w/.git/packed-refs", &filter));
    assert!(should_emit_path("/w/.git/refs/heads/main", &filter));
    assert!(!should_emit_path("/w/.git/objects/ab/cd", &filter));
    assert!(!should_emit_path("/w/.git/COMMIT_EDITMSG", &filter));
    assert!(is_allowed_git_path("/w/.git/refs", "/w/.git"));
    assert!(!is_allowed_git_path("/w/.git/refsx", "/w/.git"));
}

#[test]
fn event_paths_are_rewritten() {
    assert_eq!(format_event_path("/w/src/a.rs", "/w", None), "src/a.rs");
    assert_eq!(
        format_event_path("/w/.git/HEAD", "/x", Some(&"/w/.git".to_string())),
        ".git/HEAD"
    );
    assert_eq!(format_event_path("/w", "/w", None), "");
    assert_eq!(format_event_path("/other/f", "/w", None), "/other/f");
}

#[test]
fn a_burst_coalesces_into_one_event() {
    let filter = test_filter();
    let config = test_config();
    let mut acc = WatchAccumulator::new();
    let burst = vec![
        FsEvent { kind: FsEventKind::Create, paths: vec!["/w/src/a.rs".to_string()] },
        FsEvent { kind: FsEventKind::Modify, paths: vec!["/w/src/a.rs".to_string()] },
        FsEvent { kind: FsEventKind::Modify, paths: vec!["/w/node_modules/x".to_string()] },
        FsEvent { kind: FsEventKind::Access, paths: vec!["/w/src/touched".to_string()] },
        FsEvent { kind: FsEventKind::Modify, paths: vec!["/w/.git/HEAD".to_string()] },
        FsEvent { kind: FsEventKind::Remove, paths: vec!["/w/b.txt".to_string()] },
    ];
    for event in &burst {
        collect_event(event, &filter, &mut acc);
    }
    let payload = flush_events(&config, &mut acc).expect("one event for the burst");
    assert_eq!(payload.watch_id, "1");
    assert_eq!(payload.repo_root, "/w");
    assert_eq!(payload.worktree_path, "/w");
    assert_eq!(payload.attempt_id.as_deref(), Some("attempt-7"));
    assert_eq!(payload.paths, vec!["src/a.rs", ".git/HEAD", "b.txt"]);
    assert_eq!(payload.kinds, vec!["create", "modify", "remove"]);
    // The flush drained everything: a second idle window emits nothing.
    assert!(flush_events(&config, &mut acc).is_none());
}

#[test]
fn kinds_survive_even_when_every_path_is_filtered() {
    let filter = test_filter();
    let config = test_config();
    let mut acc = WatchAccumulator::new();
    let event = FsEvent {
        kind: FsEventKind::Modify,
        paths: vec!["/w/node_modules/x".to_string()],
    };
    collect_event(&event, &filter, &mut acc);
    // No surviving path: nothing is emitted and the kind set is dropped.
    assert!(flush_events(&config, &mut acc).is_none());
    let follow_up = FsEvent { kind: FsEventKind::Create, paths: vec!["/w/f".to_string()] };
    collect_event(&follow_up, &filter, &mut acc);
    let payload = flush_events(&config, &mut acc).unwrap();
    assert_eq!(payload.kinds, vec!["create"]);
}

#[test]
fn registry_mints_fresh_ids() {
    let mut registry: WatchRegistry<u32> = WatchRegistry::new();
    let first = registry.add_entry(10);
    let second = registry.add_entry(20);
    assert_eq!(first, "1");
    assert_eq!(second, "2");
    assert_eq!(registry.len(), 2);
    assert_eq!(registry.remove_entry("1"), Ok(10));
    assert_eq!(registry.len(), 1);
    assert_eq!(registry.remove_entry("1"), Err("watch not found".to_string()));
    // Ids are never reused, even after removal.
    let third = registry.add_entry(30);
    assert_eq!(third, "3");
    registry.remove_all();
    assert_eq!(registry.len(), 0);
    let fourth = registry.add_entry(40);
    assert_eq!(fourth, "4");
}

#[test]
fn watch_paths_cover_the_git_metadata() {
    let paths = git_watch_paths("/repo/.git");
    assert_eq!(paths.len(), 4);
    assert_eq!(paths[0], ("/repo/.git/HEAD".to_string(), false));
    assert_eq!(paths[1], ("/repo/.git/index".to_string(), false));
    assert_eq!(paths[2], ("/repo/.git/packed-refs".to_string(), false));
    assert_eq!(paths[3], ("/repo/.git/refs".to_string(), true));
}

#[test]
fn gitdir_pointers_are_parsed_and_resolved() {
    assert_eq!(
        parse_gitdir_pointer("gitdir: /main/.git/worktrees/wt\n"),
        Some("/main/.git/worktrees/wt".to_string())
    );
    assert_eq!(parse_gitdir_pointer("  gitdir:rel/path  "), Some("rel/path".to_string()));
    assert_eq!(parse_gitdir_pointer("ref: refs/heads/main"), None);
    assert_eq!(resolve_gitdir_target("/repo", "/abs/.git"), "/abs/.git");
    assert_eq!(resolve_gitdir_target("/repo", "rel/.git"), "/repo/rel/.git");
}

#[test]
fn watch_path_validation_rejects_blank_and_relative() {
    assert_eq!(canonicalize_absolute("   "), Err("path is required".to_string()));
    assert_eq!(canonicalize_absolute(""), Err("path is required".to_string()));
    assert_eq!(canonicalize_absolute("rel/path"), Err("path must be absolute".to_string()));
    let dir = tempfile::tempdir().unwrap();
    let path = dir.path().to_string_lossy().to_string();
    let canon = canonicalize_absolute(&path).unwrap();
    assert_eq!(canon, dir.path().canonicalize().unwrap().to_string_lossy().to_string());
}
