use forks_core::cache::{RepoCache, REPO_CACHE_MAX_SIZE, REPO_CACHE_TTL_MS};

fn canonical(path: &std::path::Path) -> String {
    path.canonicalize().unwrap().to_string_lossy().to_string()
}

fn make_repo_dir() -> tempfile::TempDir {
    let dir = tempfile::tempdir().unwrap();
    git2::Repository::init(dir.path()).unwrap();
    dir
}

#[test]
fn capacity_plus_one_evicts_the_least_recently_used() {
    let dirs: Vec<tempfile::TempDir> = (0..REPO_CACHE_MAX_SIZE + 1).map(|_| make_repo_dir()).collect();
    let mut cache = RepoCache::new();
    let mut now: u64 = 1_000_000;
    for dir in &dirs {
        let path = dir.path().to_string_lossy().to_string();
        cache.get_or_open(&path, now).unwrap();
        now += 1;
    }
    assert!(cache.len() <= REPO_CACHE_MAX_SIZE);
    // The first path was used least recently and is gone.
    assert!(!cache.contains_key(&canonical(dirs[0].path())));
    // The last path is present.
    assert!(cache.contains_key(&canonical(dirs[dirs.len() - 1].path())));
}

#[test]
fn one_entry_per_canonical_path() {
    let dir = make_repo_dir();
    let path = dir.path().to_string_lossy().to_string();
    let mut cache = RepoCache::new();
    cache.get_or_open(&path, 1000).unwrap();
    cache.get_or_open(&path, 1001).unwrap();
    assert_eq!(cache.len(), 1);
    assert!(cache.contains_key(&canonical(dir.path())));
}

#[test]
fn idle_entries_expire_after_the_ttl() {
    let first = make_repo_dir();
    let second = make_repo_dir();
    let first_path = first.path().to_string_lossy().to_string();
    let second_path = second.path().to_string_lossy().to_string();
    let mut cache = RepoCache::new();
    cache.get_or_open(&first_path, 1000).unwrap();
    cache.get_or_open(&second_path, 1000 + REPO_CACHE_TTL_MS).unwrap();
    assert!(!cache.contains_key(&canonical(first.path())));
    assert!(cache.contains_key(&canonical(second.path())));
}

#[test]
fn entries_used_within_the_ttl_survive() {
    let first = make_repo_dir();
    let second = make_repo_dir();
    let first_path = first.path().to_string_lossy().to_string();
    let second_path = second.path().to_string_lossy().to_string();
    let mut cache = RepoCache::new();
    cache.get_or_open(&first_path, 1000).unwrap();
    cache.get_or_open(&second_path, 1000 + REPO_CACHE_TTL_MS - 1).unwrap();
    assert!(cache.contains_key(&canonical(first.path())));
    assert_eq!(cache.len(), 2);
}

#[test]
fn missing_path_is_an_error_and_is_not_cached() {
    let mut cache = RepoCache::new();
    let r = cache.get_or_open("/surely/not/a/real/directory/anywhere", 1000);
    assert!(r.is_err());
    assert_eq!(cache.len(), 0);
}

#[test]
fn directory_without_repository_is_an_error() {
    // A fresh temporary directory has no repository above it.
    let dir = tempfile::tempdir().unwrap();
    let mut cache = RepoCache::new();
    let path = dir.path().to_string_lossy().to_string();
    let r = cache.get_or_open(&path, 1000);
    assert!(r.is_err());
    assert_eq!(cache.len(), 0);
}
