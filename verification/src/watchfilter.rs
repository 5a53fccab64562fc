//! Path rules of the filesystem-event pipeline: which changed paths a
//! watch reports, and how they are rewritten.
//!
//! Paths are taken as '/'-separated strings, as the native watcher
//! hands them over; the watched roots are canonical and carry no
//! trailing slash.

use vstd::prelude::*;

use crate::strutil::{starts_with, str_eq};

verus! {

/// The directory names whose subtrees a watch ignores.
pub fn default_ignored_dirs() -> (r: Vec<String>)
    ensures
        r@.len() == 12,
        r@[0]@ =~= ".git"@,
        r@[1]@ =~= "node_modules"@,
        r@[2]@ =~= "dist"@,
        r@[3]@ =~= "build"@,
        r@[4]@ =~= "target"@,
        r@[5]@ =~= ".turbo"@,
        r@[6]@ =~= ".context"@,
        r@[7]@ =~= ".tauri"@,
        r@[8]@ =~= ".next"@,
        r@[9]@ =~= "out"@,
        r@[10]@ =~= "coverage"@,
        r@[11]@ =~= ".cache"@,
{
    let mut dirs: Vec<String> = Vec::new();
    dirs.push(String::from_str(".git"));
    dirs.push(String::from_str("node_modules"));
    dirs.push(String::from_str("dist"));
    dirs.push(String::from_str("build"));
    dirs.push(String::from_str("target"));
    dirs.push(String::from_str(".turbo"));
    dirs.push(String::from_str(".context"));
    dirs.push(String::from_str(".tauri"));
    dirs.push(String::from_str(".next"));
    dirs.push(String::from_str("out"));
    dirs.push(String::from_str("coverage"));
    dirs.push(String::from_str(".cache"));
    dirs
}

/// What a watch filters with: the worktree root, the git metadata
/// directory when git paths are watched too, and the ignored names.
pub struct FilterConfig {
    pub worktree_path: String,
    pub git_dir: Option<String>,
    pub ignored_dirs: Vec<String>,
}

/// `p` equals `base` or continues it at a component boundary.
pub open spec fn path_starts_with(p: Seq<char>, base: Seq<char>) -> bool {
    ||| p =~= base
    ||| (p.len() > base.len() && p.subrange(0, base.len() as int) =~= base && p[base.len() as int]
        == '/')
}

/// `p` relative to `base`: what follows the separating '/', or the
/// empty path when `p` is `base` itself.
pub open spec fn path_rel(p: Seq<char>, base: Seq<char>) -> Seq<char> {
    if p.len() <= base.len() + 1 {
        Seq::empty()
    } else {
        p.subrange(base.len() as int + 1, p.len() as int)
    }
}

/// Whether `p` starts with `base` as a path.
pub fn path_starts_with_exec(p: &str, base: &str) -> (r: bool)
    ensures
        r == path_starts_with(p@, base@),
{
    let plen = p.unicode_len();
    let blen = base.unicode_len();
    if plen == blen {
        str_eq(p, base)
    } else if plen > blen {
        starts_with(p, base) && p.get_char(blen) == '/'
    } else {
        assert(!path_starts_with(p@, base@));
        false
    }
}

/// `p` relative to `base`, for `p` that starts with it.
pub fn path_rel_exec(p: &str, base: &str) -> (r: String)
    requires
        path_starts_with(p@, base@),
    ensures
        r@ =~= path_rel(p@, base@),
{
    let plen = p.unicode_len();
    let blen = base.unicode_len();
    assert(plen >= blen);
    if plen - blen <= 1 {
        String::new()
    } else {
        p.substring_char(blen + 1, plen).to_owned()
    }
}

/// The views of a list of names.
pub open spec fn name_views(names: Seq<String>) -> Seq<Seq<char>> {
    names.map_values(|s: String| s@)
}

/// `name` is one of `names`.
pub open spec fn name_in(names: Seq<Seq<char>>, name: Seq<char>) -> bool {
    exists|k: int| 0 <= k < names.len() && (#[trigger] names[k]) =~= name
}

pub fn name_in_exec(names: &Vec<String>, name: &str) -> (r: bool)
    ensures
        r == name_in(name_views(names@), name@),
{
    let mut k: usize = 0;
    while k < names.len()
        invariant
            0 <= k <= names@.len(),
            forall|j: int| 0 <= j < k ==> !((#[trigger] name_views(names@)[j]) =~= name@),
        decreases names@.len() - k,
    {
        if str_eq(names[k].as_str(), name) {
            assert(name_views(names@)[k as int] =~= name@);
            return true;
        }
        k += 1;
    }
    false
}

/// The characters `[i, j)` of `p` form one '/'-separated component.
pub open spec fn component_at(p: Seq<char>, i: int, j: int) -> bool {
    &&& 0 <= i <= j <= p.len()
    &&& (i == 0 || p[i - 1] == '/')
    &&& (j == p.len() || p[j] == '/')
    &&& forall|k: int| i <= k < j ==> (#[trigger] p[k]) != '/'
}

/// Some component of `p` is one of the ignored names.
pub open spec fn hits_ignored(p: Seq<char>, ignored: Seq<Seq<char>>) -> bool {
    exists|i: int, j: int| component_at(p, i, j) && name_in(ignored, p.subrange(i, j))
}

/// Whether any component of `p` is one of the ignored names.
pub fn hits_ignored_exec(p: &str, ignored: &Vec<String>) -> (r: bool)
    ensures
        r == hits_ignored(p@, name_views(ignored@)),
{
    let len = p.unicode_len();
    let mut i: usize = 0;
    loop
        invariant
            len == p@.len(),
            0 <= i <= len,
            i == 0 || p@[i - 1] == '/',
            forall|a: int, b: int|
                component_at(p@, a, b) && a < i ==> !name_in(
                    name_views(ignored@),
                    p@.subrange(a, b),
                ),
        ensures
            !hits_ignored(p@, name_views(ignored@)),
        decreases len - i,
    {
        let mut j: usize = i;
        while j < len && p.get_char(j) != '/'
            invariant
                len == p@.len(),
                i <= j <= len,
                forall|k: int| i <= k < j ==> (#[trigger] p@[k]) != '/',
            decreases len - j,
        {
            j += 1;
        }
        assert(component_at(p@, i as int, j as int));
        let comp = p.substring_char(i, j);
        if name_in_exec(ignored, comp) {
            return true;
        }
        proof {
            assert(comp@ =~= p@.subrange(i as int, j as int));
            assert forall|a: int, b: int|
                component_at(p@, a, b) && a <= j implies !name_in(
                name_views(ignored@),
                p@.subrange(a, b),
            ) by {
                if a >= i {
                    assert(a == i) by {
                        if a > i {
                            assert(p@[a - 1] == '/');
                        }
                    }
                    assert(b == j) by {
                        if b < j {
                            assert(p@[b] != '/');
                        }
                        if b > j {
                            assert(j < p@.len() && p@[j as int] == '/');
                            assert(p@[j as int] != '/');
                        }
                    }
                }
            }
        }
        if j >= len {
            proof {
                assert forall|a: int, b: int|
                    component_at(p@, a, b) implies !name_in(
                    name_views(ignored@),
                    p@.subrange(a, b),
                ) by {
                    assert(a <= p@.len());
                    if a > j {
                        assert(p@[a - 1] == '/');
                        assert(i <= a - 1 < j || a - 1 >= j);
                        assert(false);
                    }
                }
            }
            break;
        }
        i = j + 1;
    }
    false
}

/// Inside the git metadata directory only these paths matter: the
/// files HEAD, index and packed-refs, and everything under refs/.
pub open spec fn allowed_git_rel(rel: Seq<char>) -> bool {
    ||| rel =~= "HEAD"@
    ||| rel =~= "index"@
    ||| rel =~= "packed-refs"@
    ||| rel =~= "refs"@
    ||| ("refs/"@.len() <= rel.len() && rel.subrange(0, "refs/"@.len() as int) =~= "refs/"@)
}

/// Whether a path under the git directory is one a watch reports.
pub fn is_allowed_git_path(path: &str, git_dir: &str) -> (r: bool)
    requires
        path_starts_with(path@, git_dir@),
    ensures
        r == allowed_git_rel(path_rel(path@, git_dir@)),
{
    let rel = path_rel_exec(path, git_dir);
    let rel_str = rel.as_str();
    str_eq(rel_str, "HEAD") || str_eq(rel_str, "index") || str_eq(rel_str, "packed-refs")
        || str_eq(rel_str, "refs") || starts_with(rel_str, "refs/")
}

/// Which paths a watch reports: under the git metadata directory only
/// the allowed metadata paths; elsewhere everything that has no
/// ignored component.
pub open spec fn should_emit_spec(
    p: Seq<char>,
    git_dir: Option<Seq<char>>,
    ignored: Seq<Seq<char>>,
) -> bool {
    match git_dir {
        Some(g) => {
            if path_starts_with(p, g) {
                allowed_git_rel(path_rel(p, g))
            } else {
                !hits_ignored(p, ignored)
            }
        },
        None => !hits_ignored(p, ignored),
    }
}

/// Whether the watch reports a change of `path`.
pub fn should_emit_path(path: &str, filter: &FilterConfig) -> (r: bool)
    ensures
        r == should_emit_spec(
            path@,
            match filter.git_dir {
                Some(g) => Some(g@),
                None => None,
            },
            name_views(filter.ignored_dirs@),
        ),
{
    match &filter.git_dir {
        Some(git_dir) => {
            if path_starts_with_exec(path, git_dir.as_str()) {
                return is_allowed_git_path(path, git_dir.as_str());
            }
        },
        None => {},
    }
    !hits_ignored_exec(path, &filter.ignored_dirs)
}

/// How a reported path is written: relative to the worktree root when
/// under it, as `.git/<relative>` when under the git directory, else
/// as it came.
pub open spec fn format_path_spec(
    p: Seq<char>,
    worktree: Seq<char>,
    git_dir: Option<Seq<char>>,
) -> Seq<char> {
    if path_starts_with(p, worktree) {
        path_rel(p, worktree)
    } else {
        match git_dir {
            Some(g) => {
                if path_starts_with(p, g) {
                    ".git/"@ + path_rel(p, g)
                } else {
                    p
                }
            },
            None => p,
        }
    }
}

/// Rewrites a reported path for the emitted event.
pub fn format_event_path(path: &str, worktree_path: &str, git_dir: Option<&String>) -> (r: String)
    ensures
        r@ =~= format_path_spec(
            path@,
            worktree_path@,
            match git_dir {
                Some(g) => Some(g@),
                None => None,
            },
        ),
{
    if path_starts_with_exec(path, worktree_path) {
        return path_rel_exec(path, worktree_path);
    }
    match git_dir {
        Some(g) => {
            if path_starts_with_exec(path, g.as_str()) {
                let rel = path_rel_exec(path, g.as_str());
                String::from_str(".git/").concat(rel.as_str())
            } else {
                path.to_owned()
            }
        },
        None => path.to_owned(),
    }
}

} // verus!
