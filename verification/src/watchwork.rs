//! The per-watch event pipeline: kind labelling, the bounded
//! accumulator that coalesces a burst of events, the flush that turns
//! it into one emitted change event, and the registry of active
//! watches.
//!
//! The caller owns the blocking loop: it hands every native event to
//! [`collect_event`] and calls [`flush_events`] once when the debounce
//! window passes with no further event, so one aggregated event is
//! emitted per idle period.

use vstd::prelude::*;

use crate::host::canonicalize_path;
use crate::strutil::{dec_str, starts_with, str_eq, u64_to_string};
use crate::tokens::{trim_blank, trim_blank_exec};
use crate::watchfilter::{
    format_event_path, format_path_spec, name_in, name_in_exec, name_views, should_emit_path,
    should_emit_spec, FilterConfig,
};

verus! {

/// The debounce window used when a watch does not choose one.
pub const DEFAULT_DEBOUNCE_MS: u64 = 150;

/// The shortest debounce window a watch can choose.
pub const MIN_DEBOUNCE_MS: u64 = 50;

/// The longest debounce window a watch can choose.
pub const MAX_DEBOUNCE_MS: u64 = 2000;

/// The most paths one window accumulates; further paths in the same
/// window are dropped, the kind set and the emission itself are kept.
pub const MAX_PENDING_PATHS: usize = 10000;

/// The kind of a native filesystem event.
#[derive(PartialEq, Eq, Structural, Clone, Copy, Debug)]
pub enum FsEventKind {
    Create,
    Modify,
    Remove,
    Access,
    Any,
    Other,
}

/// One native filesystem event, as plain values.
pub struct FsEvent {
    pub kind: FsEventKind,
    pub paths: Vec<String>,
}

/// The label an event kind is reported under.
pub open spec fn kind_label_spec(kind: FsEventKind) -> Seq<char> {
    match kind {
        FsEventKind::Create => "create"@,
        FsEventKind::Modify => "modify"@,
        FsEventKind::Remove => "remove"@,
        FsEventKind::Access => "access"@,
        FsEventKind::Any => "any"@,
        FsEventKind::Other => "other"@,
    }
}

/// The label an event kind is reported under.
pub fn kind_label(kind: &FsEventKind) -> (r: &'static str)
    ensures
        r@ == kind_label_spec(*kind),
{
    match kind {
        FsEventKind::Create => "create",
        FsEventKind::Modify => "modify",
        FsEventKind::Remove => "remove",
        FsEventKind::Access => "access",
        FsEventKind::Any => "any",
        FsEventKind::Other => "other",
    }
}

/// Pure access events are dropped; every other kind matters.
pub open spec fn is_relevant_kind_spec(kind: FsEventKind) -> bool {
    !(kind is Access)
}

/// Whether an event of this kind is taken up at all.
pub fn is_relevant_kind(kind: &FsEventKind) -> (r: bool)
    ensures
        r == is_relevant_kind_spec(*kind),
{
    !(matches!(kind, FsEventKind::Access))
}

/// A requested debounce window, held to its bounds.
pub open spec fn clamp_debounce_spec(value: u64) -> u64 {
    if value < MIN_DEBOUNCE_MS {
        MIN_DEBOUNCE_MS
    } else if value > MAX_DEBOUNCE_MS {
        MAX_DEBOUNCE_MS
    } else {
        value
    }
}

/// Holds a requested debounce window to its bounds.
pub fn clamp_debounce(value: u64) -> (r: u64)
    ensures
        r == clamp_debounce_spec(value),
{
    if value < MIN_DEBOUNCE_MS {
        MIN_DEBOUNCE_MS
    } else if value > MAX_DEBOUNCE_MS {
        MAX_DEBOUNCE_MS
    } else {
        value
    }
}

/// What one window has gathered so far: the filtered, rewritten paths
/// (each once, capped) and the kind labels (each once).
pub struct WatchAccumulator {
    pub paths: Vec<String>,
    pub kinds: Vec<String>,
}

impl WatchAccumulator {
    /// The views of the gathered paths, in arrival order.
    pub open spec fn path_views(self) -> Seq<Seq<char>> {
        name_views(self.paths@)
    }

    /// The views of the gathered kind labels, in arrival order.
    pub open spec fn kind_views(self) -> Seq<Seq<char>> {
        name_views(self.kinds@)
    }

    /// An empty accumulator.
    pub fn new() -> (r: WatchAccumulator)
        ensures
            r.path_views() =~= Seq::<Seq<char>>::empty(),
            r.kind_views() =~= Seq::<Seq<char>>::empty(),
    {
        let r = WatchAccumulator { paths: Vec::new(), kinds: Vec::new() };
        proof {
            assert(r.path_views() =~= Seq::<Seq<char>>::empty());
            assert(r.kind_views() =~= Seq::<Seq<char>>::empty());
        }
        r
    }
}

/// `names` with `name` appended, unless it is already there.
pub open spec fn insert_name(names: Seq<Seq<char>>, name: Seq<char>) -> Seq<Seq<char>> {
    if name_in(names, name) {
        names
    } else {
        names.push(name)
    }
}

/// The paths gathered after one event's path list: each path that the
/// filter lets through is rewritten and inserted, until the cap is
/// reached; from then on the rest of the window's paths are dropped.
pub open spec fn add_event_paths(
    ps: Seq<Seq<char>>,
    evp: Seq<Seq<char>>,
    worktree: Seq<char>,
    git_dir: Option<Seq<char>>,
    ignored: Seq<Seq<char>>,
) -> Seq<Seq<char>>
    decreases evp.len(),
{
    if evp.len() == 0 {
        ps
    } else if ps.len() >= MAX_PENDING_PATHS {
        ps
    } else {
        let ps1 = if should_emit_spec(evp.first(), git_dir, ignored) {
            insert_name(ps, format_path_spec(evp.first(), worktree, git_dir))
        } else {
            ps
        };
        add_event_paths(ps1, evp.drop_first(), worktree, git_dir, ignored)
    }
}

/// The gathered paths after one event: unchanged for an access event.
pub open spec fn collect_paths_spec(
    ps: Seq<Seq<char>>,
    kind: FsEventKind,
    evp: Seq<Seq<char>>,
    worktree: Seq<char>,
    git_dir: Option<Seq<char>>,
    ignored: Seq<Seq<char>>,
) -> Seq<Seq<char>> {
    if is_relevant_kind_spec(kind) {
        add_event_paths(ps, evp, worktree, git_dir, ignored)
    } else {
        ps
    }
}

/// The gathered kind labels after one event: unchanged for an access
/// event, else the event's label joins the set.
pub open spec fn collect_kinds_spec(
    ks: Seq<Seq<char>>,
    kind: FsEventKind,
) -> Seq<Seq<char>> {
    if is_relevant_kind_spec(kind) {
        insert_name(ks, kind_label_spec(kind))
    } else {
        ks
    }
}

/// The git-dir view of a filter.
pub open spec fn filter_git_dir_view(filter: FilterConfig) -> Option<Seq<char>> {
    match filter.git_dir {
        Some(g) => Some(g@),
        None => None,
    }
}

/// Takes one native event up into the window's accumulator: access
/// events are dropped; otherwise the kind label joins the kind set
/// and each path passing the filter is rewritten and gathered, up to
/// the cap.
pub fn collect_event(event: &FsEvent, filter: &FilterConfig, acc: &mut WatchAccumulator)
    ensures
        final(acc).path_views() =~= collect_paths_spec(
            old(acc).path_views(),
            event.kind,
            name_views(event.paths@),
            filter.worktree_path@,
            filter_git_dir_view(*filter),
            name_views(filter.ignored_dirs@),
        ),
        final(acc).kind_views() =~= collect_kinds_spec(old(acc).kind_views(), event.kind),
{
    if !is_relevant_kind(&event.kind) {
        return;
    }
    let label = kind_label(&event.kind);
    if !name_in_exec(&acc.kinds, label) {
        acc.kinds.push(label.to_owned());
    }
    proof {
        assert(acc.kind_views() =~= collect_kinds_spec(old(acc).kind_views(), event.kind));
    }
    let ghost kinds_snapshot = acc.kinds@;
    let ghost ps0 = acc.path_views();
    let ghost evp = name_views(event.paths@);
    let ghost wt = filter.worktree_path@;
    let ghost gd = filter_git_dir_view(*filter);
    let ghost ign = name_views(filter.ignored_dirs@);
    proof {
        assert(evp.skip(0) =~= evp);
    }
    let mut i: usize = 0;
    while i < event.paths.len()
        invariant_except_break
            0 <= i <= event.paths@.len(),
            evp == name_views(event.paths@),
            wt == filter.worktree_path@,
            gd == filter_git_dir_view(*filter),
            ign == name_views(filter.ignored_dirs@),
            add_event_paths(ps0, evp, wt, gd, ign) =~= add_event_paths(
                acc.path_views(),
                evp.skip(i as int),
                wt,
                gd,
                ign,
            ),
            acc.kinds@ == kinds_snapshot,
        ensures
            acc.path_views() =~= add_event_paths(ps0, evp, wt, gd, ign),
            acc.kinds@ == kinds_snapshot,
        decreases event.paths@.len() - i,
    {
        proof {
            assert(evp.skip(i as int).len() > 0);
            assert(evp.skip(i as int).first() == evp[i as int]);
            assert(evp.skip(i as int).drop_first() =~= evp.skip(i + 1));
        }
        if acc.paths.len() >= MAX_PENDING_PATHS {
            proof {
                assert(add_event_paths(acc.path_views(), evp.skip(i as int), wt, gd, ign)
                    =~= acc.path_views());
            }
            break;
        }
        let ghost pre = acc.path_views();
        let path = &event.paths[i];
        assert(path@ == evp[i as int]);
        if should_emit_path(path.as_str(), filter) {
            let formatted = format_event_path(
                path.as_str(),
                filter.worktree_path.as_str(),
                filter.git_dir.as_ref(),
            );
            proof {
                assert(formatted@ =~= format_path_spec(evp[i as int], wt, gd));
            }
            if !name_in_exec(&acc.paths, formatted.as_str()) {
                acc.paths.push(formatted);
            } else {
                proof {
                    assert(name_in(pre, formatted@));
                }
            }
            proof {
                assert(acc.path_views() =~= insert_name(
                    pre,
                    format_path_spec(evp[i as int], wt, gd),
                ));
            }
        }
        i += 1;
    }
    proof {
        assert(evp.skip(evp.len() as int) =~= Seq::<Seq<char>>::empty());
    }
}

/// How a watch identifies itself and what it reports under.
pub struct WorkerConfig {
    pub watch_id: String,
    pub repo_root_display: String,
    pub worktree_display: String,
    pub attempt_id: Option<String>,
    pub debounce_ms: u64,
    pub filter: FilterConfig,
}

/// One aggregated change event, emitted per idle debounce window.
pub struct WatchEventPayload {
    pub watch_id: String,
    pub repo_root: String,
    pub worktree_path: String,
    pub attempt_id: Option<String>,
    pub paths: Vec<String>,
    pub kinds: Vec<String>,
    pub timestamp_ms: u64,
}

/// Closes a window: an accumulator without paths only drops its kind
/// set; one with paths hands everything gathered over as exactly one
/// payload, stamped with the clock. Either way the accumulator is
/// empty afterwards.
pub fn flush_events(config: &WorkerConfig, acc: &mut WatchAccumulator) -> (r: Option<
    WatchEventPayload,
>)
    ensures
        final(acc).path_views() =~= Seq::<Seq<char>>::empty(),
        final(acc).kind_views() =~= Seq::<Seq<char>>::empty(),
        old(acc).path_views().len() == 0 <==> r is None,
        r matches Some(payload) ==> {
            &&& payload.watch_id@ == config.watch_id@
            &&& payload.repo_root@ == config.repo_root_display@
            &&& payload.worktree_path@ == config.worktree_display@
            &&& (payload.attempt_id is Some <==> config.attempt_id is Some)
            &&& payload.attempt_id matches Some(b) ==> (config.attempt_id matches Some(a) && b@
                == a@)
            &&& payload.paths@ == old(acc).paths@
            &&& payload.kinds@ == old(acc).kinds@
        },
{
    if acc.paths.len() == 0 {
        acc.kinds.clear();
        proof {
            assert(acc.path_views() =~= Seq::<Seq<char>>::empty());
            assert(acc.kind_views() =~= Seq::<Seq<char>>::empty());
        }
        return None;
    }
    let mut paths: Vec<String> = Vec::new();
    let mut kinds: Vec<String> = Vec::new();
    core::mem::swap(&mut acc.paths, &mut paths);
    core::mem::swap(&mut acc.kinds, &mut kinds);
    proof {
        assert(acc.path_views() =~= Seq::<Seq<char>>::empty());
        assert(acc.kind_views() =~= Seq::<Seq<char>>::empty());
    }
    Some(
        WatchEventPayload {
            watch_id: config.watch_id.clone(),
            repo_root: config.repo_root_display.clone(),
            worktree_path: config.worktree_display.clone(),
            attempt_id: match &config.attempt_id {
                Some(a) => Some(a.clone()),
                None => None,
            },
            paths,
            kinds,
            timestamp_ms: crate::host::now_ms(),
        },
    )
}


/// A request to start watching a worktree.
pub struct WatchAddRequest {
    pub path: String,
    pub repo_root: Option<String>,
    pub attempt_id: Option<String>,
    pub debounce_ms: Option<u64>,
    pub watch_git: Option<bool>,
}

/// The answer to a watch request: the minted id.
pub struct WatchAddResponse {
    pub watch_id: String,
}

/// Checks and canonicalizes a watch path: it must not be blank and
/// must be absolute; what canonicalization makes of it comes from the
/// filesystem.
pub fn canonicalize_absolute(path: &str) -> (r: Result<String, String>)
    ensures
        trim_blank(path@).len() == 0 ==> (r matches Err(e) && e@ =~= "path is required"@),
        (trim_blank(path@).len() > 0 && (path@.len() == 0 || path@[0] != '/')) ==> (
        r matches Err(e) && e@ =~= "path must be absolute"@),
{
    let trimmed = trim_blank_exec(path);
    if trimmed.as_str().unicode_len() == 0 {
        return Err(String::from_str("path is required"));
    }
    if path.unicode_len() == 0 || path.get_char(0) != '/' {
        return Err(String::from_str("path must be absolute"));
    }
    canonicalize_path(path)
}

/// What a `.git` pointer file names: the content must read
/// `gitdir: <target>`; the target is what follows, trimmed.
pub open spec fn gitdir_pointer_spec(content: Seq<char>) -> Option<Seq<char>> {
    let t = trim_blank(content);
    if "gitdir:"@.len() <= t.len() && t.subrange(0, "gitdir:"@.len() as int) =~= "gitdir:"@ {
        Some(trim_blank(t.subrange("gitdir:"@.len() as int, t.len() as int)))
    } else {
        None
    }
}

/// Reads the target out of a `.git` pointer file's content.
pub fn parse_gitdir_pointer(content: &str) -> (r: Option<String>)
    ensures
        match r {
            Some(target) => gitdir_pointer_spec(content@) matches Some(t) && target@ =~= t,
            None => gitdir_pointer_spec(content@) is None,
        },
{
    let trimmed = trim_blank_exec(content);
    let t = trimmed.as_str();
    if starts_with(t, "gitdir:") {
        let plen = "gitdir:".unicode_len();
        let tlen = t.unicode_len();
        let rest = t.substring_char(plen, tlen);
        Some(trim_blank_exec(rest))
    } else {
        None
    }
}

/// Where a `.git` pointer target lies: absolute targets stand alone,
/// relative ones hang under the repository root.
pub fn resolve_gitdir_target(repo_root: &str, pointer: &str) -> (r: String)
    ensures
        r@ =~= if pointer@.len() > 0 && pointer@[0] == '/' {
            pointer@
        } else {
            repo_root@ + "/"@ + pointer@
        },
{
    if pointer.unicode_len() > 0 && pointer.get_char(0) == '/' {
        pointer.to_owned()
    } else {
        repo_root.to_owned().concat("/").concat(pointer)
    }
}

/// The git metadata paths one watch registers: HEAD, index and
/// packed-refs without recursion, refs/ recursively. The flag says
/// whether the path is watched recursively.
pub fn git_watch_paths(git_dir: &str) -> (r: Vec<(String, bool)>)
    ensures
        r@.len() == 4,
        r@[0].0@ =~= git_dir@ + "/HEAD"@ && r@[0].1 == false,
        r@[1].0@ =~= git_dir@ + "/index"@ && r@[1].1 == false,
        r@[2].0@ =~= git_dir@ + "/packed-refs"@ && r@[2].1 == false,
        r@[3].0@ =~= git_dir@ + "/refs"@ && r@[3].1 == true,
{
    let mut paths: Vec<(String, bool)> = Vec::new();
    paths.push((git_dir.to_owned().concat("/HEAD"), false));
    paths.push((git_dir.to_owned().concat("/index"), false));
    paths.push((git_dir.to_owned().concat("/packed-refs"), false));
    paths.push((git_dir.to_owned().concat("/refs"), true));
    paths
}

/// The set of active watches: each under an id minted from a counter
/// that only grows, so an id is never reused.
pub struct WatchRegistry<H> {
    next_id: u64,
    entries: Vec<(String, H)>,
}

impl<H> WatchRegistry<H> {
    /// The ids of the registered watches, in registration order.
    pub closed spec fn ids(self) -> Seq<Seq<char>> {
        self.entries@.map_values(|e: (String, H)| e.0@)
    }

    /// The value the next id will be minted from.
    pub closed spec fn spec_next_id(self) -> u64 {
        self.next_id
    }

    /// Well-formed: no id twice, and every id was minted below the
    /// counter.
    pub open spec fn wf(self) -> bool {
        &&& forall|i: int, j: int|
            0 <= i < j < self.ids().len() ==> (#[trigger] self.ids()[i]) != (
            #[trigger] self.ids()[j])
        &&& forall|i: int|
            0 <= i < self.ids().len() ==> exists|n: nat|
                n < self.spec_next_id() && (#[trigger] self.ids()[i]) == dec_str(n)
    }

    /// An empty registry; ids start at 1.
    pub fn new() -> (r: WatchRegistry<H>)
        ensures
            r.wf(),
            r.ids() =~= Seq::<Seq<char>>::empty(),
            r.spec_next_id() == 1,
    {
        let r = WatchRegistry { next_id: 1u64, entries: Vec::new() };
        proof {
            assert(r.ids() =~= Seq::<Seq<char>>::empty());
        }
        r
    }

    /// How many watches are registered.
    pub fn len(&self) -> (r: usize)
        ensures
            r == self.ids().len(),
    {
        self.entries.len()
    }

    /// The value the next id would be minted from; callers check it
    /// against the counter's ceiling before registering.
    pub fn next_id_value(&self) -> (r: u64)
        ensures
            r == self.spec_next_id(),
    {
        self.next_id
    }

    /// Registers a handle under a fresh id, one the registry has
    /// never handed out before.
    pub fn add_entry(&mut self, handle: H) -> (id: String)
        requires
            old(self).wf(),
            old(self).spec_next_id() < u64::MAX,
        ensures
            final(self).wf(),
            id@ == dec_str(old(self).spec_next_id() as nat),
            !name_in(old(self).ids(), id@),
            final(self).ids() =~= old(self).ids().push(id@),
            final(self).spec_next_id() == old(self).spec_next_id() + 1,
    {
        let id = u64_to_string(self.next_id);
        proof {
            assert forall|i: int| 0 <= i < self.ids().len() implies (#[trigger] self.ids()[i])
                != id@ by {
                let n = choose|n: nat| n < self.next_id && self.ids()[i] == dec_str(n);
                if self.ids()[i] == id@ {
                    crate::strutil::lemma_dec_str_injective(n, self.next_id as nat);
                }
            }
        }
        let ghost ids0 = self.ids();
        self.next_id = self.next_id + 1;
        let entry_id = id.clone();
        self.entries.push((entry_id, handle));
        proof {
            assert(entry_id@ == id@);
            assert(self.ids() =~= ids0.push(id@));
            assert forall|i: int| 0 <= i < self.ids().len() implies exists|n: nat|
                n < self.spec_next_id() && (#[trigger] self.ids()[i]) == dec_str(n) by {
                if i < ids0.len() {
                    assert(self.ids()[i] == ids0[i]);
                    let n = choose|n: nat| n < self.next_id - 1 && ids0[i] == dec_str(n);
                    assert(n < self.spec_next_id() && self.ids()[i] == dec_str(n));
                } else {
                    let ghost n = (self.next_id - 1) as nat;
                    assert(n < self.spec_next_id() && self.ids()[i] == dec_str(n));
                }
            }
        }
        id
    }

    /// Removes the watch under `watch_id` and hands its handle back;
    /// an unknown id is reported, and nothing changes.
    pub fn remove_entry(&mut self, watch_id: &str) -> (r: Result<H, String>)
        requires
            old(self).wf(),
        ensures
            final(self).wf(),
            final(self).spec_next_id() == old(self).spec_next_id(),
            r is Ok <==> name_in(old(self).ids(), watch_id@),
            r is Ok ==> exists|k: int|
                0 <= k < old(self).ids().len() && (#[trigger] old(self).ids()[k]) == watch_id@
                    && final(self).ids() =~= old(self).ids().remove(k),
            r is Err ==> final(self).ids() == old(self).ids() && (r matches Err(e) && e@
                =~= "watch not found"@),
    {
        let ghost ids0 = self.ids();
        let mut i: usize = 0;
        while i < self.entries.len()
            invariant
                *self == *old(self),
                old(self).wf(),
                ids0 == self.ids(),
                self.ids().len() == self.entries@.len(),
                0 <= i <= self.entries@.len(),
                forall|j: int| 0 <= j < i ==> (#[trigger] self.ids()[j]) != watch_id@,
            decreases self.entries@.len() - i,
        {
            if str_eq(self.entries[i].0.as_str(), watch_id) {
                let ghost k = i as int;
                let entry = self.entries.remove(i);
                proof {
                    assert(ids0[k] == watch_id@);
                    assert(self.ids() =~= ids0.remove(k));
                    assert forall|a: int, b: int|
                        0 <= a < b < self.ids().len() implies (#[trigger] self.ids()[a]) != (
                    #[trigger] self.ids()[b]) by {
                        if a < k && b < k {
                            assert(ids0[a] != ids0[b]);
                        } else if a < k {
                            assert(ids0[a] != ids0[b + 1]);
                        } else {
                            assert(ids0[a + 1] != ids0[b + 1]);
                        }
                    }
                    assert forall|a: int| 0 <= a < self.ids().len() implies exists|n: nat|
                        n < self.spec_next_id() && (#[trigger] self.ids()[a]) == dec_str(n) by {
                        if a < k {
                            assert(self.ids()[a] == ids0[a]);
                            let n = choose|n: nat| n < self.next_id && ids0[a] == dec_str(n);
                            assert(n < self.spec_next_id() && self.ids()[a] == dec_str(n));
                        } else {
                            assert(self.ids()[a] == ids0[a + 1]);
                            let n = choose|n: nat| n < self.next_id && ids0[a + 1] == dec_str(n);
                            assert(n < self.spec_next_id() && self.ids()[a] == dec_str(n));
                        }
                    }
                }
                return Ok(entry.1);
            }
            i += 1;
        }
        Err(String::from_str("watch not found"))
    }

    /// Drops every watch; the id counter stands where it is.
    pub fn remove_all(&mut self)
        ensures
            final(self).wf(),
            final(self).ids() =~= Seq::<Seq<char>>::empty(),
            final(self).spec_next_id() == old(self).spec_next_id(),
    {
        self.entries = Vec::new();
        proof {
            assert(self.ids() =~= Seq::<Seq<char>>::empty());
        }
    }
}


/// The paths gathered after a whole burst of events, event by event.
pub open spec fn fold_burst_paths(
    ps: Seq<Seq<char>>,
    events: Seq<(FsEventKind, Seq<Seq<char>>)>,
    worktree: Seq<char>,
    git_dir: Option<Seq<char>>,
    ignored: Seq<Seq<char>>,
) -> Seq<Seq<char>>
    decreases events.len(),
{
    if events.len() == 0 {
        ps
    } else {
        fold_burst_paths(
            collect_paths_spec(ps, events.first().0, events.first().1, worktree, git_dir, ignored),
            events.drop_first(),
            worktree,
            git_dir,
            ignored,
        )
    }
}

/// The kind labels gathered after a whole burst of events.
pub open spec fn fold_burst_kinds(
    ks: Seq<Seq<char>>,
    events: Seq<(FsEventKind, Seq<Seq<char>>)>,
) -> Seq<Seq<char>>
    decreases events.len(),
{
    if events.len() == 0 {
        ks
    } else {
        fold_burst_kinds(collect_kinds_spec(ks, events.first().0), events.drop_first())
    }
}

proof fn lemma_insert_name_members(ns: Seq<Seq<char>>, n: Seq<char>)
    ensures
        forall|x: Seq<char>| #[trigger] name_in(insert_name(ns, n), x) <==> (name_in(ns, x) || x
            == n),
        ns.len() <= insert_name(ns, n).len() <= ns.len() + 1,
{
    assert forall|x: Seq<char>| #[trigger] name_in(insert_name(ns, n), x) implies (name_in(ns, x)
        || x == n) by {
        if !name_in(ns, n) {
            let k = choose|k: int|
                0 <= k < insert_name(ns, n).len() && (#[trigger] insert_name(ns, n)[k]) =~= x;
            if k < ns.len() {
                assert(ns[k] =~= x);
            } else {
                assert(insert_name(ns, n)[k] == n);
            }
        }
    }
    assert forall|x: Seq<char>| (name_in(ns, x) || x == n) implies #[trigger] name_in(
        insert_name(ns, n),
        x,
    ) by {
        if name_in(ns, x) {
            let k = choose|k: int| 0 <= k < ns.len() && (#[trigger] ns[k]) =~= x;
            if name_in(ns, n) {
                assert(insert_name(ns, n)[k] =~= x);
            } else {
                assert(insert_name(ns, n)[k] =~= x);
            }
        } else {
            if name_in(ns, n) {
                let k = choose|k: int| 0 <= k < ns.len() && (#[trigger] ns[k]) =~= n;
                assert(insert_name(ns, n)[k] =~= x);
            } else {
                assert(insert_name(ns, n)[ns.len() as int] =~= x);
            }
        }
    }
}

proof fn lemma_fold_kinds_members(ks: Seq<Seq<char>>, events: Seq<(FsEventKind, Seq<Seq<char>>)>)
    ensures
        forall|k: Seq<char>| #[trigger] name_in(fold_burst_kinds(ks, events), k) <==> (name_in(
            ks,
            k,
        ) || exists|e: int|
            0 <= e < events.len() && is_relevant_kind_spec((#[trigger] events[e]).0)
                && kind_label_spec(events[e].0) == k),
    decreases events.len(),
{
    if events.len() > 0 {
        let ev0 = events.first();
        let ks1 = collect_kinds_spec(ks, ev0.0);
        let rest = events.drop_first();
        lemma_fold_kinds_members(ks1, rest);
        lemma_insert_name_members(ks, kind_label_spec(ev0.0));
        assert(forall|e: int| 0 <= e < rest.len() ==> (#[trigger] rest[e]) == events[e + 1]);
        assert(fold_burst_kinds(ks, events) == fold_burst_kinds(ks1, rest));
        assert forall|k: Seq<char>| #[trigger] name_in(fold_burst_kinds(ks, events), k) implies (
        name_in(ks, k) || exists|e: int|
            0 <= e < events.len() && is_relevant_kind_spec((#[trigger] events[e]).0)
                && kind_label_spec(events[e].0) == k) by {
            assert(name_in(fold_burst_kinds(ks1, rest), k));
            if name_in(ks1, k) {
                if is_relevant_kind_spec(ev0.0) && !name_in(ks, k) {
                    assert(k == kind_label_spec(ev0.0));
                    assert(is_relevant_kind_spec((events[0]).0) && kind_label_spec(events[0].0)
                        == k);
                }
            } else {
                let e = choose|e: int|
                    0 <= e < rest.len() && is_relevant_kind_spec((#[trigger] rest[e]).0)
                        && kind_label_spec(rest[e].0) == k;
                assert(is_relevant_kind_spec((events[e + 1]).0) && kind_label_spec(
                    events[e + 1].0,
                ) == k);
            }
        }
        assert forall|k: Seq<char>| (name_in(ks, k) || exists|e: int|
            0 <= e < events.len() && is_relevant_kind_spec((#[trigger] events[e]).0)
                && kind_label_spec(events[e].0) == k) implies #[trigger] name_in(
            fold_burst_kinds(ks, events),
            k,
        ) by {
            assert(name_in(fold_burst_kinds(ks, events), k) == name_in(
                fold_burst_kinds(ks1, rest),
                k,
            ));
            if name_in(ks, k) {
                assert(name_in(ks1, k));
            } else {
                let e = choose|e: int|
                    0 <= e < events.len() && is_relevant_kind_spec((#[trigger] events[e]).0)
                        && kind_label_spec(events[e].0) == k;
                if e == 0 {
                    assert(ev0 == events[0]);
                    assert(name_in(ks1, k));
                } else {
                    assert(rest[e - 1] == events[e]);
                    assert(is_relevant_kind_spec((rest[e - 1]).0) && kind_label_spec(
                        rest[e - 1].0,
                    ) == k);
                }
            }
        }
    }
}

proof fn lemma_add_event_paths_props(
    ps: Seq<Seq<char>>,
    evp: Seq<Seq<char>>,
    worktree: Seq<char>,
    git_dir: Option<Seq<char>>,
    ignored: Seq<Seq<char>>,
)
    ensures
        ps.len() <= add_event_paths(ps, evp, worktree, git_dir, ignored).len(),
        forall|x: Seq<char>|
            name_in(ps, x) ==> #[trigger] name_in(
                add_event_paths(ps, evp, worktree, git_dir, ignored),
                x,
            ),
        forall|x: Seq<char>| #[trigger] name_in(
            add_event_paths(ps, evp, worktree, git_dir, ignored),
            x,
        ) ==> name_in(ps, x) || exists|j: int|
            0 <= j < evp.len() && should_emit_spec(#[trigger] evp[j], git_dir, ignored)
                && format_path_spec(evp[j], worktree, git_dir) == x,
        ps.len() <= MAX_PENDING_PATHS ==> add_event_paths(
            ps,
            evp,
            worktree,
            git_dir,
            ignored,
        ).len() <= MAX_PENDING_PATHS,
        add_event_paths(ps, evp, worktree, git_dir, ignored).len() < MAX_PENDING_PATHS
            ==> forall|j: int|
            0 <= j < evp.len() && should_emit_spec(#[trigger] evp[j], git_dir, ignored)
                ==> name_in(
                add_event_paths(ps, evp, worktree, git_dir, ignored),
                format_path_spec(evp[j], worktree, git_dir),
            ),
    decreases evp.len(),
{
    let result = add_event_paths(ps, evp, worktree, git_dir, ignored);
    if evp.len() == 0 {
    } else if ps.len() >= MAX_PENDING_PATHS {
    } else {
        let p0 = evp.first();
        let ps1 = if should_emit_spec(p0, git_dir, ignored) {
            insert_name(ps, format_path_spec(p0, worktree, git_dir))
        } else {
            ps
        };
        let rest = evp.drop_first();
        if should_emit_spec(p0, git_dir, ignored) {
            lemma_insert_name_members(ps, format_path_spec(p0, worktree, git_dir));
        }
        lemma_add_event_paths_props(ps1, rest, worktree, git_dir, ignored);
        assert(forall|j: int| 0 <= j < rest.len() ==> (#[trigger] rest[j]) == evp[j + 1]);
        assert(result == add_event_paths(ps1, rest, worktree, git_dir, ignored));
        assert forall|x: Seq<char>| #[trigger] name_in(result, x) implies name_in(ps, x) || exists|
            j: int,
        |
            0 <= j < evp.len() && should_emit_spec(#[trigger] evp[j], git_dir, ignored)
                && format_path_spec(evp[j], worktree, git_dir) == x by {
            if !name_in(ps, x) {
                if name_in(ps1, x) {
                    assert(should_emit_spec(evp[0], git_dir, ignored) && format_path_spec(
                        evp[0],
                        worktree,
                        git_dir,
                    ) == x);
                } else {
                    let j = choose|j: int|
                        0 <= j < rest.len() && should_emit_spec(#[trigger] rest[j], git_dir, ignored)
                            && format_path_spec(rest[j], worktree, git_dir) == x;
                    assert(should_emit_spec(evp[j + 1], git_dir, ignored) && format_path_spec(
                        evp[j + 1],
                        worktree,
                        git_dir,
                    ) == x);
                }
            }
        }
        if result.len() < MAX_PENDING_PATHS {
            assert forall|j: int|
                0 <= j < evp.len() && should_emit_spec(#[trigger] evp[j], git_dir, ignored) implies
                name_in(result, format_path_spec(evp[j], worktree, git_dir)) by {
                if j == 0 {
                    assert(name_in(ps1, format_path_spec(evp[0], worktree, git_dir)));
                } else {
                    assert(rest[j - 1] == evp[j]);
                    assert(should_emit_spec(rest[j - 1], git_dir, ignored));
                }
            }
        }
    }
}

proof fn lemma_fold_paths_props(
    ps: Seq<Seq<char>>,
    events: Seq<(FsEventKind, Seq<Seq<char>>)>,
    worktree: Seq<char>,
    git_dir: Option<Seq<char>>,
    ignored: Seq<Seq<char>>,
)
    ensures
        ps.len() <= fold_burst_paths(ps, events, worktree, git_dir, ignored).len(),
        forall|x: Seq<char>|
            name_in(ps, x) ==> #[trigger] name_in(
                fold_burst_paths(ps, events, worktree, git_dir, ignored),
                x,
            ),
        forall|x: Seq<char>| #[trigger] name_in(
            fold_burst_paths(ps, events, worktree, git_dir, ignored),
            x,
        ) ==> name_in(ps, x) || exists|e: int, j: int|
            0 <= e < events.len() && is_relevant_kind_spec(events[e].0) && 0 <= j
                < events[e].1.len() && should_emit_spec(
                #[trigger] events[e].1[j],
                git_dir,
                ignored,
            ) && format_path_spec(events[e].1[j], worktree, git_dir) == x,
        ps.len() <= MAX_PENDING_PATHS ==> fold_burst_paths(
            ps,
            events,
            worktree,
            git_dir,
            ignored,
        ).len() <= MAX_PENDING_PATHS,
        fold_burst_paths(ps, events, worktree, git_dir, ignored).len() < MAX_PENDING_PATHS
            ==> forall|e: int, j: int|
            0 <= e < events.len() && is_relevant_kind_spec(events[e].0) && 0 <= j
                < events[e].1.len() && should_emit_spec(#[trigger] events[e].1[j], git_dir, ignored)
                ==> name_in(
                fold_burst_paths(ps, events, worktree, git_dir, ignored),
                format_path_spec(events[e].1[j], worktree, git_dir),
            ),
    decreases events.len(),
{
    let result = fold_burst_paths(ps, events, worktree, git_dir, ignored);
    if events.len() > 0 {
        let ev0 = events.first();
        let ps1 = collect_paths_spec(ps, ev0.0, ev0.1, worktree, git_dir, ignored);
        let rest = events.drop_first();
        lemma_add_event_paths_props(ps, ev0.1, worktree, git_dir, ignored);
        lemma_fold_paths_props(ps1, rest, worktree, git_dir, ignored);
        assert(forall|e: int| 0 <= e < rest.len() ==> (#[trigger] rest[e]) == events[e + 1]);
        assert(result == fold_burst_paths(ps1, rest, worktree, git_dir, ignored));
        assert forall|x: Seq<char>| #[trigger] name_in(result, x) implies name_in(ps, x) || exists|
            e: int,
            j: int,
        |
            0 <= e < events.len() && is_relevant_kind_spec(events[e].0) && 0 <= j
                < events[e].1.len() && should_emit_spec(#[trigger] events[e].1[j], git_dir, ignored)
                && format_path_spec(events[e].1[j], worktree, git_dir) == x by {
            if !name_in(ps, x) {
                if name_in(ps1, x) {
                    let j = choose|j: int|
                        0 <= j < ev0.1.len() && should_emit_spec(#[trigger] ev0.1[j], git_dir, ignored)
                            && format_path_spec(ev0.1[j], worktree, git_dir) == x;
                    assert(events[0].1 == ev0.1);
                    assert(is_relevant_kind_spec(events[0].0) && 0 <= j < events[0].1.len()
                        && should_emit_spec(events[0].1[j], git_dir, ignored) && format_path_spec(
                        events[0].1[j],
                        worktree,
                        git_dir,
                    ) == x);
                } else {
                    let (e, j) = choose|e: int, j: int|
                        0 <= e < rest.len() && is_relevant_kind_spec(rest[e].0) && 0 <= j
                            < rest[e].1.len() && should_emit_spec(
                            #[trigger] rest[e].1[j],
                            git_dir,
                            ignored,
                        ) && format_path_spec(rest[e].1[j], worktree, git_dir) == x;
                    assert(events[e + 1] == rest[e]);
                    assert(is_relevant_kind_spec(events[e + 1].0) && 0 <= j < events[e
                        + 1].1.len() && should_emit_spec(events[e + 1].1[j], git_dir, ignored)
                        && format_path_spec(events[e + 1].1[j], worktree, git_dir) == x);
                }
            }
        }
        if result.len() < MAX_PENDING_PATHS {
            assert(ps1.len() < MAX_PENDING_PATHS);
            assert forall|e: int, j: int|
                0 <= e < events.len() && is_relevant_kind_spec(events[e].0) && 0 <= j
                    < events[e].1.len() && should_emit_spec(
                #[trigger] events[e].1[j],
                git_dir,
                ignored,
            ) implies name_in(result, format_path_spec(events[e].1[j], worktree, git_dir)) by {
                if e == 0 {
                    assert(events[0] == ev0);
                    assert(name_in(ps1, format_path_spec(ev0.1[j], worktree, git_dir)));
                } else {
                    assert(rest[e - 1] == events[e]);
                    assert(is_relevant_kind_spec(rest[e - 1].0) && should_emit_spec(
                        rest[e - 1].1[j],
                        git_dir,
                        ignored,
                    ));
                }
            }
        }
    }
}

/// One idle debounce window coalesces a whole burst into one
/// emission. Accumulating a burst of events into an empty window:
/// the kind set holds exactly the labels of the burst's relevant
/// events; every gathered path is the rewriting of an event path
/// that passed the filter; the gathered paths never exceed the cap;
/// and as long as the cap is not reached, every event path that
/// passed the filter is gathered. The single flush at the window's
/// end then emits exactly these sets.
pub proof fn lemma_burst_coalesces(
    events: Seq<(FsEventKind, Seq<Seq<char>>)>,
    worktree: Seq<char>,
    git_dir: Option<Seq<char>>,
    ignored: Seq<Seq<char>>,
)
    ensures
        forall|k: Seq<char>| #[trigger] name_in(
            fold_burst_kinds(Seq::<Seq<char>>::empty(), events),
            k,
        ) <==> exists|e: int|
            0 <= e < events.len() && is_relevant_kind_spec((#[trigger] events[e]).0)
                && kind_label_spec(events[e].0) == k,
        forall|x: Seq<char>| #[trigger] name_in(
            fold_burst_paths(Seq::<Seq<char>>::empty(), events, worktree, git_dir, ignored),
            x,
        ) ==> exists|e: int, j: int|
            0 <= e < events.len() && is_relevant_kind_spec(events[e].0) && 0 <= j
                < events[e].1.len() && should_emit_spec(#[trigger] events[e].1[j], git_dir, ignored)
                && format_path_spec(events[e].1[j], worktree, git_dir) == x,
        fold_burst_paths(Seq::<Seq<char>>::empty(), events, worktree, git_dir, ignored).len()
            <= MAX_PENDING_PATHS,
        fold_burst_paths(Seq::<Seq<char>>::empty(), events, worktree, git_dir, ignored).len()
            < MAX_PENDING_PATHS ==> forall|e: int, j: int|
            0 <= e < events.len() && is_relevant_kind_spec(events[e].0) && 0 <= j
                < events[e].1.len() && should_emit_spec(#[trigger] events[e].1[j], git_dir, ignored)
                ==> name_in(
                fold_burst_paths(Seq::<Seq<char>>::empty(), events, worktree, git_dir, ignored),
                format_path_spec(events[e].1[j], worktree, git_dir),
            ),
{
    let empty = Seq::<Seq<char>>::empty();
    assert(forall|k: Seq<char>| !name_in(empty, k));
    lemma_fold_kinds_members(empty, events);
    lemma_fold_paths_props(empty, events, worktree, git_dir, ignored);
}

} // verus!
