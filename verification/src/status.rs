//! Mapping of raw repository status bits to the status kinds the
//! protocol reports.
//!
//! A status word is the bit set libgit2 reports for one file
//! (`git_status_t`). The mapping checks the kinds in a fixed priority
//! order — conflicted, deleted, added, untracked, renamed, typechange,
//! modified — and the first matching kind wins; a word matching none of
//! them is omitted from listings.

use vstd::prelude::*;

verus! {

/// Bit values as libgit2's `git_status_t` defines them.
pub const STATUS_INDEX_NEW: u32 = 1;

pub const STATUS_INDEX_MODIFIED: u32 = 2;

pub const STATUS_INDEX_DELETED: u32 = 4;

pub const STATUS_INDEX_RENAMED: u32 = 8;

pub const STATUS_INDEX_TYPECHANGE: u32 = 16;

pub const STATUS_WT_NEW: u32 = 128;

pub const STATUS_WT_MODIFIED: u32 = 256;

pub const STATUS_WT_DELETED: u32 = 512;

pub const STATUS_WT_TYPECHANGE: u32 = 1024;

pub const STATUS_WT_RENAMED: u32 = 2048;

pub const STATUS_CONFLICTED: u32 = 32768;

/// A status entry of one file: its path and the kind label chosen for it.
pub struct GitStatusEntry {
    pub path: String,
    pub status: String,
}

/// The kind label for a status word, by the fixed priority order; `None`
/// when no relevant bit is set.
pub open spec fn status_kind_of(status: u32) -> Option<Seq<char>> {
    if status & STATUS_CONFLICTED != 0 {
        Some("conflicted"@)
    } else if status & STATUS_INDEX_DELETED != 0 || status & STATUS_WT_DELETED != 0 {
        Some("deleted"@)
    } else if status & STATUS_INDEX_NEW != 0 {
        Some("added"@)
    } else if status & STATUS_WT_NEW != 0 {
        Some("untracked"@)
    } else if status & STATUS_INDEX_RENAMED != 0 || status & STATUS_WT_RENAMED != 0 {
        Some("renamed"@)
    } else if status & STATUS_INDEX_TYPECHANGE != 0 || status & STATUS_WT_TYPECHANGE != 0 {
        Some("typechange"@)
    } else if status & STATUS_INDEX_MODIFIED != 0 || status & STATUS_WT_MODIFIED != 0 {
        Some("modified"@)
    } else {
        None
    }
}

/// Maps a status word to its kind label.
pub fn status_to_kind(status: u32) -> (r: Option<String>)
    ensures
        r is Some <==> status_kind_of(status) is Some,
        r matches Some(k) ==> k@ =~= status_kind_of(status)->Some_0,
{
    if status & STATUS_CONFLICTED != 0 {
        return Some(String::from_str("conflicted"));
    }
    if status & STATUS_INDEX_DELETED != 0 || status & STATUS_WT_DELETED != 0 {
        return Some(String::from_str("deleted"));
    }
    if status & STATUS_INDEX_NEW != 0 {
        return Some(String::from_str("added"));
    }
    if status & STATUS_WT_NEW != 0 {
        return Some(String::from_str("untracked"));
    }
    if status & STATUS_INDEX_RENAMED != 0 || status & STATUS_WT_RENAMED != 0 {
        return Some(String::from_str("renamed"));
    }
    if status & STATUS_INDEX_TYPECHANGE != 0 || status & STATUS_WT_TYPECHANGE != 0 {
        return Some(String::from_str("typechange"));
    }
    if status & STATUS_INDEX_MODIFIED != 0 || status & STATUS_WT_MODIFIED != 0 {
        return Some(String::from_str("modified"));
    }
    None
}

/// The entries kept from a raw status listing: empty paths and words
/// without a relevant bit are dropped, every other entry keeps its path
/// and gets its kind label, in order.
pub open spec fn kept_statuses(list: Seq<(Seq<char>, u32)>) -> Seq<(Seq<char>, Seq<char>)>
    decreases list.len(),
{
    if list.len() == 0 {
        Seq::empty()
    } else {
        let rest = kept_statuses(list.drop_last());
        let p = list.last().0;
        let s = list.last().1;
        if p.len() > 0 && status_kind_of(s) is Some {
            rest.push((p, status_kind_of(s)->Some_0))
        } else {
            rest
        }
    }
}

/// Turns a raw status listing into the protocol's entry list.
pub fn map_status_list(raw: &Vec<(String, u32)>) -> (r: Vec<GitStatusEntry>)
    ensures
        r@.len() == kept_statuses(raw@.map_values(|e: (String, u32)| (e.0@, e.1))).len(),
        forall|i: int|
            0 <= i < r@.len() ==> {
                let spec = kept_statuses(raw@.map_values(|e: (String, u32)| (e.0@, e.1)));
                (#[trigger] r@[i]).path@ =~= spec[i].0 && r@[i].status@ =~= spec[i].1
            },
{
    let ghost full = raw@.map_values(|e: (String, u32)| (e.0@, e.1));
    let mut r: Vec<GitStatusEntry> = Vec::new();
    let mut i: usize = 0;
    while i < raw.len()
        invariant
            full == raw@.map_values(|e: (String, u32)| (e.0@, e.1)),
            0 <= i <= raw@.len(),
            r@.len() == kept_statuses(full.take(i as int)).len(),
            forall|j: int|
                0 <= j < r@.len() ==> {
                    let spec = kept_statuses(full.take(i as int));
                    (#[trigger] r@[j]).path@ =~= spec[j].0 && r@[j].status@ =~= spec[j].1
                },
        decreases raw@.len() - i,
    {
        proof {
            assert(full.take(i + 1).drop_last() =~= full.take(i as int));
            assert(full.take(i + 1).last() == full[i as int]);
        }
        let path = &raw[i].0;
        let word = raw[i].1;
        if path.unicode_len() > 0 {
            if let Some(kind) = status_to_kind(word) {
                let entry = GitStatusEntry { path: path.clone(), status: kind };
                r.push(entry);
            }
        }
        i += 1;
    }
    proof {
        assert(full.take(raw@.len() as int) =~= full);
    }
    r
}

} // verus!
