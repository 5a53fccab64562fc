use forks_core::status::{
    map_status_list, status_to_kind, STATUS_CONFLICTED, STATUS_INDEX_DELETED, STATUS_INDEX_MODIFIED,
    STATUS_INDEX_NEW, STATUS_INDEX_RENAMED, STATUS_INDEX_TYPECHANGE, STATUS_WT_DELETED,
    STATUS_WT_MODIFIED, STATUS_WT_NEW, STATUS_WT_RENAMED, STATUS_WT_TYPECHANGE,
};

#[test]
fn index_modified_without_untracked_bit_is_modified() {
    assert_eq!(status_to_kind(STATUS_INDEX_MODIFIED).as_deref(), Some("modified"));
}

#[test]
fn conflicted_wins_over_everything() {
    let word = STATUS_CONFLICTED | STATUS_INDEX_MODIFIED | STATUS_WT_DELETED | STATUS_INDEX_NEW;
    assert_eq!(status_to_kind(word).as_deref(), Some("conflicted"));
    assert_eq!(status_to_kind(STATUS_CONFLICTED).as_deref(), Some("conflicted"));
}

#[test]
fn deleted_beats_added() {
    let word = STATUS_INDEX_DELETED | STATUS_INDEX_NEW;
    assert_eq!(status_to_kind(word).as_deref(), Some("deleted"));
    assert_eq!(status_to_kind(STATUS_WT_DELETED).as_deref(), Some("deleted"));
}

#[test]
fn added_beats_untracked() {
    let word = STATUS_INDEX_NEW | STATUS_WT_NEW;
    assert_eq!(status_to_kind(word).as_deref(), Some("added"));
}

#[test]
fn untracked_beats_renamed() {
    let word = STATUS_WT_NEW | STATUS_INDEX_RENAMED;
    assert_eq!(status_to_kind(word).as_deref(), Some("untracked"));
}

#[test]
fn renamed_beats_typechange() {
    let word = STATUS_INDEX_RENAMED | STATUS_WT_TYPECHANGE;
    assert_eq!(status_to_kind(word).as_deref(), Some("renamed"));
    assert_eq!(status_to_kind(STATUS_WT_RENAMED).as_deref(), Some("renamed"));
}

#[test]
fn typechange_beats_modified() {
    let word = STATUS_INDEX_TYPECHANGE | STATUS_WT_MODIFIED;
    assert_eq!(status_to_kind(word).as_deref(), Some("typechange"));
    assert_eq!(status_to_kind(STATUS_WT_TYPECHANGE).as_deref(), Some("typechange"));
}

#[test]
fn modified_from_either_side() {
    assert_eq!(status_to_kind(STATUS_WT_MODIFIED).as_deref(), Some("modified"));
}

#[test]
fn irrelevant_bits_yield_nothing() {
    assert_eq!(status_to_kind(0), None);
    // The ignored bit (1 << 14) is not a reported kind.
    assert_eq!(status_to_kind(1 << 14), None);
}

#[test]
fn listing_keeps_order_and_drops_noise() {
    let raw = vec![
        ("a.txt".to_string(), STATUS_WT_NEW),
        ("".to_string(), STATUS_WT_NEW),
        ("b.txt".to_string(), 0),
        ("c.txt".to_string(), STATUS_CONFLICTED | STATUS_WT_MODIFIED),
    ];
    let entries = map_status_list(&raw);
    assert_eq!(entries.len(), 2);
    assert_eq!(entries[0].path, "a.txt");
    assert_eq!(entries[0].status, "untracked");
    assert_eq!(entries[1].path, "c.txt");
    assert_eq!(entries[1].status, "conflicted");
}
