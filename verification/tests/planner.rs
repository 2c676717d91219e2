use mail_sync::hunk::{EnvelopeChange, Flags, FolderChange, Side};
use mail_sync::planner::{plan_envelopes, plan_folders};
use mail_sync::snapshot::{Envelope, EnvelopeSnapshot, FolderSnapshot};
use mail_sync::strategy::FolderSyncStrategy;

fn folders(names: &[&str]) -> FolderSnapshot {
    let mut listing = FolderSnapshot::new();
    for name in names {
        assert!(listing.insert(name.to_string(), false));
    }
    listing
}

fn plain() -> Flags {
    Flags { seen: false, answered: false, flagged: false, draft: false }
}

fn envelope(id: &str, flags: Flags, marker: u64) -> Envelope {
    Envelope { id: id.to_string(), flags, size: 100, marker, deleted: false }
}

fn tombstone(id: &str) -> Envelope {
    Envelope { id: id.to_string(), flags: plain(), size: 100, marker: 9, deleted: true }
}

fn envelopes(list: Vec<Envelope>) -> EnvelopeSnapshot {
    let mut listing = EnvelopeSnapshot::new();
    for e in list {
        assert!(listing.insert(e));
    }
    listing
}

fn folder_hunks(
    remote: &FolderSnapshot,
    cache: &FolderSnapshot,
    strategy: &FolderSyncStrategy,
) -> Vec<(String, Side, FolderChange)> {
    plan_folders(remote, cache, strategy)
        .entries
        .iter()
        .map(|(hunk, outcome)| {
            assert!(outcome.is_none());
            (hunk.name.clone(), hunk.target, hunk.change)
        })
        .collect()
}

fn envelope_hunks(
    remote: &EnvelopeSnapshot,
    cache: &EnvelopeSnapshot,
) -> Vec<(String, Side, EnvelopeChange)> {
    plan_envelopes(&"INBOX".to_string(), remote, cache)
        .entries
        .iter()
        .map(|(hunk, outcome)| {
            assert!(outcome.is_none());
            assert_eq!(hunk.folder, "INBOX");
            (hunk.id.clone(), hunk.target, hunk.change)
        })
        .collect()
}

#[test]
fn missing_folder_is_created_on_cache_then_nothing_is_left() {
    let remote = folders(&["INBOX", "Archive"]);
    let mut cache = folders(&["INBOX"]);
    let patch = plan_folders(&remote, &cache, &FolderSyncStrategy::All);
    assert_eq!(patch.len(), 1);
    let (hunk, outcome) = &patch.entries[0];
    assert_eq!(hunk.name, "Archive");
    assert_eq!(hunk.target, Side::Cache);
    assert_eq!(hunk.change, FolderChange::Create);
    assert!(outcome.is_none());

    cache.settle(hunk);
    assert_eq!(cache.len(), 2);
    assert_eq!(cache.status(&"INBOX".to_string()), Some(false));
    assert_eq!(cache.status(&"Archive".to_string()), Some(false));

    let again = plan_folders(&remote, &cache, &FolderSyncStrategy::All);
    assert!(again.is_empty());
}

#[test]
fn new_envelope_is_created_on_cache_then_flag_change_is_updated() {
    let inbox = "INBOX".to_string();
    let seen = Flags { seen: true, ..plain() };
    let mut remote = EnvelopeSnapshot::new();
    assert!(remote.insert(envelope("E1", seen, 1)));
    let mut cache = EnvelopeSnapshot::new();

    let patch = plan_envelopes(&inbox, &remote, &cache);
    assert_eq!(patch.len(), 1);
    let (hunk, outcome) = &patch.entries[0];
    assert_eq!(hunk.folder, "INBOX");
    assert_eq!(hunk.id, "E1");
    assert_eq!(hunk.target, Side::Cache);
    assert_eq!(hunk.change, EnvelopeChange::Create { flags: seen, size: 100, marker: 1 });
    assert!(outcome.is_none());
    cache.settle(hunk);
    assert!(plan_envelopes(&inbox, &remote, &cache).is_empty());

    let seen_flagged = Flags { seen: true, flagged: true, ..plain() };
    assert!(remote.set_flags(&"E1".to_string(), seen_flagged, 2));
    let patch = plan_envelopes(&inbox, &remote, &cache);
    assert_eq!(patch.len(), 1);
    let (hunk, _) = &patch.entries[0];
    assert_eq!(hunk.id, "E1");
    assert_eq!(hunk.target, Side::Cache);
    assert_eq!(hunk.change, EnvelopeChange::UpdateFlags { flags: seen_flagged, marker: 2 });
}

#[test]
fn flipped_flags_with_the_same_marker_go_to_the_cache() {
    let seen = Flags { seen: true, ..plain() };
    let seen_flagged = Flags { seen: true, flagged: true, ..plain() };
    let remote = envelopes(vec![envelope("E1", seen_flagged, 1)]);
    let cache = envelopes(vec![envelope("E1", seen, 1)]);
    assert_eq!(
        envelope_hunks(&remote, &cache),
        vec![(
            "E1".to_string(),
            Side::Cache,
            EnvelopeChange::UpdateFlags { flags: seen_flagged, marker: 1 }
        )]
    );
}

#[test]
fn every_folder_of_the_difference_gets_one_creation() {
    let remote = folders(&["INBOX", "Archive", "Sent", "Lists"]);
    let cache = folders(&["Drafts", "INBOX", "Sent", "Junk"]);
    assert_eq!(
        folder_hunks(&remote, &cache, &FolderSyncStrategy::All),
        vec![
            ("Archive".to_string(), Side::Cache, FolderChange::Create),
            ("Lists".to_string(), Side::Cache, FolderChange::Create),
            ("Drafts".to_string(), Side::Remote, FolderChange::Create),
            ("Junk".to_string(), Side::Remote, FolderChange::Create),
        ]
    );
}

#[test]
fn equal_listings_need_no_folder_hunk() {
    let remote = folders(&["INBOX", "Sent"]);
    let cache = folders(&["Sent", "INBOX"]);
    assert!(plan_folders(&remote, &cache, &FolderSyncStrategy::All).is_empty());
    let none = folders(&[]);
    assert!(plan_folders(&none, &none, &FolderSyncStrategy::All).is_empty());
}

#[test]
fn included_folder_is_the_only_one_planned() {
    let remote = folders(&["INBOX", "Archive"]);
    let cache = folders(&["Drafts"]);
    let only_inbox = FolderSyncStrategy::Include(vec!["INBOX".to_string()]);
    assert_eq!(
        folder_hunks(&remote, &cache, &only_inbox),
        vec![("INBOX".to_string(), Side::Cache, FolderChange::Create)]
    );
    // Under All the two other folders would get a hunk each.
    assert_eq!(folder_hunks(&remote, &cache, &FolderSyncStrategy::All).len(), 3);

    let both_have_inbox = folders(&["INBOX", "Drafts"]);
    assert!(plan_folders(&remote, &both_have_inbox, &only_inbox).is_empty());
}

#[test]
fn excluded_folder_is_skipped_without_a_trace() {
    let remote = folders(&["INBOX", "Archive"]);
    let cache = folders(&["Drafts"]);
    let no_archive = FolderSyncStrategy::Exclude(vec!["Archive".to_string(), "Archive".to_string()]);
    assert_eq!(
        folder_hunks(&remote, &cache, &no_archive),
        vec![
            ("INBOX".to_string(), Side::Cache, FolderChange::Create),
            ("Drafts".to_string(), Side::Remote, FolderChange::Create),
        ]
    );
}

#[test]
fn folder_is_deleted_only_where_it_is_marked() {
    let mut remote = folders(&["INBOX"]);
    assert!(remote.insert("Old".to_string(), true));
    assert!(remote.insert("Gone".to_string(), true));
    let mut cache = folders(&["INBOX", "Old", "New"]);
    assert!(cache.insert("Stale".to_string(), true));
    // "Gone" is marked on the remote store and unknown to the cache: no hunk.
    // "Stale" is marked on the cache and unknown to the remote store: no hunk.
    assert_eq!(
        folder_hunks(&remote, &cache, &FolderSyncStrategy::All),
        vec![
            ("New".to_string(), Side::Remote, FolderChange::Create),
            ("Old".to_string(), Side::Cache, FolderChange::Delete),
        ]
    );
    let mut cache_marks = folders(&[]);
    assert!(cache_marks.insert("INBOX".to_string(), true));
    assert_eq!(
        folder_hunks(&folders(&["INBOX"]), &cache_marks, &FolderSyncStrategy::All),
        vec![("INBOX".to_string(), Side::Remote, FolderChange::Delete)]
    );
}

#[test]
fn settled_folder_plan_leaves_nothing_to_plan() {
    let mut remote = folders(&["INBOX", "Archive"]);
    assert!(remote.insert("Old".to_string(), true));
    let mut cache = folders(&["Drafts", "Old", "INBOX"]);
    assert!(cache.insert("Archive2".to_string(), true));
    let patch = plan_folders(&remote, &cache, &FolderSyncStrategy::All);
    assert_eq!(patch.len(), 3);
    for (hunk, _) in &patch.entries {
        match hunk.target {
            Side::Remote => remote.settle(hunk),
            Side::Cache => cache.settle(hunk),
        }
    }
    assert_eq!(remote.status(&"Drafts".to_string()), Some(false));
    assert_eq!(cache.status(&"Archive".to_string()), Some(false));
    assert_eq!(cache.status(&"Old".to_string()), None);
    assert!(plan_folders(&remote, &cache, &FolderSyncStrategy::All).is_empty());
}

#[test]
fn envelopes_are_planned_creates_then_updates_then_deletes() {
    let seen = Flags { seen: true, ..plain() };
    let answered = Flags { answered: true, ..plain() };
    let remote = envelopes(vec![
        tombstone("gone"),
        envelope("changed-here", seen, 5),
        envelope("same", seen, 1),
        envelope("new-here", plain(), 1),
        envelope("changed-there", plain(), 2),
        envelope("dropped-there", plain(), 1),
    ]);
    let cache = envelopes(vec![
        envelope("new-there", answered, 7),
        envelope("changed-there", answered, 3),
        envelope("changed-here", plain(), 4),
        envelope("gone", plain(), 1),
        envelope("same", seen, 8),
        tombstone("dropped-there"),
    ]);
    assert_eq!(
        envelope_hunks(&remote, &cache),
        vec![
            (
                "new-here".to_string(),
                Side::Cache,
                EnvelopeChange::Create { flags: plain(), size: 100, marker: 1 }
            ),
            (
                "new-there".to_string(),
                Side::Remote,
                EnvelopeChange::Create { flags: answered, size: 100, marker: 7 }
            ),
            (
                "changed-here".to_string(),
                Side::Cache,
                EnvelopeChange::UpdateFlags { flags: seen, marker: 5 }
            ),
            (
                "changed-there".to_string(),
                Side::Remote,
                EnvelopeChange::UpdateFlags { flags: answered, marker: 3 }
            ),
            ("gone".to_string(), Side::Cache, EnvelopeChange::Delete),
            ("dropped-there".to_string(), Side::Remote, EnvelopeChange::Delete),
        ]
    );
}

#[test]
fn absent_envelope_is_never_deleted() {
    let remote = envelopes(vec![]);
    let cache = envelopes(vec![envelope("kept", plain(), 1)]);
    assert_eq!(
        envelope_hunks(&remote, &cache),
        vec![(
            "kept".to_string(),
            Side::Remote,
            EnvelopeChange::Create { flags: plain(), size: 100, marker: 1 }
        )]
    );
    let marked_only = envelopes(vec![tombstone("unknown")]);
    assert!(envelope_hunks(&marked_only, &envelopes(vec![])).is_empty());
    assert!(envelope_hunks(&envelopes(vec![tombstone("x")]), &envelopes(vec![tombstone("x")])).is_empty());
}

#[test]
fn settled_envelope_plan_leaves_nothing_to_plan() {
    let inbox = "INBOX".to_string();
    let seen = Flags { seen: true, ..plain() };
    let mut remote = envelopes(vec![
        envelope("a", seen, 5),
        envelope("b", plain(), 1),
        tombstone("c"),
        envelope("d", plain(), 1),
    ]);
    let mut cache = envelopes(vec![
        envelope("a", plain(), 9),
        envelope("c", seen, 1),
        envelope("e", seen, 1),
        tombstone("d"),
    ]);
    let patch = plan_envelopes(&inbox, &remote, &cache);
    assert_eq!(patch.len(), 5);
    for (hunk, _) in &patch.entries {
        match hunk.target {
            Side::Remote => remote.settle(hunk),
            Side::Cache => cache.settle(hunk),
        }
    }
    assert_eq!(remote.len(), 4);
    assert_eq!(cache.len(), 4);
    assert!(plan_envelopes(&inbox, &remote, &cache).is_empty());
}

#[test]
fn listings_take_each_name_once() {
    let mut listing = FolderSnapshot::new();
    assert!(listing.insert("INBOX".to_string(), false));
    assert!(!listing.insert("INBOX".to_string(), true));
    assert_eq!(listing.len(), 1);
    assert_eq!(listing.status(&"INBOX".to_string()), Some(false));
    assert_eq!(listing.position(&"INBOX".to_string()), Some(0));
    assert_eq!(listing.position(&"Sent".to_string()), None);
    assert!(listing.remove(&"INBOX".to_string()));
    assert!(!listing.remove(&"INBOX".to_string()));
    assert_eq!(listing.len(), 0);

    let mut mail = EnvelopeSnapshot::new();
    assert!(mail.insert(envelope("a", plain(), 1)));
    assert!(!mail.insert(envelope("a", plain(), 2)));
    assert_eq!(mail.len(), 1);
    assert_eq!(mail.entry(0).marker, 1);
    assert!(!mail.set_flags(&"b".to_string(), plain(), 3));
    assert!(mail.remove(&"a".to_string()));
    assert!(!mail.remove(&"a".to_string()));
}

#[test]
fn strategy_matches_by_name() {
    let inbox = "INBOX".to_string();
    let sent = "Sent".to_string();
    assert!(FolderSyncStrategy::All.matches(&inbox));
    let only = FolderSyncStrategy::Include(vec![inbox.clone()]);
    assert!(only.matches(&inbox));
    assert!(!only.matches(&sent));
    let exclude = FolderSyncStrategy::Exclude(vec![inbox.clone()]);
    assert!(!exclude.matches(&inbox));
    assert!(exclude.matches(&sent));
    assert!(!FolderSyncStrategy::Include(vec![]).matches(&inbox));
    assert!(exclude.duplicate().matches(&sent));
    assert!(!exclude.duplicate().matches(&inbox));
}
