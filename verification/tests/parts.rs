use mail_sync::board::Bar;
use mail_sync::hunk::{EnvelopeChange, EnvelopeHunk, Flags, FolderHunk, Side};
use mail_sync::names::{contains_name, copy_names};
use mail_sync::output::{describe_envelopes, describe_folders};
use mail_sync::patch::{Patch, SyncError};
use mail_sync::resolver::{has_kind, BackendKind, Capabilities};
use mail_sync::session::list_shared_folders;
use mail_sync::snapshot::{Envelope, EnvelopeSnapshot, FolderSnapshot};
use mail_sync::strategy::FolderSyncStrategy;

fn plain() -> Flags {
    Flags { seen: false, answered: false, flagged: false, draft: false }
}

#[test]
fn names_are_found_and_copied() {
    let names = vec!["INBOX".to_string(), "Sent".to_string()];
    assert!(contains_name(&names, &"Sent".to_string()));
    assert!(!contains_name(&names, &"sent".to_string()));
    assert!(!contains_name(&vec![], &"Sent".to_string()));
    assert_eq!(copy_names(&names), names);
}

#[test]
fn envelope_is_found_by_its_identifier() {
    let mut mail = EnvelopeSnapshot::new();
    assert!(mail.insert(Envelope { id: "a".to_string(), flags: plain(), size: 3, marker: 7, deleted: false }));
    assert!(mail.insert(Envelope { id: "b".to_string(), flags: plain(), size: 4, marker: 8, deleted: true }));
    assert_eq!(mail.find(&"a".to_string()).map(|e| (e.size, e.marker, e.deleted)), Some((3, 7, false)));
    assert_eq!(mail.find(&"b".to_string()).map(|e| e.deleted), Some(true));
    assert!(mail.find(&"c".to_string()).is_none());
    assert_eq!(mail.position(&"b".to_string()), Some(1));
    let seen = Flags { seen: true, ..plain() };
    assert!(mail.set_flags(&"b".to_string(), seen, 9));
    let changed = mail.entry(1);
    assert_eq!((changed.flags, changed.marker, changed.size, changed.deleted), (seen, 9, 4, true));
}

#[test]
fn settling_a_hunk_twice_changes_nothing_more() {
    let mut folders = FolderSnapshot::new();
    let create = FolderHunk::create("Archive".to_string(), Side::Cache);
    folders.settle(&create);
    folders.settle(&create.duplicate());
    assert_eq!(folders.len(), 1);
    assert_eq!(folders.entry(0).name, "Archive");
    assert!(!folders.entry(0).deleted);
    let delete = FolderHunk::delete("Archive".to_string(), Side::Cache);
    folders.settle(&delete);
    folders.settle(&delete);
    assert_eq!(folders.len(), 0);

    let mut mail = EnvelopeSnapshot::new();
    let hunk = |change| EnvelopeHunk { folder: "F".to_string(), id: "x".to_string(), target: Side::Cache, change };
    let seen = Flags { seen: true, ..plain() };
    mail.settle(&hunk(EnvelopeChange::UpdateFlags { flags: seen, marker: 2 }));
    assert_eq!(mail.len(), 0);
    mail.settle(&hunk(EnvelopeChange::Create { flags: plain(), size: 5, marker: 1 }));
    mail.settle(&hunk(EnvelopeChange::Create { flags: seen, size: 6, marker: 3 }));
    assert_eq!(mail.len(), 1);
    assert_eq!((mail.entry(0).flags, mail.entry(0).size, mail.entry(0).marker), (plain(), 5, 1));
    mail.settle(&hunk(EnvelopeChange::UpdateFlags { flags: seen, marker: 2 }));
    assert_eq!((mail.entry(0).flags, mail.entry(0).size, mail.entry(0).marker), (seen, 5, 2));
    mail.settle(&hunk(EnvelopeChange::Delete));
    mail.settle(&hunk(EnvelopeChange::Delete));
    assert_eq!(mail.len(), 0);
}

#[test]
fn folders_that_both_stores_hold_get_an_envelope_pass() {
    let mut remote = FolderSnapshot::new();
    for (name, deleted) in [("INBOX", false), ("Old", true), ("Sent", false), ("Lists", false), ("Junk", false)] {
        assert!(remote.insert(name.to_string(), deleted));
    }
    let mut cache = FolderSnapshot::new();
    for (name, deleted) in [("Junk", false), ("Sent", true), ("Old", false), ("INBOX", false), ("Drafts", false)] {
        assert!(cache.insert(name.to_string(), deleted));
    }
    assert_eq!(list_shared_folders(&remote, &cache, &FolderSyncStrategy::All), vec!["INBOX", "Junk"]);
    assert_eq!(
        list_shared_folders(&remote, &cache, &FolderSyncStrategy::Exclude(vec!["INBOX".to_string()])),
        vec!["Junk"]
    );
    assert!(list_shared_folders(&remote, &FolderSnapshot::new(), &FolderSyncStrategy::All).is_empty());
}

#[test]
fn patches_are_described_entry_by_entry() {
    let mut folders: Patch<FolderHunk> = Patch::new();
    assert!(folders.is_empty());
    folders.push(FolderHunk::create("A".to_string(), Side::Remote), None);
    folders.push(FolderHunk::delete("B".to_string(), Side::Cache), Some(SyncError { message: "busy".to_string() }));
    assert_eq!(folders.len(), 2);
    assert!(!folders.all_succeeded());
    assert_eq!(
        describe_folders(&folders),
        vec![
            ("Creating remote folder A".to_string(), None),
            ("Deleting cache folder B".to_string(), Some("busy".to_string())),
        ]
    );
    let mut emails: Patch<EnvelopeHunk> = Patch::new();
    emails.push(
        EnvelopeHunk { folder: "F".to_string(), id: "x".to_string(), target: Side::Remote, change: EnvelopeChange::Delete },
        None,
    );
    assert_eq!(describe_envelopes(&emails), vec![("Removing envelope x from remote folder F".to_string(), None)]);
    assert_eq!(SyncError { message: "busy".to_string() }.duplicate().message, "busy");
}

#[test]
fn capabilities_tell_what_is_wanted_and_what_lacks() {
    let capabilities = Capabilities {
        used: vec![BackendKind::Imap, BackendKind::Notmuch],
        configured: vec![BackendKind::Imap, BackendKind::Maildir],
        available: vec![BackendKind::Maildir],
    };
    assert!(capabilities.wants(BackendKind::Imap));
    assert!(!capabilities.wants(BackendKind::Maildir));
    assert!(!capabilities.wants(BackendKind::Notmuch));
    assert!(capabilities.lacks(BackendKind::Imap));
    assert!(!capabilities.lacks(BackendKind::Maildir));
    assert!(has_kind(&capabilities.available, BackendKind::Maildir));
    assert!(!has_kind(&capabilities.available, BackendKind::Imap));
}

#[test]
fn bar_moves_on_up_to_its_limit() {
    let mut bar = Bar { length: 10, position: 4, message: String::new(), done: false };
    bar.advance(3);
    assert_eq!(bar.position, 7);
    bar.advance(u64::MAX);
    assert_eq!(bar.position, u64::MAX);
    assert_eq!(bar.length, 10);
}
