use mail_sync::account::{AccountNameFlag, AccountSyncCommand};
use mail_sync::board::Board;
use mail_sync::hunk::{EnvelopeChange, EnvelopeHunk, Flags, FolderHunk, Side};
use mail_sync::patch::{Patch, SyncError};
use mail_sync::progress::ProgressEvent;
use mail_sync::report::{recorded_envelopes, recorded_folders, SyncReport};

fn error(text: &str) -> Option<SyncError> {
    Some(SyncError { message: text.to_string() })
}

fn plain() -> Flags {
    Flags { seen: false, answered: false, flagged: false, draft: false }
}

fn envelope_hunk(folder: &str, id: &str, target: Side, change: EnvelopeChange) -> EnvelopeHunk {
    EnvelopeHunk { folder: folder.to_string(), id: id.to_string(), target, change }
}

fn sample(folder_failure: Option<SyncError>, commit_failure: Option<SyncError>) -> SyncReport {
    let mut folders: Patch<FolderHunk> = Patch::new();
    folders.push(FolderHunk::create("Archive".to_string(), Side::Cache), None);
    folders.push(FolderHunk::delete("Old".to_string(), Side::Remote), folder_failure);
    let mut emails: Patch<EnvelopeHunk> = Patch::new();
    emails.push(
        envelope_hunk("INBOX", "E1", Side::Cache, EnvelopeChange::Create { flags: plain(), size: 1, marker: 1 }),
        None,
    );
    emails.push(
        envelope_hunk("INBOX", "E2", Side::Remote, EnvelopeChange::UpdateFlags { flags: plain(), marker: 2 }),
        error("read-only"),
    );
    emails.push(envelope_hunk("Sent", "E3", Side::Cache, EnvelopeChange::Delete), None);
    let folders_record = recorded_folders(&folders);
    let emails_record = recorded_envelopes(&emails);
    SyncReport::assemble(folders, (folders_record, None), emails, (emails_record, commit_failure))
}

fn command(dry_run: bool) -> AccountSyncCommand {
    AccountSyncCommand {
        account: AccountNameFlag { name: Some("work".to_string()) },
        dry_run,
        include_folder: vec![],
        exclude_folder: vec![],
        all_folders: true,
    }
}

#[test]
fn hunks_are_put_in_words() {
    assert_eq!(FolderHunk::create("A".to_string(), Side::Cache).describe(), "Creating cache folder A");
    assert_eq!(FolderHunk::delete("A".to_string(), Side::Remote).describe(), "Deleting remote folder A");
    assert_eq!(
        envelope_hunk("F", "x", Side::Cache, EnvelopeChange::Create { flags: plain(), size: 1, marker: 1 }).describe(),
        "Adding envelope x to cache folder F"
    );
    assert_eq!(
        envelope_hunk("F", "x", Side::Remote, EnvelopeChange::UpdateFlags { flags: plain(), marker: 1 }).describe(),
        "Updating flags of envelope x in remote folder F"
    );
    assert_eq!(
        envelope_hunk("F", "x", Side::Remote, EnvelopeChange::Delete).describe(),
        "Removing envelope x from remote folder F"
    );
    assert_eq!(Side::Remote.name(), "remote");
    assert_eq!(Side::Cache.name(), "cache");
    let copy = envelope_hunk("F", "x", Side::Remote, EnvelopeChange::Delete).duplicate();
    assert_eq!((copy.folder().as_str(), copy.id.as_str(), copy.target), ("F", "x", Side::Remote));
}

#[test]
fn report_counts_and_judges() {
    let report = sample(None, None);
    assert_eq!(report.hunks_count(), Some(5));
    assert!(!report.is_success());
    assert_eq!(report.folders_cache_patch.0.len(), 2);
    assert_eq!(report.emails_cache_patch.0.len(), 2);
    let kept: Vec<&str> = report.emails_cache_patch.0.entries.iter().map(|(h, _)| h.id.as_str()).collect();
    assert_eq!(kept, vec!["E1", "E3"]);

    let empty = SyncReport::assemble(Patch::new(), (Patch::new(), None), Patch::new(), (Patch::new(), None));
    assert!(empty.is_success());
    assert_eq!(empty.hunks_count(), Some(0));
    let commit_failed =
        SyncReport::assemble(Patch::new(), (Patch::new(), error("disk full")), Patch::new(), (Patch::new(), None));
    assert!(!commit_failed.is_success());
}

#[test]
fn dry_run_prints_both_patches_and_their_length() {
    let out = command(true).printout(&"work".to_string(), &sample(None, None), false);
    assert_eq!(
        out.log,
        vec![
            "Folders patch:",
            " - Creating cache folder Archive",
            " - Deleting remote folder Old",
            "",
            "Envelopes patch:",
            " - Adding envelope E1 to cache folder INBOX",
            " - Updating flags of envelope E2 in remote folder INBOX",
            " - Removing envelope E3 from cache folder Sent",
            "",
        ]
    );
    assert_eq!(out.message, "Estimated patch length for account work to be synchronized: 5");

    let empty = SyncReport::assemble(Patch::new(), (Patch::new(), None), Patch::new(), (Patch::new(), None));
    let out = command(true).printout(&"work".to_string(), &empty, true);
    assert!(out.log.is_empty());
    assert_eq!(out.message, "Estimated patch length for account work to be synchronized: 0");
}

#[test]
fn run_prints_each_listing_of_errors_from_its_own_patch() {
    let report = sample(error("in use"), error("disk full"));
    let out = command(false).printout(&"work".to_string(), &report, false);
    assert_eq!(
        out.log,
        vec![
            "",
            "Errors occurred while applying the folders patch:",
            " - Deleting remote folder Old: in use",
            "",
            "Errors occurred while applying the envelopes patch:",
            " - Updating flags of envelope E2 in remote folder INBOX: read-only",
            "",
            "Error occurred while applying the envelopes cache patch: disk full",
        ]
    );
    assert_eq!(out.message, "Account work synchronized only in part, see the errors above");

    let out = command(false).printout(&"work".to_string(), &report, true);
    assert!(out.log.is_empty());
    assert_eq!(out.message, "Account work synchronized only in part, see the errors above");
}

#[test]
fn run_without_failure_prints_success() {
    let mut folders: Patch<FolderHunk> = Patch::new();
    folders.push(FolderHunk::create("Archive".to_string(), Side::Cache), None);
    let report = SyncReport::assemble(folders, (Patch::new(), None), Patch::new(), (Patch::new(), None));
    let out = command(false).printout(&"home".to_string(), &report, false);
    assert!(out.log.is_empty());
    assert_eq!(out.message, "Account home successfully synchronized!");

    let only_commit =
        SyncReport::assemble(Patch::new(), (Patch::new(), error("locked")), Patch::new(), (Patch::new(), None));
    let out = command(false).printout(&"home".to_string(), &only_commit, false);
    assert_eq!(out.log, vec!["", "Error occurred while applying the folder cache patch: locked"]);
    assert_eq!(out.message, "Account home synchronized only in part, see the errors above");
}

#[test]
fn board_follows_the_events() {
    let mut board = Board::new();
    assert_eq!((board.main.length, board.main.position), (100, 0));
    assert_eq!(board.main.message, "Synchronizing folders…");
    assert!(board.folders.is_empty());

    board.handle(&ProgressEvent::BeginFolderPatch);
    assert_eq!((board.main.length, board.main.position), (100, 3));

    board.handle(&ProgressEvent::BeginEnvelopePatch(vec![
        ("INBOX".to_string(), 3),
        ("Sent".to_string(), 250),
        ("Empty".to_string(), 0),
    ]));
    // 253 hunks: 110 * 253 / 100 = 278, 5 * 253 / 100 = 12
    assert_eq!((board.main.length, board.main.position), (278, 12));
    assert_eq!(board.main.message, "Synchronizing envelopes…");
    let bars: Vec<(&str, u64, u64)> =
        board.folders.iter().map(|b| (b.folder.as_str(), b.bar.length, b.bar.position)).collect();
    assert_eq!(bars, vec![("INBOX", 3, 0), ("Sent", 250, 0), ("Empty", 0, 0)]);

    let hunk = |id: &str, folder: &str| {
        ProgressEvent::EnvelopeHunk(envelope_hunk(folder, id, Side::Cache, EnvelopeChange::Delete))
    };
    board.handle(&hunk("a", "INBOX"));
    assert_eq!(board.main.position, 13);
    assert_eq!(board.folders[0].bar.position, 1);
    assert!(!board.folders[0].bar.done);
    assert_eq!(board.folders[0].bar.message, "Removing envelope a from cache folder INBOX…");
    board.handle(&hunk("b", "INBOX"));
    assert_eq!(board.folders[0].bar.position, 2);
    assert!(board.folders[0].bar.done);
    assert_eq!(board.folders[0].bar.message, "Removing envelope a from cache folder INBOX…");
    board.handle(&hunk("c", "Elsewhere"));
    assert_eq!(board.main.position, 15);
    assert_eq!(board.folders[1].bar.position, 0);

    board.handle(&ProgressEvent::BeginCachePatch);
    assert_eq!((board.main.length, board.main.position), (100, 95));
    assert_eq!(board.main.message, "Saving cache database…");
    assert_eq!(board.folders.len(), 3);

    board.handle(&ProgressEvent::FoldersExpunged(vec!["INBOX".to_string(), "Sent".to_string()]));
    assert_eq!((board.main.length, board.main.position), (100, 100));
    assert_eq!(board.main.message, "Expunging 2 folders…");
    assert!(board.folders.is_empty());
}

#[test]
fn board_gives_a_folder_one_bar_and_stays_within_bounds() {
    let mut board = Board::new();
    board.handle(&ProgressEvent::BeginEnvelopePatch(vec![("INBOX".to_string(), 3), ("INBOX".to_string(), 7)]));
    assert_eq!(board.folders.len(), 1);
    assert_eq!(board.folders[0].bar.length, 7);
    assert_eq!((board.main.length, board.main.position), (11, 0));

    board.handle(&ProgressEvent::BeginEnvelopePatch(vec![("Huge".to_string(), usize::MAX), ("More".to_string(), usize::MAX)]));
    assert_eq!(board.main.length, u64::MAX);
    assert_eq!(board.main.position as u128, 5 * (2 * usize::MAX as u128) / 100);
    board.main.position = u64::MAX - 1;
    board.handle(&ProgressEvent::BeginFolderPatch);
    assert_eq!(board.main.position, u64::MAX);
}
