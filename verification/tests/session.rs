use mail_sync::hunk::{EnvelopeChange, Flags, FolderChange, Side};
use mail_sync::patch::SyncError;
use mail_sync::progress::ProgressEvent;
use mail_sync::report::SyncReport;
use mail_sync::session::{Phase, Request, Response, Session};
use mail_sync::snapshot::{Envelope, EnvelopeSnapshot, FolderSnapshot};
use mail_sync::strategy::FolderSyncStrategy;
use std::collections::HashMap;

/// Two stores held in memory, and what a run asked of them.
struct World {
    remote: FolderSnapshot,
    cache: FolderSnapshot,
    remote_mail: HashMap<String, EnvelopeSnapshot>,
    cache_mail: HashMap<String, EnvelopeSnapshot>,
    /// The hunks, in words, that the stores refuse.
    refused: Vec<String>,
    /// The commits that the cache refuses: "folders", "envelopes".
    refused_commits: Vec<String>,
    /// The event after which the sink asks to stop.
    stop_at: Option<String>,
    requests: Vec<String>,
    events: Vec<String>,
}

fn plain() -> Flags {
    Flags { seen: false, answered: false, flagged: false, draft: false }
}

fn copy_folders(listing: &FolderSnapshot) -> FolderSnapshot {
    let mut copy = FolderSnapshot::new();
    for i in 0..listing.len() {
        let entry = listing.entry(i);
        assert!(copy.insert(entry.name.clone(), entry.deleted));
    }
    copy
}

fn copy_mail(listing: Option<&EnvelopeSnapshot>) -> EnvelopeSnapshot {
    let mut copy = EnvelopeSnapshot::new();
    if let Some(listing) = listing {
        for i in 0..listing.len() {
            let e = listing.entry(i);
            assert!(copy.insert(Envelope {
                id: e.id.clone(),
                flags: e.flags,
                size: e.size,
                marker: e.marker,
                deleted: e.deleted,
            }));
        }
    }
    copy
}

fn names(listing: &FolderSnapshot) -> Vec<String> {
    let mut names: Vec<String> = (0..listing.len())
        .filter(|i| !listing.entry(*i).deleted)
        .map(|i| listing.entry(i).name.clone())
        .collect();
    names.sort();
    names
}

impl World {
    fn new(remote: &[&str], cache: &[&str]) -> World {
        let mut world = World {
            remote: FolderSnapshot::new(),
            cache: FolderSnapshot::new(),
            remote_mail: HashMap::new(),
            cache_mail: HashMap::new(),
            refused: vec![],
            refused_commits: vec![],
            stop_at: None,
            requests: vec![],
            events: vec![],
        };
        for name in remote {
            assert!(world.remote.insert(name.to_string(), false));
        }
        for name in cache {
            assert!(world.cache.insert(name.to_string(), false));
        }
        world
    }

    fn put(&mut self, side: Side, folder: &str, id: &str, flags: Flags, marker: u64) {
        let mail = match side {
            Side::Remote => &mut self.remote_mail,
            Side::Cache => &mut self.cache_mail,
        };
        let listing = mail.entry(folder.to_string()).or_insert_with(EnvelopeSnapshot::new);
        assert!(listing.insert(Envelope { id: id.to_string(), flags, size: 10, marker, deleted: false }));
    }

    fn run(&mut self, strategy: FolderSyncStrategy, dry_run: bool) -> (SyncReport, Option<String>) {
        self.requests.clear();
        self.events.clear();
        let mut session = Session::new(strategy, dry_run);
        assert_eq!(session.phase(), Phase::Idle);
        assert_eq!(session.is_dry_run(), dry_run);
        let mut step = session.step(Response::Start);
        loop {
            let mut stopped = false;
            for event in &step.notify {
                let name = match event {
                    ProgressEvent::BeginFolderPatch => "begin folders".to_string(),
                    ProgressEvent::BeginEnvelopePatch(sizes) => format!("begin envelopes {:?}", sizes),
                    ProgressEvent::EnvelopeHunk(hunk) => format!("hunk {}", hunk.describe()),
                    ProgressEvent::BeginCachePatch => "begin cache".to_string(),
                    ProgressEvent::FoldersExpunged(folders) => format!("expunged {:?}", folders),
                };
                self.events.push(name.clone());
                if self.stop_at.as_ref() == Some(&name) {
                    stopped = true;
                    break;
                }
            }
            if stopped {
                step = session.step(Response::Abort(SyncError { message: "sink said stop".to_string() }));
                continue;
            }
            let response = match &step.request {
                Request::ListFolders => {
                    self.requests.push("list folders".to_string());
                    Response::Folders { remote: copy_folders(&self.remote), cache: copy_folders(&self.cache) }
                }
                Request::ApplyFolderHunk(hunk) => {
                    let text = hunk.describe();
                    self.requests.push(text.clone());
                    if self.refused.contains(&text) {
                        Response::Hunk(Some(SyncError { message: "refused".to_string() }))
                    } else {
                        match hunk.target {
                            Side::Remote => self.remote.settle(hunk),
                            Side::Cache => self.cache.settle(hunk),
                        }
                        Response::Hunk(None)
                    }
                }
                Request::CommitFolders(patch) => {
                    self.requests.push(format!("commit folders {}", patch.len()));
                    if self.refused_commits.contains(&"folders".to_string()) {
                        Response::Commit(Some(SyncError { message: "disk full".to_string() }))
                    } else {
                        Response::Commit(None)
                    }
                }
                Request::ListEnvelopes(folder) => {
                    self.requests.push(format!("list envelopes {}", folder));
                    Response::Envelopes {
                        remote: copy_mail(self.remote_mail.get(folder)),
                        cache: copy_mail(self.cache_mail.get(folder)),
                    }
                }
                Request::ApplyEnvelopeHunk(hunk) => {
                    let text = hunk.describe();
                    self.requests.push(text.clone());
                    if self.refused.contains(&text) {
                        Response::Hunk(Some(SyncError { message: "refused".to_string() }))
                    } else {
                        let mail = match hunk.target {
                            Side::Remote => &mut self.remote_mail,
                            Side::Cache => &mut self.cache_mail,
                        };
                        mail.entry(hunk.folder.clone()).or_insert_with(EnvelopeSnapshot::new).settle(hunk);
                        Response::Hunk(None)
                    }
                }
                Request::CommitEnvelopes(patch) => {
                    self.requests.push(format!("commit envelopes {}", patch.len()));
                    if self.refused_commits.contains(&"envelopes".to_string()) {
                        Response::Commit(Some(SyncError { message: "disk full".to_string() }))
                    } else {
                        Response::Commit(None)
                    }
                }
                Request::Finish => break,
            };
            step = session.step(response);
        }
        assert!(session.is_finished());
        let cause = session.aborted().as_ref().map(|e| e.message.clone());
        (session.into_report(), cause)
    }
}

fn two_folder_world() -> World {
    let mut world = World::new(&["INBOX", "Archive"], &["INBOX"]);
    world.put(Side::Remote, "INBOX", "E1", Flags { seen: true, ..plain() }, 1);
    world.put(Side::Remote, "Archive", "A1", plain(), 1);
    world.put(Side::Remote, "Archive", "A2", plain(), 1);
    world.put(Side::Cache, "INBOX", "C1", plain(), 1);
    world
}

#[test]
fn run_creates_the_missing_folder_and_its_envelopes() {
    let mut world = two_folder_world();
    let (report, cause) = world.run(FolderSyncStrategy::All, false);
    assert_eq!(cause, None);
    assert!(report.is_success());
    assert_eq!(report.folders_patch.len(), 1);
    let (hunk, outcome) = &report.folders_patch.entries[0];
    assert_eq!((hunk.name.as_str(), hunk.target, hunk.change), ("Archive", Side::Cache, FolderChange::Create));
    assert!(outcome.is_none());
    assert_eq!(report.folders_cache_patch.0.len(), 1);
    assert!(report.folders_cache_patch.1.is_none());
    assert_eq!(report.emails_patch.len(), 4);
    assert_eq!(report.emails_cache_patch.0.len(), 4);
    assert!(report.emails_cache_patch.1.is_none());
    assert_eq!(report.hunks_count(), Some(5));
    assert_eq!(names(&world.cache), vec!["Archive".to_string(), "INBOX".to_string()]);
    assert_eq!(world.cache_mail["Archive"].len(), 2);
    assert_eq!(world.cache_mail["INBOX"].len(), 2);
    assert_eq!(world.remote_mail["INBOX"].len(), 2);
    assert_eq!(
        world.requests,
        vec![
            "list folders",
            "Creating cache folder Archive",
            "commit folders 1",
            "list envelopes INBOX",
            "list envelopes Archive",
            "Adding envelope E1 to cache folder INBOX",
            "Adding envelope C1 to remote folder INBOX",
            "Adding envelope A1 to cache folder Archive",
            "Adding envelope A2 to cache folder Archive",
            "commit envelopes 4",
        ]
    );
    assert_eq!(
        world.events,
        vec![
            "begin folders".to_string(),
            "begin envelopes [(\"INBOX\", 2), (\"Archive\", 2)]".to_string(),
            "hunk Adding envelope E1 to cache folder INBOX".to_string(),
            "hunk Adding envelope C1 to remote folder INBOX".to_string(),
            "hunk Adding envelope A1 to cache folder Archive".to_string(),
            "hunk Adding envelope A2 to cache folder Archive".to_string(),
            "begin cache".to_string(),
            "expunged [\"INBOX\", \"Archive\"]".to_string(),
        ]
    );
}

#[test]
fn second_run_finds_nothing_to_do() {
    let mut world = two_folder_world();
    let (first, _) = world.run(FolderSyncStrategy::All, false);
    assert_eq!(first.hunks_count(), Some(5));
    let (second, cause) = world.run(FolderSyncStrategy::All, false);
    assert_eq!(cause, None);
    assert!(second.folders_patch.is_empty());
    assert!(second.emails_patch.is_empty());
    assert!(second.is_success());
    assert_eq!(
        world.requests,
        vec![
            "list folders",
            "commit folders 0",
            "list envelopes INBOX",
            "list envelopes Archive",
            "commit envelopes 0",
        ]
    );
}

#[test]
fn dry_run_only_lists() {
    let mut world = two_folder_world();
    let (report, cause) = world.run(FolderSyncStrategy::All, true);
    assert_eq!(cause, None);
    assert_eq!(world.requests, vec!["list folders", "list envelopes INBOX"]);
    assert!(world.events.is_empty());
    assert_eq!(names(&world.cache), vec!["INBOX".to_string()]);
    assert_eq!(world.cache_mail["INBOX"].len(), 1);
    // The preview holds the hunks, none with an outcome.
    assert_eq!(report.folders_patch.len(), 1);
    assert_eq!(report.emails_patch.len(), 2);
    assert!(report.folders_patch.all_succeeded());
    assert!(report.emails_patch.all_succeeded());
    assert!(report.folders_cache_patch.0.is_empty());
    assert!(report.emails_cache_patch.0.is_empty());
}

#[test]
fn folder_that_could_not_be_created_gets_no_envelope_hunk() {
    let mut world = two_folder_world();
    world.refused.push("Creating cache folder Archive".to_string());
    let (report, cause) = world.run(FolderSyncStrategy::All, false);
    assert_eq!(cause, None);
    assert!(!report.is_success());
    assert_eq!(report.folders_patch.len(), 1);
    assert_eq!(report.folders_patch.entries[0].1.as_ref().map(|e| e.message.as_str()), Some("refused"));
    assert!(report.folders_cache_patch.0.is_empty());
    assert_eq!(report.emails_patch.len(), 2);
    for (hunk, outcome) in &report.emails_patch.entries {
        assert_eq!(hunk.folder, "INBOX");
        assert!(outcome.is_none());
    }
    assert!(!world.requests.contains(&"list envelopes Archive".to_string()));
}

#[test]
fn one_refused_envelope_does_not_stop_the_run() {
    let mut world = two_folder_world();
    world.refused.push("Adding envelope A1 to cache folder Archive".to_string());
    let (report, cause) = world.run(FolderSyncStrategy::All, false);
    assert_eq!(cause, None);
    assert!(!report.is_success());
    assert_eq!(report.emails_patch.len(), 4);
    let failed: Vec<&str> = report
        .emails_patch
        .entries
        .iter()
        .filter(|(_, outcome)| outcome.is_some())
        .map(|(hunk, _)| hunk.id.as_str())
        .collect();
    assert_eq!(failed, vec!["A1"]);
    assert_eq!(report.emails_cache_patch.0.len(), 3);
    assert_eq!(world.requests.last().map(|s| s.as_str()), Some("commit envelopes 3"));
    assert_eq!(world.cache_mail["Archive"].len(), 1);
}

#[test]
fn failed_commit_is_recorded_apart_from_the_hunks() {
    let mut world = two_folder_world();
    world.refused_commits.push("envelopes".to_string());
    let (report, cause) = world.run(FolderSyncStrategy::All, false);
    assert_eq!(cause, None);
    assert!(report.folders_patch.all_succeeded());
    assert!(report.emails_patch.all_succeeded());
    assert!(report.folders_cache_patch.1.is_none());
    assert_eq!(report.emails_cache_patch.1.as_ref().map(|e| e.message.as_str()), Some("disk full"));
    assert!(!report.is_success());

    let mut world = two_folder_world();
    world.refused_commits.push("folders".to_string());
    let (report, _) = world.run(FolderSyncStrategy::All, false);
    assert_eq!(report.folders_cache_patch.1.as_ref().map(|e| e.message.as_str()), Some("disk full"));
    assert!(report.emails_cache_patch.1.is_none());
    assert_eq!(report.emails_patch.len(), 4);
    assert!(!report.is_success());
}

#[test]
fn sink_that_asks_to_stop_gets_the_hunks_done_so_far() {
    let mut world = two_folder_world();
    world.stop_at = Some("hunk Adding envelope A1 to cache folder Archive".to_string());
    let (report, cause) = world.run(FolderSyncStrategy::All, false);
    assert_eq!(cause, Some("sink said stop".to_string()));
    assert_eq!(report.folders_patch.len(), 1);
    assert_eq!(report.emails_patch.len(), 2);
    assert!(report.emails_patch.all_succeeded());
    assert!(report.emails_cache_patch.0.is_empty());
    assert_eq!(world.cache_mail.get("Archive").map(|m| m.len()).unwrap_or(0), 0);
    assert!(!world.requests.iter().any(|r| r.starts_with("commit envelopes")));
}

#[test]
fn strategy_limits_both_passes() {
    let mut world = two_folder_world();
    let (report, _) = world.run(FolderSyncStrategy::Include(vec!["INBOX".to_string()]), false);
    assert!(report.folders_patch.is_empty());
    assert_eq!(report.emails_patch.len(), 2);
    assert_eq!(names(&world.cache), vec!["INBOX".to_string()]);

    let mut world = two_folder_world();
    let (report, _) = world.run(FolderSyncStrategy::Exclude(vec!["INBOX".to_string()]), false);
    assert_eq!(report.folders_patch.len(), 1);
    assert_eq!(report.emails_patch.len(), 2);
    for (hunk, _) in &report.emails_patch.entries {
        assert_eq!(hunk.folder, "Archive");
    }
}

#[test]
fn flag_change_on_remote_reaches_the_cache_on_the_next_run() {
    let mut world = World::new(&["INBOX"], &["INBOX"]);
    let seen = Flags { seen: true, ..plain() };
    world.put(Side::Remote, "INBOX", "E1", seen, 1);
    let (report, _) = world.run(FolderSyncStrategy::All, false);
    assert_eq!(report.emails_patch.len(), 1);
    let (hunk, _) = &report.emails_patch.entries[0];
    assert_eq!((hunk.id.as_str(), hunk.target), ("E1", Side::Cache));
    assert_eq!(hunk.change, EnvelopeChange::Create { flags: seen, size: 10, marker: 1 });

    let seen_flagged = Flags { seen: true, flagged: true, ..plain() };
    assert!(world.remote_mail.get_mut("INBOX").unwrap().set_flags(&"E1".to_string(), seen_flagged, 1));
    let (report, _) = world.run(FolderSyncStrategy::All, true);
    assert_eq!(report.emails_patch.len(), 1);
    let (hunk, outcome) = &report.emails_patch.entries[0];
    assert_eq!((hunk.id.as_str(), hunk.target), ("E1", Side::Cache));
    assert_eq!(hunk.change, EnvelopeChange::UpdateFlags { flags: seen_flagged, marker: 1 });
    assert!(outcome.is_none());
}

#[test]
fn response_out_of_turn_ends_the_run() {
    let mut session = Session::new(FolderSyncStrategy::All, false);
    let step = session.step(Response::Commit(None));
    assert!(matches!(step.request, Request::Finish));
    assert!(step.notify.is_empty());
    assert!(session.is_finished());
    assert_eq!(session.aborted().as_ref().map(|e| e.message.as_str()), Some("unexpected response"));
    let step = session.step(Response::Start);
    assert!(matches!(step.request, Request::Finish));
    let report = session.into_report();
    assert!(report.folders_patch.is_empty());
    assert!(report.emails_patch.is_empty());
}

#[test]
fn abort_before_anything_is_listed_gives_an_empty_report() {
    let mut session = Session::new(FolderSyncStrategy::All, false);
    let step = session.step(Response::Start);
    assert!(matches!(step.request, Request::ListFolders));
    assert_eq!(session.phase(), Phase::ListingFolders);
    let step = session.step(Response::Abort(SyncError { message: "no network".to_string() }));
    assert!(matches!(step.request, Request::Finish));
    assert_eq!(session.aborted().as_ref().map(|e| e.message.as_str()), Some("no network"));
    assert_eq!(session.into_report().hunks_count(), Some(0));
}
