use mail_sync::applier::{apply, Applier, Reply};
use mail_sync::hunk::{EnvelopeChange, EnvelopeHunk, Flags, FolderHunk, Side};
use mail_sync::patch::{Patch, SyncError};

fn error(text: &str) -> SyncError {
    SyncError { message: text.to_string() }
}

fn creation(id: &str) -> EnvelopeHunk {
    EnvelopeHunk {
        folder: "INBOX".to_string(),
        id: id.to_string(),
        target: Side::Cache,
        change: EnvelopeChange::Create {
            flags: Flags { seen: false, answered: false, flagged: false, draft: false },
            size: 1,
            marker: 1,
        },
    }
}

fn creations(ids: &[&str]) -> Patch<EnvelopeHunk> {
    let mut patch = Patch::new();
    for id in ids {
        patch.push(creation(id), None);
    }
    patch
}

fn outcomes(patch: &Patch<EnvelopeHunk>) -> Vec<(String, Option<String>)> {
    patch
        .entries
        .iter()
        .map(|(hunk, outcome)| (hunk.id.clone(), outcome.as_ref().map(|e| e.message.clone())))
        .collect()
}

#[test]
fn successful_hunks_all_show_no_error() {
    let patch = creations(&["a", "b", "c"]);
    let result = apply(patch, vec![Reply::Done(None), Reply::Done(None), Reply::Done(None)]);
    assert!(result.aborted.is_none());
    assert!(result.patch.all_succeeded());
    assert_eq!(
        outcomes(&result.patch),
        vec![("a".to_string(), None), ("b".to_string(), None), ("c".to_string(), None)]
    );
}

#[test]
fn one_failed_hunk_does_not_stop_the_others() {
    let patch = creations(&["a", "b", "c", "d"]);
    let replies =
        vec![Reply::Done(None), Reply::Done(Some(error("no permission"))), Reply::Done(None), Reply::Done(None)];
    let result = apply(patch, replies);
    assert!(result.aborted.is_none());
    assert_eq!(result.patch.len(), 4);
    assert!(!result.patch.all_succeeded());
    assert_eq!(
        outcomes(&result.patch),
        vec![
            ("a".to_string(), None),
            ("b".to_string(), Some("no permission".to_string())),
            ("c".to_string(), None),
            ("d".to_string(), None),
        ]
    );
    assert_eq!(result.patch.entries.iter().filter(|(_, outcome)| outcome.is_some()).count(), 1);
}

#[test]
fn abort_keeps_the_hunks_settled_before() {
    let patch = creations(&["a", "b", "c"]);
    let replies = vec![
        Reply::Done(Some(error("broken"))),
        Reply::Abort(error("connection lost")),
        Reply::Done(None),
    ];
    let result = apply(patch, replies);
    assert_eq!(result.aborted.map(|e| e.message), Some("connection lost".to_string()));
    assert_eq!(outcomes(&result.patch), vec![("a".to_string(), Some("broken".to_string()))]);
}

#[test]
fn missing_and_spare_replies_are_tolerated() {
    let result = apply(creations(&["a", "b"]), vec![Reply::Done(None)]);
    assert!(result.aborted.is_none());
    assert_eq!(outcomes(&result.patch), vec![("a".to_string(), None)]);

    let result = apply(
        creations(&["a"]),
        vec![Reply::Done(None), Reply::Done(Some(error("late"))), Reply::Abort(error("late"))],
    );
    assert!(result.aborted.is_none());
    assert_eq!(outcomes(&result.patch), vec![("a".to_string(), None)]);

    let result = apply(creations(&[]), vec![]);
    assert!(result.aborted.is_none());
    assert!(result.patch.is_empty());
}

#[test]
fn applier_hands_out_hunks_in_order() {
    let mut applier = Applier::new(creations(&["a", "b"]));
    assert_eq!(applier.next().map(|h| h.id.clone()), Some("a".to_string()));
    assert!(applier.settled().is_empty());
    applier.feed(Reply::Done(Some(error("first"))));
    assert_eq!(applier.next().map(|h| h.id.clone()), Some("b".to_string()));
    assert_eq!(applier.settled().len(), 1);
    applier.feed(Reply::Done(None));
    assert!(applier.next().is_none());
    applier.feed(Reply::Done(Some(error("nobody asked"))));
    let done = applier.finish();
    assert!(done.aborted.is_none());
    assert_eq!(
        outcomes(&done.patch),
        vec![("a".to_string(), Some("first".to_string())), ("b".to_string(), None)]
    );
}

#[test]
fn stopped_applier_hands_out_nothing_more() {
    let mut applier = Applier::new(creations(&["a", "b", "c"]));
    applier.feed(Reply::Done(None));
    applier.feed(Reply::Abort(error("stop")));
    assert!(applier.next().is_none());
    applier.feed(Reply::Done(None));
    let whole = applier.into_whole();
    assert_eq!(
        outcomes(&whole),
        vec![("a".to_string(), None), ("b".to_string(), None), ("c".to_string(), None)]
    );
}

#[test]
fn applier_drops_the_outcomes_of_the_patch_it_is_given() {
    let mut patch: Patch<FolderHunk> = Patch::new();
    patch.push(FolderHunk::create("Archive".to_string(), Side::Cache), Some(error("earlier")));
    patch.push(FolderHunk::delete("Old".to_string(), Side::Remote), None);
    let mut applier = Applier::new(patch);
    assert_eq!(applier.next().map(|h| h.name.clone()), Some("Archive".to_string()));
    applier.feed(Reply::Done(None));
    assert_eq!(applier.next().map(|h| h.folder().clone()), Some("Old".to_string()));
    applier.feed(Reply::Done(None));
    let done = applier.finish();
    assert!(done.patch.all_succeeded());
    assert_eq!(done.patch.len(), 2);
}
