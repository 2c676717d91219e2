//! What the synchronization command prints: the preview of a dry run, the
//! errors of a run, and the closing message.

use vstd::prelude::*;
use vstd::string::StringExecFns;
use crate::account::AccountSyncCommand;
use crate::hunk::{
    envelope_hunk_text, folder_hunk_text, EnvelopeHunk, EnvelopeHunkView, FolderHunk,
    FolderHunkView,
};
use crate::names::texts;
use crate::patch::{outcome_view, OutcomeView, Patch, SyncError};
use crate::report::{SyncReport, SyncReportView};
use crate::text::{decimal, decimal_text};

verus! {

/// A hunk in words, with the text of its error if it has one.
pub type Described = (Seq<char>, OutcomeView);

/// The hunks of a folder patch in words.
pub open spec fn described_folders(patch: Seq<(FolderHunkView, OutcomeView)>) -> Seq<Described> {
    patch.map_values(|e: (FolderHunkView, OutcomeView)| (folder_hunk_text(e.0), e.1))
}

/// The hunks of an envelope patch in words.
pub open spec fn described_envelopes(patch: Seq<(EnvelopeHunkView, OutcomeView)>) -> Seq<
    Described,
> {
    patch.map_values(|e: (EnvelopeHunkView, OutcomeView)| (envelope_hunk_text(e.0), e.1))
}

/// The line that lists one hunk.
pub open spec fn bullet(text: Seq<char>) -> Seq<char> {
    " - "@ + text
}

/// The line that lists one hunk with its error.
pub open spec fn error_bullet(entry: Described) -> Seq<char> {
    bullet(entry.0) + ": "@ + entry.1.unwrap()
}

/// The part of a preview that lists one patch: nothing for a patch without
/// hunks; else the heading, a line for each hunk, and an empty line.
pub open spec fn preview_section(heading: Seq<char>, entries: Seq<Described>) -> Seq<Seq<char>> {
    if entries.len() == 0 {
        Seq::empty()
    } else {
        seq![heading] + entries.map_values(|e: Described| bullet(e.0)) + seq![Seq::<char>::empty()]
    }
}

/// The hunks that have an error, in their order.
pub open spec fn with_error(entries: Seq<Described>) -> Seq<Described> {
    entries.filter(|e: Described| e.1.is_some())
}

/// The part of the errors that lists the failed hunks of one patch:
/// nothing where none failed; else an empty line, the heading, and a line
/// for each failed hunk.
pub open spec fn error_section(heading: Seq<char>, entries: Seq<Described>) -> Seq<Seq<char>> {
    if with_error(entries).len() == 0 {
        Seq::empty()
    } else {
        seq![Seq::<char>::empty(), heading] + with_error(entries).map_values(
            |e: Described| error_bullet(e),
        )
    }
}

/// The part of the errors that tells of a failed commit of the cache:
/// nothing where it went through; else an empty line and the error.
pub open spec fn commit_section(prefix: Seq<char>, outcome: OutcomeView) -> Seq<Seq<char>> {
    match outcome {
        Some(error) => seq![Seq::<char>::empty(), prefix + error],
        None => Seq::empty(),
    }
}

/// The preview of a dry run: the folder patch, then the envelope patch.
pub open spec fn preview_lines(report: SyncReportView) -> Seq<Seq<char>> {
    preview_section("Folders patch:"@, described_folders(report.folders_patch)) + preview_section(
        "Envelopes patch:"@,
        described_envelopes(report.emails_patch),
    )
}

/// The closing message of a dry run.
pub open spec fn preview_summary(account: Seq<char>, report: SyncReportView) -> Seq<char> {
    "Estimated patch length for account "@ + account + " to be synchronized: "@ + decimal(
        report.hunks_count(),
    )
}

/// The errors of a run: the failed folder hunks, the failed commit of the
/// folder pass, the failed envelope hunks, the failed commit of the
/// envelope pass. Each listing speaks of its own patch.
pub open spec fn error_lines(report: SyncReportView) -> Seq<Seq<char>> {
    error_section(
        "Errors occurred while applying the folders patch:"@,
        described_folders(report.folders_patch),
    ) + commit_section(
        "Error occurred while applying the folder cache patch: "@,
        report.folders_cache_patch.1,
    ) + error_section(
        "Errors occurred while applying the envelopes patch:"@,
        described_envelopes(report.emails_patch),
    ) + commit_section(
        "Error occurred while applying the envelopes cache patch: "@,
        report.emails_cache_patch.1,
    )
}

/// The closing message of a run: success only where nothing failed.
pub open spec fn closing_line(account: Seq<char>, report: SyncReportView) -> Seq<char> {
    if report.is_success() {
        "Account "@ + account + " successfully synchronized!"@
    } else {
        "Account "@ + account + " synchronized only in part, see the errors above"@
    }
}

/// The lines that the command logs before its closing message.
pub open spec fn printed_log(dry_run: bool, json: bool, report: SyncReportView) -> Seq<Seq<char>> {
    if dry_run {
        preview_lines(report)
    } else if json {
        Seq::empty()
    } else {
        error_lines(report)
    }
}

/// The closing message of the command.
pub open spec fn printed_message(dry_run: bool, account: Seq<char>, report: SyncReportView) -> Seq<
    char,
> {
    if dry_run {
        preview_summary(account, report)
    } else {
        closing_line(account, report)
    }
}

/// What the command prints: lines for the log, then one message.
#[derive(Debug)]
pub struct Printout {
    pub log: Vec<String>,
    pub message: String,
}

/// Hunks in words as contracts see them.
pub open spec fn described_view(entries: Seq<(String, Option<String>)>) -> Seq<Described> {
    entries.map_values(
        |e: (String, Option<String>)|
            (
                e.0@,
                match e.1 {
                    Some(error) => Some(error@),
                    None => None,
                },
            ),
    )
}

/// Puts the hunks of a folder patch in words.
pub fn describe_folders(patch: &Patch<FolderHunk>) -> (entries: Vec<(String, Option<String>)>)
    ensures
        described_view(entries@) == described_folders(patch@),
{
    let mut entries: Vec<(String, Option<String>)> = Vec::new();
    let mut i: usize = 0;
    while i < patch.entries.len()
        invariant
            i <= patch.entries.len(),
            described_view(entries@) == described_folders(patch@.take(i as int)),
        decreases patch.entries.len() - i,
    {
        let ghost before = described_view(entries@);
        let text = patch.entries[i].0.describe();
        let error = match &patch.entries[i].1 {
            Some(error) => Some(error.message.clone()),
            None => None,
        };
        entries.push((text, error));
        proof {
            let added = (folder_hunk_text(patch@[i as int].0), patch@[i as int].1);
            assert(described_view(entries@) =~= before.push(added));
            assert(described_folders(patch@.take(i + 1)) =~= described_folders(
                patch@.take(i as int),
            ).push(added));
        }
        i += 1;
    }
    proof {
        assert(patch@.take(i as int) =~= patch@);
    }
    entries
}

/// Puts the hunks of an envelope patch in words.
pub fn describe_envelopes(patch: &Patch<EnvelopeHunk>) -> (entries: Vec<(String, Option<String>)>)
    ensures
        described_view(entries@) == described_envelopes(patch@),
{
    let mut entries: Vec<(String, Option<String>)> = Vec::new();
    let mut i: usize = 0;
    while i < patch.entries.len()
        invariant
            i <= patch.entries.len(),
            described_view(entries@) == described_envelopes(patch@.take(i as int)),
        decreases patch.entries.len() - i,
    {
        let ghost before = described_view(entries@);
        let text = patch.entries[i].0.describe();
        let error = match &patch.entries[i].1 {
            Some(error) => Some(error.message.clone()),
            None => None,
        };
        entries.push((text, error));
        proof {
            let added = (envelope_hunk_text(patch@[i as int].0), patch@[i as int].1);
            assert(described_view(entries@) =~= before.push(added));
            assert(described_envelopes(patch@.take(i + 1)) =~= described_envelopes(
                patch@.take(i as int),
            ).push(added));
        }
        i += 1;
    }
    proof {
        assert(patch@.take(i as int) =~= patch@);
    }
    entries
}

/// Appends to `log` the part of a preview that lists one patch.
fn push_preview_section(log: &mut Vec<String>, heading: &str, entries: &Vec<(String, Option<String>)>)
    ensures
        texts(final(log)@) == texts(old(log)@) + preview_section(
            heading@,
            described_view(entries@),
        ),
{
    let ghost start = texts(log@);
    let ghost all = described_view(entries@);
    if entries.len() == 0 {
        proof {
            assert(start + Seq::<Seq<char>>::empty() =~= start);
        }
        return ;
    }
    log.push(String::from_str(heading));
    let mut i: usize = 0;
    proof {
        assert(texts(log@) =~= start + seq![heading@] + all.take(0).map_values(
            |e: Described| bullet(e.0),
        ));
    }
    while i < entries.len()
        invariant
            i <= entries.len(),
            all == described_view(entries@),
            texts(log@) == start + seq![heading@] + all.take(i as int).map_values(
                |e: Described| bullet(e.0),
            ),
        decreases entries.len() - i,
    {
        let ghost before = texts(log@);
        let mut line = String::from_str(" - ");
        line.append(entries[i].0.as_str());
        log.push(line);
        proof {
            assert(line@ == bullet(all[i as int].0));
            assert(texts(log@) =~= before.push(line@));
            assert(all.take(i + 1).map_values(|e: Described| bullet(e.0)) =~= all.take(
                i as int,
            ).map_values(|e: Described| bullet(e.0)).push(line@));
        }
        i += 1;
    }
    let ghost before = texts(log@);
    log.push(String::new());
    proof {
        assert(all.take(i as int) =~= all);
        assert(texts(log@) =~= before.push(Seq::<char>::empty()));
        assert(texts(log@) =~= start + preview_section(heading@, all));
    }
}

/// Appends to `log` the part of the errors that lists the failed hunks of
/// one patch.
fn push_error_section(log: &mut Vec<String>, heading: &str, entries: &Vec<(String, Option<String>)>)
    ensures
        texts(final(log)@) == texts(old(log)@) + error_section(heading@, described_view(entries@)),
{
    let ghost start = texts(log@);
    let ghost all = described_view(entries@);
    let ghost failing = |e: Described| e.1.is_some();
    let mut lines: Vec<String> = Vec::new();
    let mut i: usize = 0;
    proof {
        reveal(Seq::filter);
        assert(all.take(0).filter(failing) =~= Seq::empty());
        assert(texts(lines@) =~= all.take(0).filter(failing).map_values(
            |e: Described| error_bullet(e),
        ));
    }
    while i < entries.len()
        invariant
            i <= entries.len(),
            all == described_view(entries@),
            failing == |e: Described| e.1.is_some(),
            texts(lines@) == all.take(i as int).filter(failing).map_values(
                |e: Described| error_bullet(e),
            ),
        decreases entries.len() - i,
    {
        let ghost before = texts(lines@);
        let ghost kept = all.take(i as int).filter(failing);
        proof {
            assert(all.take(i + 1) =~= all.take(i as int).push(all[i as int]));
            all.take(i as int).lemma_filter_push(all[i as int], failing);
        }
        match &entries[i].1 {
            Some(error) => {
                let mut line = String::from_str(" - ");
                line.append(entries[i].0.as_str());
                line.append(": ");
                line.append(error.as_str());
                lines.push(line);
                proof {
                    assert(line@ == error_bullet(all[i as int]));
                    assert(texts(lines@) =~= before.push(line@));
                    assert(kept.push(all[i as int]).map_values(|e: Described| error_bullet(e))
                        =~= kept.map_values(|e: Described| error_bullet(e)).push(line@));
                }
            },
            None => {},
        }
        i += 1;
    }
    proof {
        assert(all.take(i as int) =~= all);
        assert(texts(lines@).len() == with_error(all).len());
    }
    if lines.len() == 0 {
        proof {
            assert(start + Seq::<Seq<char>>::empty() =~= start);
        }
        return ;
    }
    let ghost listed = texts(lines@);
    log.push(String::new());
    log.push(String::from_str(heading));
    proof {
        assert(texts(log@) =~= start + seq![Seq::<char>::empty(), heading@]);
    }
    let ghost headed = texts(log@);
    log.append(&mut lines);
    proof {
        assert(texts(log@) =~= headed + listed);
        assert(texts(log@) =~= start + error_section(heading@, all));
    }
}

/// Appends to `log` the part of the errors that tells of a failed commit.
fn push_commit_section(log: &mut Vec<String>, prefix: &str, outcome: &Option<SyncError>)
    ensures
        texts(final(log)@) == texts(old(log)@) + commit_section(prefix@, outcome_view(*outcome)),
{
    let ghost start = texts(log@);
    match outcome {
        Some(error) => {
            log.push(String::new());
            let mut line = String::from_str(prefix);
            line.append(error.message.as_str());
            log.push(line);
            proof {
                assert(texts(log@) =~= start + seq![Seq::<char>::empty(), prefix@ + error@]);
            }
        },
        None => {
            proof {
                assert(start + Seq::<Seq<char>>::empty() =~= start);
            }
        },
    }
}

impl AccountSyncCommand {
    /// What the command prints for `report`, the report of the run that it
    /// asked for. A dry run lists both patches and closes with their
    /// length. Any other run lists what failed, unless the output is JSON,
    /// and closes with a line that speaks of success only where nothing failed.
    pub fn printout(&self, account_name: &String, report: &SyncReport, json: bool) -> (out:
        Printout)
        ensures
            texts(out.log@) == printed_log(self.dry_run, json, report@),
            out.message@ == printed_message(self.dry_run, account_name@, report@),
    {
        let mut log: Vec<String> = Vec::new();
        proof {
            assert(texts(log@) =~= Seq::empty());
        }
        if self.dry_run {
            let folders = describe_folders(&report.folders_patch);
            let envelopes = describe_envelopes(&report.emails_patch);
            push_preview_section(&mut log, "Folders patch:", &folders);
            push_preview_section(&mut log, "Envelopes patch:", &envelopes);
            let count = report.folders_patch.len() as u128 + report.emails_patch.len() as u128;
            let mut message = String::from_str("Estimated patch length for account ");
            message.append(account_name.as_str());
            message.append(" to be synchronized: ");
            message.append(decimal_text(count).as_str());
            proof {
                assert(texts(log@) =~= preview_lines(report@));
            }
            Printout { log, message }
        } else {
            if !json {
                let folders = describe_folders(&report.folders_patch);
                let envelopes = describe_envelopes(&report.emails_patch);
                push_error_section(
                    &mut log,
                    "Errors occurred while applying the folders patch:",
                    &folders,
                );
                push_commit_section(
                    &mut log,
                    "Error occurred while applying the folder cache patch: ",
                    &report.folders_cache_patch.1,
                );
                push_error_section(
                    &mut log,
                    "Errors occurred while applying the envelopes patch:",
                    &envelopes,
                );
                push_commit_section(
                    &mut log,
                    "Error occurred while applying the envelopes cache patch: ",
                    &report.emails_cache_patch.1,
                );
                proof {
                    assert(texts(log@) =~= error_lines(report@));
                }
            }
            let mut message = String::from_str("Account ");
            message.append(account_name.as_str());
            if report.is_success() {
                message.append(" successfully synchronized!");
            } else {
                message.append(" synchronized only in part, see the errors above");
            }
            Printout { log, message }
        }
    }
}

} // verus!
