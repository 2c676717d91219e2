//! The report of a synchronization.

use vstd::prelude::*;
use crate::hunk::{EnvelopeHunk, EnvelopeHunkView, FolderChange, FolderHunk, FolderHunkView};
use crate::patch::{all_succeeded, outcome_view, succeeded, OutcomeView, Patch, SyncError};

verus! {

/// What a synchronization did, or in a dry run, what it would do.
#[derive(Debug)]
pub struct SyncReport {
    /// The folder hunks, each with its outcome.
    pub folders_patch: Patch<FolderHunk>,
    /// What the cache was asked to record of the folder pass, and the
    /// error of that commit, if it failed.
    pub folders_cache_patch: (Patch<FolderHunk>, Option<SyncError>),
    /// The envelope hunks of all folders, each with its outcome.
    pub emails_patch: Patch<EnvelopeHunk>,
    /// What the cache was asked to record of the envelope pass, and the
    /// error of that commit, if it failed.
    pub emails_cache_patch: (Patch<EnvelopeHunk>, Option<SyncError>),
}

/// A report as contracts see it.
pub struct SyncReportView {
    pub folders_patch: Seq<(FolderHunkView, OutcomeView)>,
    pub folders_cache_patch: (Seq<(FolderHunkView, OutcomeView)>, OutcomeView),
    pub emails_patch: Seq<(EnvelopeHunkView, OutcomeView)>,
    pub emails_cache_patch: (Seq<(EnvelopeHunkView, OutcomeView)>, OutcomeView),
}

impl SyncReportView {
    /// Whether the synchronization succeeded as a whole: no hunk of either
    /// pass has an error, and both commits of the cache went through.
    pub open spec fn is_success(self) -> bool {
        &&& all_succeeded(self.folders_patch)
        &&& all_succeeded(self.emails_patch)
        &&& self.folders_cache_patch.1.is_none()
        &&& self.emails_cache_patch.1.is_none()
    }

    /// Whether the envelope patch keeps to folders that were there or that
    /// the folder patch created with success: no hunk of the folder patch
    /// creates the folder of an envelope hunk and has an error.
    pub open spec fn keeps_to_folders(self) -> bool {
        forall|k: int, i: int|
            0 <= k < self.emails_patch.len() && 0 <= i < self.folders_patch.len() && (
            #[trigger] self.folders_patch[i]).0.name == (#[trigger] self.emails_patch[k]).0.folder
                && self.folders_patch[i].0.change == FolderChange::Create
                ==> self.folders_patch[i].1.is_none()
    }

    /// How many hunks both passes hold.
    pub open spec fn hunks_count(self) -> nat {
        self.folders_patch.len() + self.emails_patch.len()
    }
}

impl View for SyncReport {
    type V = SyncReportView;

    open spec fn view(&self) -> SyncReportView {
        SyncReportView {
            folders_patch: self.folders_patch@,
            folders_cache_patch: (
                self.folders_cache_patch.0@,
                outcome_view(self.folders_cache_patch.1),
            ),
            emails_patch: self.emails_patch@,
            emails_cache_patch: (self.emails_cache_patch.0@, outcome_view(self.emails_cache_patch.1)),
        }
    }
}

impl SyncReport {
    /// Puts the four parts of a report together.
    pub fn assemble(
        folders_patch: Patch<FolderHunk>,
        folders_cache_patch: (Patch<FolderHunk>, Option<SyncError>),
        emails_patch: Patch<EnvelopeHunk>,
        emails_cache_patch: (Patch<EnvelopeHunk>, Option<SyncError>),
    ) -> (report: SyncReport)
        ensures
            report@ == (SyncReportView {
                folders_patch: folders_patch@,
                folders_cache_patch: (
                    folders_cache_patch.0@,
                    outcome_view(folders_cache_patch.1),
                ),
                emails_patch: emails_patch@,
                emails_cache_patch: (emails_cache_patch.0@, outcome_view(emails_cache_patch.1)),
            }),
    {
        SyncReport { folders_patch, folders_cache_patch, emails_patch, emails_cache_patch }
    }

    /// Whether the synchronization succeeded as a whole. With a hunk that
    /// failed, or a commit of the cache that failed, it did so only in part.
    pub fn is_success(&self) -> (ok: bool)
        ensures
            ok == self@.is_success(),
    {
        self.folders_patch.all_succeeded() && self.emails_patch.all_succeeded()
            && self.folders_cache_patch.1.is_none() && self.emails_cache_patch.1.is_none()
    }

    /// How many hunks both passes hold, where that number fits.
    pub fn hunks_count(&self) -> (count: Option<usize>)
        ensures
            match count {
                Some(n) => n == self@.hunks_count(),
                None => self@.hunks_count() > usize::MAX,
            },
    {
        self.folders_patch.len().checked_add(self.emails_patch.len())
    }
}

/// What the cache records of a folder pass: the hunks that were performed
/// with success, in their order.
pub fn recorded_folders(patch: &Patch<FolderHunk>) -> (record: Patch<FolderHunk>)
    ensures
        record@ == succeeded(patch@),
{
    let mut record: Patch<FolderHunk> = Patch::new();
    let ghost keep = |e: (FolderHunkView, OutcomeView)| e.1.is_none();
    let mut i: usize = 0;
    proof {
        reveal(Seq::filter);
        assert(patch@.take(0).filter(keep) =~= Seq::empty());
    }
    while i < patch.entries.len()
        invariant
            i <= patch.entries.len(),
            keep == |e: (FolderHunkView, OutcomeView)| e.1.is_none(),
            record@ == patch@.take(i as int).filter(keep),
        decreases patch.entries.len() - i,
    {
        proof {
            assert(patch@.take(i + 1) =~= patch@.take(i as int).push(patch@[i as int]));
            patch@.take(i as int).lemma_filter_push(patch@[i as int], keep);
        }
        if patch.entries[i].1.is_none() {
            record.push(patch.entries[i].0.duplicate(), None);
        }
        i += 1;
    }
    proof {
        assert(patch@.take(i as int) =~= patch@);
    }
    record
}

/// What the cache records of an envelope pass: the hunks that were
/// performed with success, in their order.
pub fn recorded_envelopes(patch: &Patch<EnvelopeHunk>) -> (record: Patch<EnvelopeHunk>)
    ensures
        record@ == succeeded(patch@),
{
    let mut record: Patch<EnvelopeHunk> = Patch::new();
    let ghost keep = |e: (EnvelopeHunkView, OutcomeView)| e.1.is_none();
    let mut i: usize = 0;
    proof {
        reveal(Seq::filter);
        assert(patch@.take(0).filter(keep) =~= Seq::empty());
    }
    while i < patch.entries.len()
        invariant
            i <= patch.entries.len(),
            keep == |e: (EnvelopeHunkView, OutcomeView)| e.1.is_none(),
            record@ == patch@.take(i as int).filter(keep),
        decreases patch.entries.len() - i,
    {
        proof {
            assert(patch@.take(i + 1) =~= patch@.take(i as int).push(patch@[i as int]));
            patch@.take(i as int).lemma_filter_push(patch@[i as int], keep);
        }
        if patch.entries[i].1.is_none() {
            record.push(patch.entries[i].0.duplicate(), None);
        }
        i += 1;
    }
    proof {
        assert(patch@.take(i as int) =~= patch@);
    }
    record
}

} // verus!
