//! Progress events: what a synchronization tells its progress sink while it
//! applies patches. They inform; nothing depends on them but a request to
//! stop.

use vstd::prelude::*;
use crate::hunk::{EnvelopeHunk, EnvelopeHunkView};
use crate::names::texts;

verus! {

/// One event of a synchronization, in the order in which they come.
#[derive(Debug)]
pub enum ProgressEvent {
    /// The folder patch is about to be applied.
    BeginFolderPatch,
    /// The envelope patch is about to be applied: the folders that it
    /// covers, each with the number of its hunks.
    BeginEnvelopePatch(Vec<(String, usize)>),
    /// This envelope hunk is applied next.
    EnvelopeHunk(EnvelopeHunk),
    /// The cache is about to record the envelope pass.
    BeginCachePatch,
    /// The passes are over; these folders were synchronized and can be
    /// expunged.
    FoldersExpunged(Vec<String>),
}

/// The sizes of the envelope patches as contracts see them.
pub open spec fn sizes_view(sizes: Seq<(String, usize)>) -> Seq<(Seq<char>, nat)> {
    sizes.map_values(|s: (String, usize)| (s.0@, s.1 as nat))
}

/// A progress event as contracts see it.
pub enum ProgressEventView {
    BeginFolderPatch,
    BeginEnvelopePatch(Seq<(Seq<char>, nat)>),
    EnvelopeHunk(EnvelopeHunkView),
    BeginCachePatch,
    FoldersExpunged(Seq<Seq<char>>),
}

impl View for ProgressEvent {
    type V = ProgressEventView;

    open spec fn view(&self) -> ProgressEventView {
        match self {
            ProgressEvent::BeginFolderPatch => ProgressEventView::BeginFolderPatch,
            ProgressEvent::BeginEnvelopePatch(sizes) => ProgressEventView::BeginEnvelopePatch(
                sizes_view(sizes@),
            ),
            ProgressEvent::EnvelopeHunk(hunk) => ProgressEventView::EnvelopeHunk(hunk@),
            ProgressEvent::BeginCachePatch => ProgressEventView::BeginCachePatch,
            ProgressEvent::FoldersExpunged(folders) => ProgressEventView::FoldersExpunged(
                texts(folders@),
            ),
        }
    }
}

/// Progress events in a row as contracts see them.
pub open spec fn events_view(events: Seq<ProgressEvent>) -> Seq<ProgressEventView> {
    events.map_values(|e: ProgressEvent| e@)
}

} // verus!
