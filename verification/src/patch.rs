//! Patches: ordered hunks, each with what became of it.

use vstd::prelude::*;

verus! {

/// Why a hunk, or a commit of the cache's bookkeeping, failed.
#[derive(Debug)]
pub struct SyncError {
    pub message: String,
}

impl View for SyncError {
    type V = Seq<char>;

    open spec fn view(&self) -> Seq<char> {
        self.message@
    }
}

impl SyncError {
    /// A copy of this error.
    pub fn duplicate(&self) -> (copy: SyncError)
        ensures
            copy@ == self@,
    {
        SyncError { message: self.message.clone() }
    }
}

/// What became of a hunk: nothing said, or the text of its error.
pub type OutcomeView = Option<Seq<char>>;

/// An outcome as contracts see it.
pub open spec fn outcome_view(outcome: Option<SyncError>) -> OutcomeView {
    match outcome {
        Some(error) => Some(error@),
        None => None,
    }
}

/// An ordered sequence of hunks, each paired with its outcome: `None` while
/// it is not applied and once it is applied with success, the error once it
/// has failed.
#[derive(Debug)]
pub struct Patch<H> {
    pub entries: Vec<(H, Option<SyncError>)>,
}

/// The entries of a patch as contracts see them.
pub open spec fn entries_view<H: View>(entries: Seq<(H, Option<SyncError>)>) -> Seq<
    (H::V, OutcomeView),
> {
    entries.map_values(|e: (H, Option<SyncError>)| (e.0@, outcome_view(e.1)))
}

/// The patch that holds `hunks` in their order, none of them applied.
pub open spec fn preview<V>(hunks: Seq<V>) -> Seq<(V, OutcomeView)> {
    hunks.map_values(|h: V| (h, None::<Seq<char>>))
}

/// The hunks of a patch, in their order.
pub open spec fn hunks_of<V>(patch: Seq<(V, OutcomeView)>) -> Seq<V> {
    patch.map_values(|e: (V, OutcomeView)| e.0)
}

impl<H: View> View for Patch<H> {
    type V = Seq<(H::V, OutcomeView)>;

    open spec fn view(&self) -> Seq<(H::V, OutcomeView)> {
        entries_view(self.entries@)
    }
}

impl<H: View> Patch<H> {
    /// The patch without hunks.
    pub fn new() -> (patch: Patch<H>)
        ensures
            patch@ == Seq::<(H::V, OutcomeView)>::empty(),
    {
        let patch = Patch { entries: Vec::new() };
        assert(patch@ =~= Seq::<(H::V, OutcomeView)>::empty());
        patch
    }

    /// How many hunks the patch holds.
    pub fn len(&self) -> (n: usize)
        ensures
            n == self@.len(),
    {
        self.entries.len()
    }

    /// Whether the patch holds no hunk.
    pub fn is_empty(&self) -> (empty: bool)
        ensures
            empty == (self@.len() == 0),
    {
        self.entries.len() == 0
    }

    /// Adds `hunk` at the end, with `outcome`.
    pub fn push(&mut self, hunk: H, outcome: Option<SyncError>)
        ensures
            final(self)@ == old(self)@.push((hunk@, outcome_view(outcome))),
    {
        self.entries.push((hunk, outcome));
        assert(self@ =~= old(self)@.push((hunk@, outcome_view(outcome))));
    }
}

/// Whether no hunk of the patch has an error.
pub open spec fn all_succeeded<V>(patch: Seq<(V, OutcomeView)>) -> bool {
    forall|i: int| 0 <= i < patch.len() ==> (#[trigger] patch[i]).1.is_none()
}

/// The entries of the patch whose hunk has no error, in their order.
pub open spec fn succeeded<V>(patch: Seq<(V, OutcomeView)>) -> Seq<(V, OutcomeView)> {
    patch.filter(|e: (V, OutcomeView)| e.1.is_none())
}

impl<H: View> Patch<H> {
    /// Whether no hunk of the patch has an error.
    pub fn all_succeeded(&self) -> (ok: bool)
        ensures
            ok == all_succeeded(self@),
    {
        let mut i: usize = 0;
        while i < self.entries.len()
            invariant
                i <= self.entries.len(),
                forall|j: int| 0 <= j < i ==> (#[trigger] self@[j]).1.is_none(),
            decreases self.entries.len() - i,
        {
            if self.entries[i].1.is_some() {
                assert(self@[i as int].1.is_some());
                return false;
            }
            i += 1;
        }
        true
    }
}

} // verus!
