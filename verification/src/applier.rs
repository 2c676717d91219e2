//! The applier: hands out the hunks of a patch one by one and records what
//! became of each. Whoever talks to the stores performs the hunk and feeds
//! back the reply.

use vstd::prelude::*;
use crate::patch::{
    entries_view, hunks_of, outcome_view, preview, OutcomeView, Patch, SyncError,
};

verus! {

/// What came back for the hunk that was handed out.
#[derive(Debug)]
pub enum Reply {
    /// The hunk was performed: with success, or with the error of this one
    /// hunk, which does not stop the others.
    Done(Option<SyncError>),
    /// No more hunks shall be handed out: the progress sink asked to stop,
    /// or the stores are out of reach altogether.
    Abort(SyncError),
}

/// A reply as contracts see it.
pub enum ReplyView {
    Done(OutcomeView),
    Abort(Seq<char>),
}

impl View for Reply {
    type V = ReplyView;

    open spec fn view(&self) -> ReplyView {
        match self {
            Reply::Done(outcome) => ReplyView::Done(outcome_view(*outcome)),
            Reply::Abort(cause) => ReplyView::Abort(cause@),
        }
    }
}

/// An applier as contracts see it.
pub struct ApplierView<V> {
    /// All hunks of the patch, in their order.
    pub hunks: Seq<V>,
    /// The hunks that have an outcome, with it: a prefix of `hunks`.
    pub patch: Seq<(V, OutcomeView)>,
    /// Why no more hunks are handed out, once that is so.
    pub aborted: OutcomeView,
}

impl<V> ApplierView<V> {
    /// The applier that has not handed out any of `hunks` yet.
    pub open spec fn start(hunks: Seq<V>) -> ApplierView<V> {
        ApplierView { hunks, patch: Seq::empty(), aborted: None }
    }

    /// The settled hunks are the first hunks of the patch.
    pub open spec fn wf(self) -> bool {
        &&& self.patch.len() <= self.hunks.len()
        &&& hunks_of(self.patch) == self.hunks.take(self.patch.len() as int)
    }

    /// Every hunk of the patch: those with an outcome, then the others as
    /// not applied.
    pub open spec fn whole(self) -> Seq<(V, OutcomeView)> {
        self.patch + preview(self.hunks.skip(self.patch.len() as int))
    }

    /// Whether a hunk is to be handed out.
    pub open spec fn is_active(self) -> bool {
        self.aborted.is_none() && self.patch.len() < self.hunks.len()
    }

    /// The hunk that is handed out next, if any is.
    pub open spec fn next(self) -> Option<V> {
        if self.is_active() {
            Some(self.hunks[self.patch.len() as int])
        } else {
            None
        }
    }

    /// The applier after `reply` came in for the hunk that was handed out.
    /// Where none was handed out, the reply changes nothing.
    pub open spec fn fed(self, reply: ReplyView) -> ApplierView<V> {
        if !self.is_active() {
            self
        } else {
            match reply {
                ReplyView::Done(outcome) => ApplierView {
                    patch: self.patch.push((self.hunks[self.patch.len() as int], outcome)),
                    ..self
                },
                ReplyView::Abort(cause) => ApplierView { aborted: Some(cause), ..self },
            }
        }
    }

    /// The applier after `replies` came in, one after the other.
    pub open spec fn fed_all(self, replies: Seq<ReplyView>) -> ApplierView<V>
        decreases replies.len(),
    {
        if replies.len() == 0 {
            self
        } else {
            self.fed_all(replies.drop_last()).fed(replies.last())
        }
    }
}

/// What applying a patch gave: the hunks that were performed, in the order
/// of the patch, each with its outcome; and, where the application was
/// stopped before the last hunk, the cause.
#[derive(Debug)]
pub struct Applied<H> {
    pub patch: Patch<H>,
    pub aborted: Option<SyncError>,
}

/// Hands out the hunks of one patch in their order.
#[derive(Debug)]
pub struct Applier<H> {
    /// The hunks without an outcome, the next one last.
    waiting: Vec<H>,
    done: Patch<H>,
    aborted: Option<SyncError>,
}

impl<H: View> View for Applier<H> {
    type V = ApplierView<H::V>;

    closed spec fn view(&self) -> ApplierView<H::V> {
        ApplierView {
            hunks: hunks_of(self.done@) + self.waiting@.map_values(|h: H| h@).reverse(),
            patch: self.done@,
            aborted: outcome_view(self.aborted),
        }
    }
}

impl<H: View> Applier<H> {
    /// The applier of `patch`: it will hand out the hunks of `patch` in
    /// their order. What the patch says of their outcomes is dropped.
    pub fn new(patch: Patch<H>) -> (applier: Applier<H>)
        ensures
            applier@ == ApplierView::start(hunks_of(patch@)),
            applier@.wf(),
    {
        let ghost hunks = hunks_of(patch@);
        let mut entries = patch.entries;
        let mut waiting: Vec<H> = Vec::new();
        while entries.len() > 0
            invariant
                hunks == hunks_of(entries_view(entries@)) + waiting@.map_values(
                    |h: H| h@,
                ).reverse(),
            decreases entries.len(),
        {
            let ghost before = entries@;
            let ghost waited = waiting@.map_values(|h: H| h@);
            let entry = entries.pop().unwrap();
            let (hunk, _) = entry;
            waiting.push(hunk);
            proof {
                let now = waiting@.map_values(|h: H| h@);
                assert(now =~= waited.push(hunk@));
                assert(now.reverse() =~= seq![hunk@] + waited.reverse());
                assert(hunks_of(entries_view(before)) =~= hunks_of(
                    entries_view(entries@),
                ).push(hunk@));
                assert(hunks =~= hunks_of(entries_view(entries@)) + now.reverse());
            }
        }
        let applier = Applier { waiting, done: Patch::new(), aborted: None };
        proof {
            assert(hunks_of(entries_view(entries@)) =~= Seq::<H::V>::empty());
            assert(hunks_of(applier.done@) =~= Seq::<H::V>::empty());
            assert(applier@.hunks =~= hunks);
            assert(hunks.take(0) =~= hunks_of(applier@.patch));
        }
        applier
    }

    /// The hunk to perform now, if any is: the first one without an
    /// outcome, unless the application was stopped.
    pub fn next(&self) -> (hunk: Option<&H>)
        ensures
            match hunk {
                Some(h) => self@.next() == Some(h@),
                None => self@.next().is_none(),
            },
    {
        if self.aborted.is_some() || self.waiting.len() == 0 {
            proof {
                if self.waiting.len() == 0 {
                    assert(self@.hunks =~= hunks_of(self.done@));
                }
            }
            None
        } else {
            let at = self.waiting.len() - 1;
            proof {
                let waited = self.waiting@.map_values(|h: H| h@);
                assert(waited.reverse()[0] == waited[at as int]);
                assert(self@.hunks[self@.patch.len() as int] == self.waiting@[at as int]@);
            }
            Some(&self.waiting[at])
        }
    }

    /// Takes in the reply to the hunk that `next` handed out. Where none
    /// was handed out, nothing changes.
    pub fn feed(&mut self, reply: Reply)
        ensures
            final(self)@ == old(self)@.fed(reply@),
            old(self)@.wf() ==> final(self)@.wf(),
    {
        let ghost before = self@;
        let ghost waited = self.waiting@.map_values(|h: H| h@);
        if self.aborted.is_some() || self.waiting.len() == 0 {
            proof {
                if self.waiting.len() == 0 {
                    assert(self@.hunks =~= hunks_of(self.done@));
                }
            }
            return ;
        }
        proof {
            let at = self.waiting.len() - 1;
            assert(waited.reverse()[0] == waited[at as int]);
            assert(before.hunks[before.patch.len() as int] == self.waiting@[at as int]@);
        }
        match reply {
            Reply::Done(outcome) => {
                let hunk = self.waiting.pop().unwrap();
                let ghost settled = (hunk@, outcome_view(outcome));
                self.done.push(hunk, outcome);
                proof {
                    let now = self.waiting@.map_values(|h: H| h@);
                    assert(now =~= waited.drop_last());
                    assert(waited.reverse() =~= seq![waited.last()] + now.reverse());
                    assert(hunks_of(self.done@) =~= hunks_of(before.patch).push(settled.0));
                    assert(self@.hunks =~= before.hunks);
                    if before.wf() {
                        assert(hunks_of(self@.patch) =~= self@.hunks.take(self@.patch.len() as int));
                    }
                }
            },
            Reply::Abort(cause) => {
                self.aborted = Some(cause);
            },
        }
    }

    /// The hunks that have an outcome, with it.
    pub fn settled(&self) -> (patch: &Patch<H>)
        ensures
            patch@ == self@.patch,
    {
        &self.done
    }

    /// Ends the application and gives every hunk of the patch: those with
    /// an outcome, then the others as not applied.
    pub fn into_whole(self) -> (patch: Patch<H>)
        ensures
            patch@ == self@.whole(),
    {
        let ghost start = self@;
        let mut waiting = self.waiting;
        let mut patch = self.done;
        proof {
            assert(start.hunks.skip(start.patch.len() as int) =~= waiting@.map_values(|h: H| h@).reverse());
        }
        while waiting.len() > 0
            invariant
                patch@ + preview(waiting@.map_values(|h: H| h@).reverse()) == start.whole(),
            decreases waiting.len(),
        {
            let ghost waited = waiting@.map_values(|h: H| h@);
            let ghost before = patch@;
            let hunk = waiting.pop().unwrap();
            patch.push(hunk, None);
            proof {
                let now = waiting@.map_values(|h: H| h@);
                assert(now =~= waited.drop_last());
                assert(waited.reverse() =~= seq![waited.last()] + now.reverse());
                assert(preview(waited.reverse()) =~= seq![(waited.last(), None::<Seq<char>>)]
                    + preview(now.reverse()));
                assert(patch@ + preview(now.reverse()) =~= before + preview(waited.reverse()));
            }
        }
        proof {
            assert(preview(waiting@.map_values(|h: H| h@).reverse()) =~= Seq::empty());
            assert(patch@ + Seq::empty() =~= patch@);
        }
        patch
    }

    /// Ends the application and gives the hunks that have an outcome.
    pub fn finish(self) -> (applied: Applied<H>)
        ensures
            applied.patch@ == self@.patch,
            outcome_view(applied.aborted) == self@.aborted,
    {
        Applied { patch: self.done, aborted: self.aborted }
    }
}

/// What applying `hunks` gives when `replies` come in, one for each hunk
/// that is handed out.
pub open spec fn applied<V>(hunks: Seq<V>, replies: Seq<ReplyView>) -> ApplierView<V> {
    ApplierView::start(hunks).fed_all(replies)
}

/// The views of replies.
pub open spec fn replies_view(replies: Seq<Reply>) -> Seq<ReplyView> {
    replies.map_values(|r: Reply| r@)
}

/// Applies `patch` against recorded replies: the first reply answers the
/// first hunk, and so on. A failed hunk does not stop the others; only a
/// reply that aborts does, and the hunks settled before it stay. Replies
/// beyond the last hunk, or after one that aborts, are not used.
pub fn apply<H: View>(patch: Patch<H>, replies: Vec<Reply>) -> (result: Applied<H>)
    ensures
        result.patch@ == applied(hunks_of(patch@), replies_view(replies@)).patch,
        outcome_view(result.aborted) == applied(hunks_of(patch@), replies_view(replies@)).aborted,
{
    let ghost hunks = hunks_of(patch@);
    let ghost all = replies_view(replies@);
    let mut applier = Applier::new(patch);
    let mut replies = replies;
    // The replies not yet used, the next one last.
    let mut rest: Vec<Reply> = Vec::new();
    while replies.len() > 0
        invariant
            all == replies_view(replies@) + replies_view(rest@).reverse(),
        decreases replies.len(),
    {
        let ghost before = replies_view(replies@);
        let ghost turned = replies_view(rest@);
        let reply = replies.pop().unwrap();
        rest.push(reply);
        proof {
            assert(replies_view(rest@) =~= turned.push(reply@));
            assert(before =~= replies_view(replies@).push(reply@));
            assert(replies_view(rest@).reverse() =~= seq![reply@] + turned.reverse());
            assert(all =~= replies_view(replies@) + replies_view(rest@).reverse());
        }
    }
    proof {
        assert(replies_view(replies@) =~= Seq::<ReplyView>::empty());
        assert(all =~= replies_view(rest@).reverse());
        assert(all.take(0) =~= Seq::<ReplyView>::empty());
    }
    let ghost mut used: int = 0;
    while rest.len() > 0
        invariant
            0 <= used <= all.len(),
            used + rest@.len() == all.len(),
            replies_view(rest@).reverse() == all.skip(used),
            applier@ == ApplierView::start(hunks).fed_all(all.take(used)),
        decreases rest.len(),
    {
        let ghost turned = replies_view(rest@);
        let reply = rest.pop().unwrap();
        proof {
            assert(turned.reverse()[0] == turned.last());
            assert(all.skip(used)[0] == all[used]);
            assert(reply@ == all[used]);
            assert(replies_view(rest@) =~= turned.drop_last());
            assert(turned.drop_last().reverse() =~= turned.reverse().skip(1));
            assert(all.skip(used).skip(1) =~= all.skip(used + 1));
            assert(replies_view(rest@).reverse() =~= all.skip(used + 1));
            assert(all.take(used + 1).drop_last() =~= all.take(used));
            assert(all.take(used + 1).last() == all[used]);
        }
        applier.feed(reply);
        proof {
            used = used + 1;
        }
    }
    proof {
        assert(all.take(used) =~= all);
    }
    applier.finish()
}

} // verus!
