//! What holds of every application of a patch.

use vstd::prelude::*;
use crate::applier::{applied, ApplierView, ReplyView};
use crate::patch::{hunks_of, preview, OutcomeView};

verus! {

/// Whether every reply says that its hunk was performed.
pub open spec fn none_aborts(replies: Seq<ReplyView>) -> bool {
    forall|i: int| 0 <= i < replies.len() ==> (#[trigger] replies[i]) is Done
}

/// The outcome that a reply gives its hunk.
pub open spec fn outcome_of(reply: ReplyView) -> OutcomeView {
    match reply {
        ReplyView::Done(outcome) => outcome,
        ReplyView::Abort(_) => None,
    }
}

/// The first hunks, each paired with the outcome of the reply at its place.
pub open spec fn paired<V>(hunks: Seq<V>, replies: Seq<ReplyView>) -> Seq<(V, OutcomeView)> {
    Seq::new(replies.len(), |i: int| (hunks[i], outcome_of(replies[i])))
}

/// Whatever the replies, the hunks with an outcome are the first hunks of
/// the patch, in the order of the patch.
pub proof fn law_apply_keeps_order<V>(hunks: Seq<V>, replies: Seq<ReplyView>)
    ensures
        applied(hunks, replies).hunks == hunks,
        applied(hunks, replies).wf(),
    decreases replies.len(),
{
    let start = ApplierView::start(hunks);
    if replies.len() == 0 {
        assert(hunks_of(start.patch) =~= hunks.take(0));
    } else {
        law_apply_keeps_order(hunks, replies.drop_last());
        let before = start.fed_all(replies.drop_last());
        let after = before.fed(replies.last());
        if before.is_active() && replies.last() is Done {
            assert(hunks_of(after.patch) =~= hunks.take(after.patch.len() as int));
        }
    }
}

/// Where as many replies come in as hunks are left to hand out, and none
/// aborts, each of those hunks gets the outcome of its reply.
pub proof fn law_apply_pairs<V>(hunks: Seq<V>, replies: Seq<ReplyView>)
    requires
        replies.len() <= hunks.len(),
        none_aborts(replies),
    ensures
        applied(hunks, replies) == (ApplierView {
            hunks,
            patch: paired(hunks, replies),
            aborted: None,
        }),
    decreases replies.len(),
{
    let start = ApplierView::start(hunks);
    if replies.len() == 0 {
        assert(paired(hunks, replies) =~= Seq::empty());
    } else {
        let rest = replies.drop_last();
        assert forall|i: int| 0 <= i < rest.len() implies (#[trigger] rest[i]) is Done by {
            assert(replies[i] is Done);
        }
        law_apply_pairs(hunks, rest);
        assert(replies.last() is Done);
        assert(paired(hunks, replies) =~= paired(hunks, rest).push(
            (hunks[rest.len() as int], outcome_of(replies.last())),
        ));
    }
}

/// Where every hunk is performed with success, the patch that comes out
/// holds every hunk, in the order of the patch, with no error, and nothing
/// was aborted.
pub proof fn law_apply_all_succeed<V>(hunks: Seq<V>, replies: Seq<ReplyView>)
    requires
        replies.len() == hunks.len(),
        forall|i: int| 0 <= i < replies.len() ==> (#[trigger] replies[i]) == ReplyView::Done(None),
    ensures
        applied(hunks, replies).patch == preview(hunks),
        applied(hunks, replies).aborted.is_none(),
{
    law_apply_pairs(hunks, replies);
    assert(paired(hunks, replies) =~= preview(hunks));
}

/// Where one hunk fails and every other is performed with success, the
/// patch that comes out still holds every hunk, in the order of the patch:
/// the failed one with its error, each other with none.
pub proof fn law_apply_isolates_failure<V>(
    hunks: Seq<V>,
    replies: Seq<ReplyView>,
    failed: int,
    error: Seq<char>,
)
    requires
        replies.len() == hunks.len(),
        0 <= failed < hunks.len(),
        replies[failed] == ReplyView::Done(Some(error)),
        forall|i: int|
            0 <= i < replies.len() && i != failed ==> (#[trigger] replies[i]) == ReplyView::Done(
                None,
            ),
    ensures
        applied(hunks, replies).patch.len() == hunks.len(),
        hunks_of(applied(hunks, replies).patch) == hunks,
        applied(hunks, replies).patch[failed].1 == Some(error),
        forall|i: int|
            0 <= i < hunks.len() && i != failed ==> (#[trigger] applied(
                hunks,
                replies,
            ).patch[i]).1.is_none(),
        applied(hunks, replies).aborted.is_none(),
{
    assert(none_aborts(replies)) by {
        assert forall|i: int| 0 <= i < replies.len() implies (#[trigger] replies[i]) is Done by {
            if i != failed {
                assert(replies[i] == ReplyView::Done(None));
            }
        }
    }
    law_apply_pairs(hunks, replies);
    assert(hunks_of(paired(hunks, replies)) =~= hunks);
}

/// Once nothing is handed out any more, further replies change nothing.
pub proof fn lemma_fed_when_idle<V>(applier: ApplierView<V>, replies: Seq<ReplyView>)
    requires
        !applier.is_active(),
    ensures
        applier.fed_all(replies) == applier,
    decreases replies.len(),
{
    if replies.len() > 0 {
        lemma_fed_when_idle(applier, replies.drop_last());
    }
}

/// Feeding replies one after the other is feeding the first of them, then
/// the rest.
pub proof fn lemma_fed_all_split<V>(applier: ApplierView<V>, replies: Seq<ReplyView>, at: int)
    requires
        0 <= at <= replies.len(),
    ensures
        applier.fed_all(replies) == applier.fed_all(replies.take(at)).fed_all(replies.skip(at)),
    decreases replies.len() - at,
{
    let tail = replies.skip(at);
    if at == replies.len() {
        assert(replies.take(at) =~= replies);
    } else {
        lemma_fed_all_split(applier, replies.drop_last(), at);
        assert(replies.drop_last().take(at) =~= replies.take(at));
        assert(replies.drop_last().skip(at) =~= tail.drop_last());
        assert(tail.last() == replies.last());
    }
}

/// A reply that aborts stops the application: the hunks settled before it
/// keep their outcomes, no later hunk gets one, and the cause is kept.
pub proof fn law_apply_stops_at_abort<V>(
    hunks: Seq<V>,
    replies: Seq<ReplyView>,
    at: int,
    cause: Seq<char>,
)
    requires
        0 <= at < replies.len(),
        at < hunks.len(),
        none_aborts(replies.take(at)),
        replies[at] == ReplyView::Abort(cause),
    ensures
        applied(hunks, replies).patch == paired(hunks, replies.take(at)),
        applied(hunks, replies).aborted == Some(cause),
{
    let start = ApplierView::start(hunks);
    let head = replies.take(at);
    law_apply_pairs(hunks, head);
    let before = start.fed_all(head);
    let upto = replies.take(at + 1);
    assert(upto.drop_last() =~= head);
    assert(upto.last() == replies[at]);
    let stopped = start.fed_all(upto);
    assert(stopped == before.fed(replies[at]));
    lemma_fed_all_split(start, replies, at + 1);
    lemma_fed_when_idle(stopped, replies.skip(at + 1));
}

} // verus!
