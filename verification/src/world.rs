//! Runs against stores that perform every request: a model of two stores,
//! what they answer, and how a run leaves them.

use vstd::prelude::*;
use crate::hunk::{EnvelopeHunkView, Side};
use crate::listing::{distinct_names, Item};
use crate::planner::envelope_plan;
use crate::session::{RequestView, ResponseView, SessionView, StepView};
use crate::settle::{envelope_settled, envelopes_settled, folder_settled};
use crate::snapshot::{items_of, EnvelopeView};
use crate::strategy::StrategyView;

verus! {

/// Two stores: the folders of each, and the envelopes of each folder.
pub struct World {
    pub remote: Seq<Item>,
    pub cache: Seq<Item>,
    pub remote_mail: Map<Seq<char>, Seq<EnvelopeView>>,
    pub cache_mail: Map<Seq<char>, Seq<EnvelopeView>>,
}

impl World {
    /// The folders of the store `side`.
    pub open spec fn folders(self, side: Side) -> Seq<Item> {
        match side {
            Side::Remote => self.remote,
            Side::Cache => self.cache,
        }
    }

    /// The envelopes that the store `side` holds under `folder`: none where
    /// it holds nothing under that name.
    pub open spec fn mail(self, side: Side, folder: Seq<char>) -> Seq<EnvelopeView> {
        let mails = match side {
            Side::Remote => self.remote_mail,
            Side::Cache => self.cache_mail,
        };
        if mails.dom().contains(folder) {
            mails[folder]
        } else {
            Seq::empty()
        }
    }

    /// No store holds a folder twice, nor an envelope twice in a folder.
    pub open spec fn wf(self) -> bool {
        &&& distinct_names(self.remote)
        &&& distinct_names(self.cache)
        &&& forall|side: Side, folder: Seq<char>|
            distinct_names(items_of(#[trigger] self.mail(side, folder)))
    }

    /// The stores with `folders` as the folders of `side`.
    pub open spec fn with_folders(self, side: Side, folders: Seq<Item>) -> World {
        match side {
            Side::Remote => World { remote: folders, ..self },
            Side::Cache => World { cache: folders, ..self },
        }
    }

    /// The stores with `mail` as the envelopes of `folder` on `side`.
    pub open spec fn with_mail(self, side: Side, folder: Seq<char>, mail: Seq<EnvelopeView>) -> World {
        match side {
            Side::Remote => World { remote_mail: self.remote_mail.insert(folder, mail), ..self },
            Side::Cache => World { cache_mail: self.cache_mail.insert(folder, mail), ..self },
        }
    }

    /// What the stores answer to a request that they perform, and how the
    /// request leaves them. Listings and commits leave them as they are.
    pub open spec fn answer(self, request: RequestView) -> (World, ResponseView) {
        match request {
            RequestView::ListFolders => (
                self,
                ResponseView::Folders { remote: self.remote, cache: self.cache },
            ),
            RequestView::ApplyFolderHunk(hunk) => (
                self.with_folders(hunk.target, folder_settled(self.folders(hunk.target), hunk)),
                ResponseView::Hunk(None),
            ),
            RequestView::CommitFolders(_) => (self, ResponseView::Commit(None)),
            RequestView::ListEnvelopes(folder) => (
                self,
                ResponseView::Envelopes {
                    remote: self.mail(Side::Remote, folder),
                    cache: self.mail(Side::Cache, folder),
                },
            ),
            RequestView::ApplyEnvelopeHunk(hunk) => (
                self.with_mail(
                    hunk.target,
                    hunk.folder,
                    envelope_settled(self.mail(hunk.target, hunk.folder), hunk),
                ),
                ResponseView::Hunk(None),
            ),
            RequestView::CommitEnvelopes(_) => (self, ResponseView::Commit(None)),
            RequestView::Finish => (self, ResponseView::Start),
        }
    }
}

/// A run against the stores `world` after `steps` steps: the stores as
/// they are then, the run, and the step that the run asks for next. Each
/// step performs the request of the step before and hands the answer to the
/// run; the first starts the run.
pub open spec fn run_steps(world: World, strategy: StrategyView, dry_run: bool, steps: nat) -> (
    World,
    SessionView,
    StepView,
)
    decreases steps,
{
    if steps == 0 {
        let (session, step) = SessionView::start(strategy, dry_run).after(ResponseView::Start);
        (world, session, step)
    } else {
        let (before, session, step) = run_steps(world, strategy, dry_run, (steps - 1) as nat);
        let (after, response) = before.answer(step.request);
        let (next, asked) = session.after(response);
        (after, next, asked)
    }
}

/// The envelopes of `folder` on `side` after those of `hunks` that target
/// that store and that folder took effect, in their order.
pub open spec fn mail_settled(
    mail: Seq<EnvelopeView>,
    hunks: Seq<EnvelopeHunkView>,
    side: Side,
    folder: Seq<char>,
) -> Seq<EnvelopeView>
    decreases hunks.len(),
{
    if hunks.len() == 0 {
        mail
    } else {
        let before = mail_settled(mail, hunks.drop_last(), side, folder);
        if hunks.last().target == side && hunks.last().folder == folder {
            envelope_settled(before, hunks.last())
        } else {
            before
        }
    }
}

/// The envelope plans of the first `count` of `folders`, one after the
/// other, each planned on the envelopes that `world` holds under the
/// folder.
pub open spec fn envelope_plans(world: World, folders: Seq<Seq<char>>, count: nat) -> Seq<
    EnvelopeHunkView,
>
    decreases count,
{
    if count == 0 {
        Seq::empty()
    } else {
        let folder = folders[count - 1];
        envelope_plans(world, folders, (count - 1) as nat) + envelope_plan(
            folder,
            world.mail(Side::Remote, folder),
            world.mail(Side::Cache, folder),
        )
    }
}

/// Hunks in a row take effect one row after the other.
pub proof fn lemma_mail_settled_add(
    mail: Seq<EnvelopeView>,
    first: Seq<EnvelopeHunkView>,
    second: Seq<EnvelopeHunkView>,
    side: Side,
    folder: Seq<char>,
)
    ensures
        mail_settled(mail, first + second, side, folder) == mail_settled(
            mail_settled(mail, first, side, folder),
            second,
            side,
            folder,
        ),
    decreases second.len(),
{
    if second.len() == 0 {
        assert(first + second =~= first);
    } else {
        lemma_mail_settled_add(mail, first, second.drop_last(), side, folder);
        assert((first + second).drop_last() =~= first + second.drop_last());
        assert((first + second).last() == second.last());
    }
}

/// Hunks that all belong to `folder` take effect on its envelopes as a
/// plan of that folder does.
pub proof fn lemma_mail_settled_own(
    mail: Seq<EnvelopeView>,
    hunks: Seq<EnvelopeHunkView>,
    side: Side,
    folder: Seq<char>,
)
    requires
        forall|k: int| 0 <= k < hunks.len() ==> (#[trigger] hunks[k]).folder == folder,
    ensures
        mail_settled(mail, hunks, side, folder) == envelopes_settled(mail, hunks, side),
    decreases hunks.len(),
{
    if hunks.len() > 0 {
        let rest = hunks.drop_last();
        assert forall|k: int| 0 <= k < rest.len() implies (#[trigger] rest[k]).folder == folder by {
            assert(rest[k] == hunks[k]);
        }
        lemma_mail_settled_own(mail, rest, side, folder);
        assert(hunks.last() == hunks[hunks.len() - 1]);
    }
}

/// Hunks that all belong to another folder leave the envelopes of
/// `folder` as they are.
pub proof fn lemma_mail_settled_other(
    mail: Seq<EnvelopeView>,
    hunks: Seq<EnvelopeHunkView>,
    side: Side,
    folder: Seq<char>,
)
    requires
        forall|k: int| 0 <= k < hunks.len() ==> (#[trigger] hunks[k]).folder != folder,
    ensures
        mail_settled(mail, hunks, side, folder) == mail,
    decreases hunks.len(),
{
    if hunks.len() > 0 {
        let rest = hunks.drop_last();
        assert forall|k: int| 0 <= k < rest.len() implies (#[trigger] rest[k]).folder != folder by {
            assert(rest[k] == hunks[k]);
        }
        lemma_mail_settled_other(mail, rest, side, folder);
        assert(hunks.last() == hunks[hunks.len() - 1]);
    }
}

} // verus!
