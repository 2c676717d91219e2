//! What holds of every run, whatever the stores answer.

use vstd::prelude::*;
use crate::applier::{ApplierView, ReplyView};
use crate::hunk::{FolderChange, FolderHunkView, Side};
use crate::listing::{distinct_names, has_dead, has_live, has_name, Item};
use crate::patch::{all_succeeded, hunks_of, preview};
use crate::plan_laws::{
    affects, folder_hunks_for, law_folder_plan_by_name, lemma_folder_settled,
};
use crate::planner::{
    envelope_creation, envelope_creations, envelope_deletion, envelope_deletions, envelope_plan,
    envelope_update, envelope_updates, folder_plan,
};
use crate::session::{shared_folders, Phase, ResponseView, SessionView, StepView};
use crate::settle::folder_settled;
use crate::snapshot::EnvelopeView;
use crate::strategy::StrategyView;

verus! {

/// The run after `responses` came in, one after the other, the first of
/// them to a run that has not started.
pub open spec fn reached(strategy: StrategyView, dry_run: bool, responses: Seq<ResponseView>) -> SessionView
    decreases responses.len(),
{
    if responses.len() == 0 {
        SessionView::start(strategy, dry_run)
    } else {
        reached(strategy, dry_run, responses.drop_last()).after(responses.last()).0
    }
}

/// The step that the run asks for when the last of `responses` came in.
pub open spec fn asked(strategy: StrategyView, dry_run: bool, responses: Seq<ResponseView>) -> StepView
    recommends
        responses.len() > 0,
{
    reached(strategy, dry_run, responses.drop_last()).after(responses.last()).1
}

/// The phases in which a dry run can stand.
pub open spec fn lists_only(phase: Phase) -> bool {
    phase == Phase::Idle || phase == Phase::ListingFolders || phase == Phase::ListingEnvelopes
        || phase == Phase::Finished
}

/// A dry run that stands in a phase of listing asks for nothing that
/// changes a store, tells the progress sink nothing, and stays in a phase
/// of listing.
pub proof fn lemma_dry_step(session: SessionView, response: ResponseView)
    requires
        session.dry_run,
        lists_only(session.phase),
    ensures
        session.after(response).0.dry_run,
        lists_only(session.after(response).0.phase),
        !session.after(response).1.request.is_mutation(),
        session.after(response).1.notify.len() == 0,
{
}

/// A dry run never asks for anything that changes a store or the cache's
/// records: whatever comes in, each of its steps lists folders, lists
/// envelopes or ends the run, and tells the progress sink nothing.
pub proof fn law_dry_run_only_lists(strategy: StrategyView, responses: Seq<ResponseView>)
    requires
        responses.len() > 0,
    ensures
        !asked(strategy, true, responses).request.is_mutation(),
        asked(strategy, true, responses).notify.len() == 0,
{
    lemma_dry_reached(strategy, responses.drop_last());
    lemma_dry_step(reached(strategy, true, responses.drop_last()), responses.last());
}

/// A dry run stays a dry run, in a phase of listing.
proof fn lemma_dry_reached(strategy: StrategyView, responses: Seq<ResponseView>)
    ensures
        reached(strategy, true, responses).dry_run,
        lists_only(reached(strategy, true, responses).phase),
    decreases responses.len(),
{
    if responses.len() > 0 {
        lemma_dry_reached(strategy, responses.drop_last());
        lemma_dry_step(reached(strategy, true, responses.drop_last()), responses.last());
    }
}

/// Whether a response reports no failure: no hunk that failed, no commit
/// that failed, no request to stop.
pub open spec fn reports_no_failure(response: ResponseView) -> bool {
    match response {
        ResponseView::Hunk(outcome) => outcome.is_none(),
        ResponseView::Commit(outcome) => outcome.is_none(),
        ResponseView::Abort(_) => false,
        _ => true,
    }
}

/// Nothing has failed so far.
pub open spec fn unfailed(session: SessionView) -> bool {
    &&& all_succeeded(session.folders.patch)
    &&& all_succeeded(session.envelopes.patch)
    &&& session.folders_commit.is_none()
    &&& session.envelopes_commit.is_none()
}

/// A response that reports no failure leaves a run without failure.
pub proof fn lemma_unfailed_step(session: SessionView, response: ResponseView)
    requires
        unfailed(session),
        reports_no_failure(response),
    ensures
        unfailed(session.after(response).0),
{
    let next = session.after(response).0;
    assert(all_succeeded(next.folders.patch)) by {
        assert forall|i: int| 0 <= i < next.folders.patch.len() implies (
        #[trigger] next.folders.patch[i]).1.is_none() by {
            if i < session.folders.patch.len() && next.folders.patch.len()
                >= session.folders.patch.len() && next.folders.hunks == session.folders.hunks {
                assert(session.folders.patch[i].1.is_none());
            }
        }
    }
    assert(all_succeeded(next.envelopes.patch)) by {
        assert forall|i: int| 0 <= i < next.envelopes.patch.len() implies (
        #[trigger] next.envelopes.patch[i]).1.is_none() by {
            if i < session.envelopes.patch.len() && next.envelopes.patch.len()
                >= session.envelopes.patch.len() && next.envelopes.hunks
                == session.envelopes.hunks {
                assert(session.envelopes.patch[i].1.is_none());
            }
        }
    }
}

/// Where every hunk is performed with success and every commit of the
/// cache goes through, the report shows no error: none on any hunk of
/// either patch, none on either commit.
pub proof fn law_run_without_failure_succeeds(
    strategy: StrategyView,
    dry_run: bool,
    responses: Seq<ResponseView>,
)
    requires
        forall|i: int| 0 <= i < responses.len() ==> reports_no_failure(#[trigger] responses[i]),
    ensures
        reached(strategy, dry_run, responses).report().is_success(),
    decreases responses.len(),
{
    lemma_unfailed_reached(strategy, dry_run, responses);
    let session = reached(strategy, dry_run, responses);
    let report = session.report();
    assert forall|i: int| 0 <= i < report.folders_patch.len() implies (
    #[trigger] report.folders_patch[i]).1.is_none() by {
        if i < session.folders.patch.len() {
            assert(session.folders.patch[i].1.is_none());
        }
    }
    assert forall|i: int| 0 <= i < report.emails_patch.len() implies (
    #[trigger] report.emails_patch[i]).1.is_none() by {
        if i < session.envelopes.patch.len() {
            assert(session.envelopes.patch[i].1.is_none());
        }
    }
}

/// Responses that report no failure leave a run without failure.
proof fn lemma_unfailed_reached(strategy: StrategyView, dry_run: bool, responses: Seq<ResponseView>)
    requires
        forall|i: int| 0 <= i < responses.len() ==> reports_no_failure(#[trigger] responses[i]),
    ensures
        unfailed(reached(strategy, dry_run, responses)),
    decreases responses.len(),
{
    if responses.len() > 0 {
        let rest = responses.drop_last();
        assert forall|i: int| 0 <= i < rest.len() implies reports_no_failure(
            #[trigger] rest[i],
        ) by {
            assert(rest[i] == responses[i]);
        }
        lemma_unfailed_reached(strategy, dry_run, rest);
        lemma_unfailed_step(reached(strategy, dry_run, rest), responses.last());
    }
}

/// Whether the listings that a response brings hold no name twice, as
/// every listing does.
pub open spec fn is_proper(response: ResponseView) -> bool {
    match response {
        ResponseView::Folders { remote, cache } => distinct_names(remote) && distinct_names(cache),
        _ => true,
    }
}

/// Whether the folder hunk at place `i` is a creation that has not been
/// performed with success: it failed, or it has no outcome.
pub open spec fn creation_unmet(folders: ApplierView<FolderHunkView>, i: int) -> bool {
    folders.hunks[i].change == FolderChange::Create && !(i < folders.patch.len()
        && folders.patch[i].1.is_none())
}

/// The folders that the run holds for the store `side`.
pub open spec fn listing_of(session: SessionView, side: Side) -> Seq<Item> {
    match side {
        Side::Remote => session.remote,
        Side::Cache => session.cache,
    }
}

/// Whether the run has not come to the envelope pass.
pub open spec fn in_folder_pass(phase: Phase) -> bool {
    phase == Phase::Idle || phase == Phase::ListingFolders || phase == Phase::ApplyingFolders
        || phase == Phase::CommittingFolders
}

/// What holds of a run at every moment, whatever its phase.
pub open spec fn steady(session: SessionView) -> bool {
    &&& distinct_names(session.remote)
    &&& distinct_names(session.cache)
    &&& session.folders.wf()
    &&& session.envelopes.wf()
    &&& forall|i: int, j: int|
        0 <= i < j < session.folders.hunks.len() ==> (#[trigger] session.folders.hunks[i]).name != (
        #[trigger] session.folders.hunks[j]).name
    &&& forall|i: int|
        0 <= i < session.folders.hunks.len() && #[trigger] creation_unmet(session.folders, i)
            ==> !has_name(
            listing_of(session, session.folders.hunks[i].target),
            session.folders.hunks[i].name,
        )
    &&& forall|k: int|
        0 <= k < session.queue.len() ==> has_live(session.remote, #[trigger] session.queue[k])
            && has_live(session.cache, session.queue[k]) && session.strategy.selects(
            session.queue[k],
        )
    &&& forall|k: int|
        0 <= k < session.plan.len() ==> session.queue.contains((#[trigger] session.plan[k]).folder)
    &&& forall|k: int|
        0 <= k < session.envelopes.hunks.len() ==> session.queue.contains(
            (#[trigger] session.envelopes.hunks[k]).folder,
        )
    &&& session.sizes.len() <= session.queue.len()
}

/// Whether nothing of the envelope pass is there yet.
pub open spec fn before_envelopes(session: SessionView) -> bool {
    &&& session.queue.len() == 0
    &&& session.sizes.len() == 0
    &&& session.plan.len() == 0
    &&& session.envelopes.hunks.len() == 0
}

/// What holds of a run at every moment, by its phase.
pub open spec fn orderly(session: SessionView) -> bool {
    &&& steady(session)
    &&& in_folder_pass(session.phase) ==> before_envelopes(session)
    &&& session.phase == Phase::Idle || session.phase == Phase::ListingFolders
        ==> session.folders.hunks.len() == 0
}

/// What holds of a run at every moment.
pub open spec fn sound(session: SessionView) -> bool {
    &&& orderly(session)
    &&& session.dry_run ==> lists_only(session.phase) && session.folders.patch.len() == 0
        && session.envelopes.patch.len() == 0
}

/// An item that is listed is listed live or marked as deleted.
proof fn lemma_listed_somehow(items: Seq<Item>, name: Seq<char>)
    ensures
        has_name(items, name) == (has_live(items, name) || has_dead(items, name)),
{
    if has_name(items, name) {
        let i = choose|i: int| 0 <= i < items.len() && (#[trigger] items[i]).name == name;
        assert(items[i].deleted || !items[i].deleted);
    }
}

/// A folder plan holds no folder twice, and creates a folder only where the
/// target does not list it.
pub proof fn lemma_folder_plan_shape(remote: Seq<Item>, cache: Seq<Item>, strategy: StrategyView)
    requires
        distinct_names(remote),
        distinct_names(cache),
    ensures
        forall|i: int, j: int|
            0 <= i < j < folder_plan(remote, cache, strategy).len() ==> (#[trigger] folder_plan(
                remote,
                cache,
                strategy,
            )[i]).name != (#[trigger] folder_plan(remote, cache, strategy)[j]).name,
        forall|i: int|
            0 <= i < folder_plan(remote, cache, strategy).len() && (#[trigger] folder_plan(
                remote,
                cache,
                strategy,
            )[i]).change == FolderChange::Create ==> !has_name(
                match folder_plan(remote, cache, strategy)[i].target {
                    Side::Remote => remote,
                    Side::Cache => cache,
                },
                folder_plan(remote, cache, strategy)[i].name,
            ),
{
    let plan = folder_plan(remote, cache, strategy);
    assert forall|i: int, j: int| 0 <= i < j < plan.len() implies (#[trigger] plan[i]).name != (
    #[trigger] plan[j]).name by {
        let name = plan[i].name;
        if plan[j].name == name {
            let about = affects(name);
            let upto = plan.take(j);
            assert(upto[i] == plan[i]);
            assert(about(upto[i]));
            upto.lemma_filter_contains(about, i);
            assert(upto.filter(about).len() >= 1);
            assert(plan.take(j + 1) =~= upto.push(plan[j]));
            upto.lemma_filter_len_push(about, plan[j]);
            plan.lemma_filter_take_len(about, j + 1);
            law_folder_plan_by_name(remote, cache, strategy, name);
        }
    }
    assert forall|i: int|
        0 <= i < plan.len() && (#[trigger] plan[i]).change
            == FolderChange::Create implies !has_name(
        match plan[i].target {
            Side::Remote => remote,
            Side::Cache => cache,
        },
        plan[i].name,
    ) by {
        let name = plan[i].name;
        let about = affects(name);
        assert(about(plan[i]));
        plan.lemma_filter_contains(about, i);
        law_folder_plan_by_name(remote, cache, strategy, name);
        let needs = folder_hunks_for(plan, name);
        let at = choose|k: int| 0 <= k < needs.len() && needs[k] == plan[i];
        lemma_listed_somehow(remote, name);
        lemma_listed_somehow(cache, name);
    }
}

/// Every hunk of the envelope plan of a folder belongs to that folder.
pub proof fn lemma_envelope_plan_folder(
    folder: Seq<char>,
    remote: Seq<EnvelopeView>,
    cache: Seq<EnvelopeView>,
)
    ensures
        forall|k: int|
            0 <= k < envelope_plan(folder, remote, cache).len() ==> (#[trigger] envelope_plan(
                folder,
                remote,
                cache,
            )[k]).folder == folder,
{
    let plan = envelope_plan(folder, remote, cache);
    let a = envelope_creations(folder, remote, cache, Side::Cache);
    let b = envelope_creations(folder, cache, remote, Side::Remote);
    let c = envelope_updates(folder, remote, cache);
    let d = envelope_deletions(folder, remote, cache, Side::Cache);
    let e = envelope_deletions(folder, cache, remote, Side::Remote);
    assert forall|k: int| 0 <= k < plan.len() implies (#[trigger] plan[k]).folder == folder by {
        let hunk = plan[k];
        if k < a.len() {
            assert(a[k] == hunk);
            assert(a.contains(hunk));
            remote.lemma_filter_map_contains(
                |envelope: EnvelopeView| envelope_creation(folder, envelope, cache, Side::Cache),
                hunk,
            );
        } else if k < a.len() + b.len() {
            assert(b[k - a.len()] == hunk);
            assert(b.contains(hunk));
            cache.lemma_filter_map_contains(
                |envelope: EnvelopeView| envelope_creation(folder, envelope, remote, Side::Remote),
                hunk,
            );
        } else if k < a.len() + b.len() + c.len() {
            assert(c[k - a.len() - b.len()] == hunk);
            assert(c.contains(hunk));
            remote.lemma_filter_map_contains(
                |envelope: EnvelopeView| envelope_update(folder, envelope, cache),
                hunk,
            );
        } else if k < a.len() + b.len() + c.len() + d.len() {
            assert(d[k - a.len() - b.len() - c.len()] == hunk);
            assert(d.contains(hunk));
            remote.lemma_filter_map_contains(
                |envelope: EnvelopeView| envelope_deletion(folder, envelope, cache, Side::Cache),
                hunk,
            );
        } else {
            assert(e[k - a.len() - b.len() - c.len() - d.len()] == hunk);
            assert(e.contains(hunk));
            cache.lemma_filter_map_contains(
                |envelope: EnvelopeView| envelope_deletion(folder, envelope, remote, Side::Remote),
                hunk,
            );
        }
    }
}

/// Every folder that gets an envelope pass is live on both stores and
/// selected.
pub proof fn lemma_shared_folders(remote: Seq<Item>, cache: Seq<Item>, strategy: StrategyView)
    requires
        distinct_names(remote),
    ensures
        forall|k: int|
            0 <= k < shared_folders(remote, cache, strategy).len() ==> has_live(
                remote,
                #[trigger] shared_folders(remote, cache, strategy)[k],
            ) && has_live(cache, shared_folders(remote, cache, strategy)[k]) && strategy.selects(
                shared_folders(remote, cache, strategy)[k],
            ),
{
    let shared = shared_folders(remote, cache, strategy);
    assert forall|k: int| 0 <= k < shared.len() implies has_live(remote, #[trigger] shared[k])
        && has_live(cache, shared[k]) && strategy.selects(shared[k]) by {
        let name = shared[k];
        assert(shared.contains(name));
        let pick = |folder: Item|
            if !folder.deleted && has_live(cache, folder.name) && strategy.selects(folder.name) {
                Some(folder.name)
            } else {
                None
            };
        remote.lemma_filter_map_contains(pick, name);
        let folder = choose|t: Item| #[trigger] remote.contains(t) && pick(t) == Some(name);
        let at = choose|i: int| 0 <= i < remote.len() && remote[i] == folder;
        assert(remote[at].name == name && !remote[at].deleted);
    }
}

/// Handing out the next envelope hunk leaves a run as it has to be.

proof fn lemma_to_next_envelope_hunk(session: SessionView)
    requires
        steady(session),
    ensures
        steady(session.to_next_envelope_hunk().0),
        !in_folder_pass(session.to_next_envelope_hunk().0.phase),
{
}

/// Going on to the envelope patch leaves a run as it has to be.

proof fn lemma_to_envelope_patch(session: SessionView)
    requires
        steady(session),
    ensures
        steady(session.to_envelope_patch().0),
        !in_folder_pass(session.to_envelope_patch().0.phase),
{
    let started = SessionView {
        envelopes: ApplierView::start(session.plan),
        plan: Seq::empty(),
        ..session
    };
    assert(started.envelopes.wf()) by {
        assert(hunks_of(started.envelopes.patch) =~= started.envelopes.hunks.take(0));
    }
    assert(steady(started));
    lemma_to_next_envelope_hunk(started);
}

/// Asking for the next listing leaves a run as it has to be.

proof fn lemma_to_next_listing(session: SessionView)
    requires
        steady(session),
    ensures
        steady(session.to_next_listing().0),
        !in_folder_pass(session.to_next_listing().0.phase),
{
    lemma_to_envelope_patch(session);
}

/// Going on to the envelope pass leaves a run as it has to be.

proof fn lemma_to_envelope_pass(session: SessionView)
    requires
        steady(session),
        session.sizes.len() == 0,
        session.plan.len() == 0,
        session.envelopes.hunks.len() == 0,
    ensures
        steady(session.to_envelope_pass().0),
        !in_folder_pass(session.to_envelope_pass().0.phase),
{
    lemma_shared_folders(session.remote, session.cache, session.strategy);
    let queued = SessionView {
        queue: shared_folders(session.remote, session.cache, session.strategy),
        ..session
    };
    assert(steady(queued));
    lemma_to_next_listing(queued);
}

/// Handing out the next folder hunk leaves a run as it has to be.

proof fn lemma_to_next_folder_hunk(session: SessionView)
    requires
        steady(session),
        before_envelopes(session),
    ensures
        orderly(session.to_next_folder_hunk().0),
{
}

/// Folders that come in leave a run as it has to be.

proof fn lemma_after_folders_listed(session: SessionView, remote: Seq<Item>, cache: Seq<Item>)
    requires
        orderly(session),
        session.phase == Phase::ListingFolders,
        distinct_names(remote),
        distinct_names(cache),
    ensures
        orderly(session.after_folders_listed(remote, cache).0),
{
    lemma_folder_plan_shape(remote, cache, session.strategy);
    let plan = folder_plan(remote, cache, session.strategy);
    let planned = SessionView { remote, cache, folders: ApplierView::start(plan), ..session };
    assert(planned.folders.wf()) by {
        assert(hunks_of(planned.folders.patch) =~= plan.take(0));
    }
    assert(steady(planned));
    if session.dry_run {
        lemma_to_envelope_pass(planned);
    } else {
        lemma_to_next_folder_hunk(planned);
    }
}

/// The outcome of a folder hunk leaves a run as it has to be.

proof fn lemma_after_folder_hunk(session: SessionView, outcome: Option<Seq<char>>)
    requires
        orderly(session),
        session.phase == Phase::ApplyingFolders,
    ensures
        orderly(session.after_folder_hunk(outcome).0),
{
    match session.folders.next() {
        Some(hunk) => {
            let at = session.folders.patch.len() as int;
            let worked = outcome.is_none();
            let fed = session.folders.fed(ReplyView::Done(outcome));
            let next = SessionView {
                folders: fed,
                remote: if worked && hunk.target == Side::Remote {
                    folder_settled(session.remote, hunk)
                } else {
                    session.remote
                },
                cache: if worked && hunk.target == Side::Cache {
                    folder_settled(session.cache, hunk)
                } else {
                    session.cache
                },
                ..session
            };
            assert(fed.wf()) by {
                assert(hunks_of(fed.patch) =~= fed.hunks.take(fed.patch.len() as int));
            }
            lemma_folder_settled(session.remote, hunk, hunk.name);
            lemma_folder_settled(session.cache, hunk, hunk.name);
            assert forall|i: int|
                0 <= i < next.folders.hunks.len() && #[trigger] creation_unmet(
                    next.folders,
                    i,
                ) implies !has_name(
                listing_of(next, next.folders.hunks[i].target),
                next.folders.hunks[i].name,
            ) by {
                let other = session.folders.hunks[i];
                if i == at {
                    assert(creation_unmet(session.folders, i));
                } else {
                    if i < at {
                        assert(fed.patch[i] == session.folders.patch[i]);
                        assert(session.folders.hunks[i].name != session.folders.hunks[at].name);
                    } else {
                        assert(session.folders.hunks[at].name != session.folders.hunks[i].name);
                    }
                    assert(creation_unmet(session.folders, i));
                    lemma_folder_settled(session.remote, hunk, other.name);
                    lemma_folder_settled(session.cache, hunk, other.name);
                    lemma_listed_somehow(session.remote, other.name);
                    lemma_listed_somehow(session.cache, other.name);
                    lemma_listed_somehow(next.remote, other.name);
                    lemma_listed_somehow(next.cache, other.name);
                }
            }
            assert(steady(next));
            lemma_to_next_folder_hunk(next);
        },
        None => {
            lemma_to_next_folder_hunk(session);
        },
    }
}

/// Envelopes that come in leave a run as it has to be.

proof fn lemma_after_envelopes_listed(
    session: SessionView,
    remote: Seq<EnvelopeView>,
    cache: Seq<EnvelopeView>,
)
    requires
        orderly(session),
        session.phase == Phase::ListingEnvelopes,
    ensures
        orderly(session.after_envelopes_listed(remote, cache).0),
{
    if session.sizes.len() < session.queue.len() {
        let folder = session.queue[session.sizes.len() as int];
        let hunks = envelope_plan(folder, remote, cache);
        lemma_envelope_plan_folder(folder, remote, cache);
        let next = SessionView {
            sizes: session.sizes.push((folder, hunks.len())),
            plan: session.plan + hunks,
            ..session
        };
        assert forall|k: int| 0 <= k < next.plan.len() implies next.queue.contains(
            (#[trigger] next.plan[k]).folder,
        ) by {
            if k < session.plan.len() {
                assert(next.plan[k] == session.plan[k]);
            } else {
                assert(next.plan[k] == hunks[k - session.plan.len()]);
                assert(next.queue[session.sizes.len() as int] == folder);
            }
        }
        assert(steady(next));
        lemma_to_next_listing(next);
    } else {
        lemma_to_next_listing(session);
    }
}

/// The outcome of an envelope hunk leaves a run as it has to be.

proof fn lemma_after_envelope_hunk(session: SessionView, outcome: Option<Seq<char>>)
    requires
        orderly(session),
        session.phase == Phase::ApplyingEnvelopes,
    ensures
        orderly(session.after_envelope_hunk(outcome).0),
{
    let fed = session.envelopes.fed(ReplyView::Done(outcome));
    assert(fed.wf()) by {
        assert(hunks_of(fed.patch) =~= fed.hunks.take(fed.patch.len() as int));
    }
    let next = SessionView { envelopes: fed, ..session };
    assert(steady(next));
    lemma_to_next_envelope_hunk(next);
}

/// A response leaves a run as it has to be.
pub proof fn lemma_sound_step(session: SessionView, response: ResponseView)
    requires
        sound(session),
        is_proper(response),
    ensures
        sound(session.after(response).0),
{
    if session.dry_run {
        lemma_dry_step(session, response);
    }
    if session.phase != Phase::Finished {
        match response {
            ResponseView::Folders { remote, cache } => {
                if session.phase == Phase::ListingFolders {
                    lemma_after_folders_listed(session, remote, cache);
                }
            },
            ResponseView::Envelopes { remote, cache } => {
                if session.phase == Phase::ListingEnvelopes {
                    lemma_after_envelopes_listed(session, remote, cache);
                }
            },
            ResponseView::Hunk(outcome) => {
                if session.phase == Phase::ApplyingFolders {
                    lemma_after_folder_hunk(session, outcome);
                } else if session.phase == Phase::ApplyingEnvelopes {
                    lemma_after_envelope_hunk(session, outcome);
                }
            },
            ResponseView::Commit(outcome) => {
                if session.phase == Phase::CommittingFolders {
                    lemma_to_envelope_pass(SessionView { folders_commit: outcome, ..session });
                }
            },
            _ => {},
        }
    }
}

/// A run is as it has to be, whatever came in.
pub proof fn lemma_sound_reached(strategy: StrategyView, dry_run: bool, responses: Seq<ResponseView>)
    requires
        forall|i: int| 0 <= i < responses.len() ==> is_proper(#[trigger] responses[i]),
    ensures
        sound(reached(strategy, dry_run, responses)),
        reached(strategy, dry_run, responses).strategy == strategy,
        reached(strategy, dry_run, responses).dry_run == dry_run,
    decreases responses.len(),
{
    if responses.len() == 0 {
        let start = SessionView::start(strategy, dry_run);
        assert(hunks_of(start.folders.patch) =~= start.folders.hunks.take(0));
        assert(hunks_of(start.envelopes.patch) =~= start.envelopes.hunks.take(0));
    } else {
        let rest = responses.drop_last();
        assert forall|i: int| 0 <= i < rest.len() implies is_proper(#[trigger] rest[i]) by {
            assert(rest[i] == responses[i]);
        }
        lemma_sound_reached(strategy, dry_run, rest);
        lemma_sound_step(reached(strategy, dry_run, rest), responses.last());
    }
}

/// The report of a run keeps to folders that were there or that the run
/// created with success: a folder whose creation failed gets no envelope
/// hunk.
pub proof fn lemma_sound_report(session: SessionView)
    requires
        sound(session),
    ensures
        session.report().keeps_to_folders(),
{
    let report = session.report();
    if session.dry_run {
        assert forall|i: int| 0 <= i < report.folders_patch.len() implies (
        #[trigger] report.folders_patch[i]).1.is_none() by {
            assert(report.folders_patch[i] == preview(session.folders.hunks.skip(0))[i]);
        }
    } else {
        let hunks = session.envelopes.hunks;
        assert forall|k: int, i: int|
            0 <= k < report.emails_patch.len() && 0 <= i < report.folders_patch.len() && (
            #[trigger] report.folders_patch[i]).0.name == (#[trigger] report.emails_patch[k]).0.folder
                && report.folders_patch[i].0.change
                == FolderChange::Create implies report.folders_patch[i].1.is_none() by {
            let folder = report.emails_patch[k].0.folder;
            assert(hunks_of(session.envelopes.patch)[k] == session.envelopes.patch[k].0);
            assert(hunks.take(session.envelopes.patch.len() as int)[k] == hunks[k]);
            assert(session.queue.contains(hunks[k].folder));
            let at = choose|q: int| 0 <= q < session.queue.len() && session.queue[q] == folder;
            assert(has_live(session.remote, session.queue[at]));
            assert(hunks_of(session.folders.patch)[i] == session.folders.patch[i].0);
            assert(session.folders.hunks.take(session.folders.patch.len() as int)[i]
                == session.folders.hunks[i]);
            if creation_unmet(session.folders, i) {
                lemma_listed_somehow(session.remote, folder);
                lemma_listed_somehow(session.cache, folder);
            }
        }
    }
}

/// Every envelope hunk of a report belongs to a folder that both stores
/// hold, live, and that the strategy selects. Where the folder patch holds
/// the creation of that folder, the creation was performed with success:
/// a folder whose creation failed, or was not performed, gets no envelope
/// hunk.
pub proof fn law_envelope_hunks_keep_to_shared_folders(
    strategy: StrategyView,
    dry_run: bool,
    responses: Seq<ResponseView>,
)
    requires
        forall|i: int| 0 <= i < responses.len() ==> is_proper(#[trigger] responses[i]),
    ensures
        ({
            let session = reached(strategy, dry_run, responses);
            forall|k: int|
                0 <= k < session.report().emails_patch.len() ==> {
                    let folder = (#[trigger] session.report().emails_patch[k]).0.folder;
                    &&& has_live(session.remote, folder)
                    &&& has_live(session.cache, folder)
                    &&& strategy.selects(folder)
                    &&& forall|i: int|
                        0 <= i < session.folders.hunks.len() && (
                        #[trigger] session.folders.hunks[i]).name == folder
                            && session.folders.hunks[i].change == FolderChange::Create ==> i
                            < session.folders.patch.len() && session.folders.patch[i].1.is_none()
                }
        }),
{
    lemma_sound_reached(strategy, dry_run, responses);
    let session = reached(strategy, dry_run, responses);
    let emails = session.report().emails_patch;
    assert forall|k: int| 0 <= k < emails.len() implies {
        let folder = (#[trigger] emails[k]).0.folder;
        &&& has_live(session.remote, folder)
        &&& has_live(session.cache, folder)
        &&& strategy.selects(folder)
        &&& forall|i: int|
            0 <= i < session.folders.hunks.len() && (#[trigger] session.folders.hunks[i]).name
                == folder && session.folders.hunks[i].change == FolderChange::Create ==> i
                < session.folders.patch.len() && session.folders.patch[i].1.is_none()
    } by {
        let folder = emails[k].0.folder;
        let hunks = session.envelopes.hunks;
        let settled = session.envelopes.patch.len() as int;
        // The hunk is one of those that the run planned.
        assert(k < hunks.len() && hunks[k].folder == folder) by {
            if k < settled {
                assert(hunks_of(session.envelopes.patch)[k] == session.envelopes.patch[k].0);
                assert(hunks.take(settled)[k] == hunks[k]);
            } else {
                assert(emails[k] == preview(hunks.skip(settled))[k - settled]);
                assert(hunks.skip(settled)[k - settled] == hunks[k]);
            }
        }
        assert(session.queue.contains(hunks[k].folder));
        let at = choose|q: int| 0 <= q < session.queue.len() && session.queue[q] == folder;
        assert(has_live(session.remote, session.queue[at]));
        assert forall|i: int|
            0 <= i < session.folders.hunks.len() && (#[trigger] session.folders.hunks[i]).name
                == folder && session.folders.hunks[i].change == FolderChange::Create implies i
            < session.folders.patch.len() && session.folders.patch[i].1.is_none() by {
            if creation_unmet(session.folders, i) {
                lemma_listed_somehow(session.remote, folder);
                lemma_listed_somehow(session.cache, folder);
            }
        }
    }
}

} // verus!
