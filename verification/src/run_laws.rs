//! What holds of runs against stores that perform every request.

use vstd::prelude::*;
use crate::envelope_laws::law_envelope_plan_settles;
use crate::hunk::{EnvelopeHunkView, FolderHunkView, Side};
use crate::listing::{distinct_names, has_live};
use crate::listing::Item;
use crate::plan_laws::{law_folder_plan_settles, lemma_folders_settled, lemma_part_by_name};
use crate::planner::{envelope_plan, folder_plan};
use crate::session::{shared_folders, Phase, RequestView, ResponseView, SessionView, StepView};
use crate::session_laws::{
    before_envelopes, lemma_dry_step, lemma_envelope_plan_folder, lemma_unfailed_step, lists_only,
    unfailed,
};
use crate::settle::{envelopes_settled, folders_settled};
use crate::snapshot::EnvelopeView;
use crate::strategy::StrategyView;
use crate::world::{
    envelope_plans, lemma_mail_settled_add, lemma_mail_settled_other, lemma_mail_settled_own,
    mail_settled, run_steps, World,
};

verus! {

/// Whether the stores need nothing: no folder hunk, and no envelope hunk in
/// any folder that gets an envelope pass.
pub open spec fn in_sync(world: World, strategy: StrategyView) -> bool {
    &&& folder_plan(world.remote, world.cache, strategy).len() == 0
    &&& forall|k: int|
        0 <= k < shared_folders(world.remote, world.cache, strategy).len() ==> envelope_plan(
            #[trigger] shared_folders(world.remote, world.cache, strategy)[k],
            world.mail(Side::Remote, shared_folders(world.remote, world.cache, strategy)[k]),
            world.mail(Side::Cache, shared_folders(world.remote, world.cache, strategy)[k]),
        ).len() == 0
}

/// Whether a run has planned nothing.
pub open spec fn plans_nothing(session: SessionView) -> bool {
    &&& session.folders.hunks.len() == 0
    &&& session.folders.patch.len() == 0
    &&& session.plan.len() == 0
    &&& session.envelopes.hunks.len() == 0
    &&& session.envelopes.patch.len() == 0
}

/// How a run stands on stores that need nothing.
pub open spec fn at_rest(
    world: World,
    strategy: StrategyView,
    session: SessionView,
    step: StepView,
) -> bool {
    &&& session.strategy == strategy
    &&& !session.dry_run
    &&& plans_nothing(session)
    &&& session.folders.aborted.is_none()
    &&& session.envelopes.aborted.is_none()
    &&& match session.phase {
        Phase::ListingFolders => step.request == RequestView::ListFolders && before_envelopes(
            session,
        ),
        Phase::CommittingFolders => step.request is CommitFolders && before_envelopes(session)
            && session.remote == world.remote && session.cache == world.cache,
        Phase::ListingEnvelopes => session.queue == shared_folders(
            world.remote,
            world.cache,
            strategy,
        ) && session.sizes.len() < session.queue.len() && step.request
            == RequestView::ListEnvelopes(session.queue[session.sizes.len() as int]),
        Phase::CommittingEnvelopes => step.request is CommitEnvelopes,
        Phase::Finished => step.request == RequestView::Finish,
        _ => false,
    }
}

/// A step on stores that need nothing leaves the stores as they are and
/// the run without a plan.
proof fn lemma_at_rest_step(
    world: World,
    strategy: StrategyView,
    session: SessionView,
    step: StepView,
)
    requires
        in_sync(world, strategy),
        at_rest(world, strategy, session, step),
    ensures
        world.answer(step.request).0 == world,
        at_rest(
            world,
            strategy,
            session.after(world.answer(step.request).1).0,
            session.after(world.answer(step.request).1).1,
        ),
{
    let response = world.answer(step.request).1;
    let next = session.after(response).0;
    if session.phase == Phase::ListingFolders {
        let plan = folder_plan(world.remote, world.cache, strategy);
        assert(plan =~= Seq::<FolderHunkView>::empty());
    } else if session.phase == Phase::ListingEnvelopes {
        let at = session.sizes.len() as int;
        let folder = session.queue[at];
        let hunks = envelope_plan(
            folder,
            world.mail(Side::Remote, folder),
            world.mail(Side::Cache, folder),
        );
        assert(hunks =~= Seq::<EnvelopeHunkView>::empty());
        assert(session.plan + hunks =~= session.plan);
    }
}

/// A run on stores that need nothing changes nothing and plans nothing:
/// after any number of steps the stores are as they were, and both patches
/// of the report are empty.
pub proof fn law_run_in_sync_plans_nothing(world: World, strategy: StrategyView, steps: nat)
    requires
        in_sync(world, strategy),
    ensures
        run_steps(world, strategy, false, steps).0 == world,
        at_rest(
            world,
            strategy,
            run_steps(world, strategy, false, steps).1,
            run_steps(world, strategy, false, steps).2,
        ),
        run_steps(world, strategy, false, steps).1.report().folders_patch.len() == 0,
        run_steps(world, strategy, false, steps).1.report().emails_patch.len() == 0,
    decreases steps,
{
    if steps > 0 {
        law_run_in_sync_plans_nothing(world, strategy, (steps - 1) as nat);
        let (before, session, step) = run_steps(world, strategy, false, (steps - 1) as nat);
        lemma_at_rest_step(world, strategy, session, step);
    }
}

/// Whether no folder occurs twice.
pub open spec fn no_folder_twice(folders: Seq<Seq<char>>) -> bool {
    forall|i: int, j: int|
        0 <= i < j < folders.len() ==> #[trigger] folders[i] != #[trigger] folders[j]
}

/// No folder gets two envelope passes.
pub proof fn lemma_shared_folders_distinct(
    remote: Seq<Item>,
    cache: Seq<Item>,
    strategy: StrategyView,
)
    requires
        distinct_names(remote),
    ensures
        no_folder_twice(shared_folders(remote, cache, strategy)),
{
    let shared = shared_folders(remote, cache, strategy);
    let pick = |folder: Item|
        if !folder.deleted && has_live(cache, folder.name) && strategy.selects(
            folder.name,
        ) {
            Some(folder.name)
        } else {
            None
        };
    assert(remote.map_values(|e: Item| e) =~= remote);
    assert forall|i: int, j: int| 0 <= i < j < shared.len() implies #[trigger] shared[i]
        != #[trigger] shared[j] by {
        let name = shared[i];
        if shared[j] == name {
            let about = |other: Seq<char>| other == name;
            lemma_part_by_name(remote, |e: Item| e, pick, about, name);
            let upto = shared.take(j);
            assert(upto[i] == shared[i]);
            assert(about(upto[i]));
            upto.lemma_filter_contains(about, i);
            assert(upto.filter(about).len() >= 1);
            assert(shared.take(j + 1) =~= upto.push(shared[j]));
            upto.lemma_filter_len_push(about, shared[j]);
            shared.lemma_filter_take_len(about, j + 1);
        }
    }
}

/// The envelope plans of folders in a row change the envelopes of a folder
/// as its own plan does, and leave those of a folder that is not among
/// them as they are.
pub proof fn lemma_plans_settle(
    world: World,
    folders: Seq<Seq<char>>,
    count: nat,
    mail: Seq<EnvelopeView>,
    side: Side,
    folder: Seq<char>,
)
    requires
        no_folder_twice(folders),
        count <= folders.len(),
    ensures
        mail_settled(mail, envelope_plans(world, folders, count), side, folder) == if exists|
            j: int,
        |
            0 <= j < count && #[trigger] folders[j] == folder {
            envelopes_settled(
                mail,
                envelope_plan(
                    folder,
                    world.mail(Side::Remote, folder),
                    world.mail(Side::Cache, folder),
                ),
                side,
            )
        } else {
            mail
        },
    decreases count,
{
    if count > 0 {
        let last = folders[count - 1];
        let before = envelope_plans(world, folders, (count - 1) as nat);
        let own = envelope_plan(
            last,
            world.mail(Side::Remote, last),
            world.mail(Side::Cache, last),
        );
        lemma_plans_settle(world, folders, (count - 1) as nat, mail, side, folder);
        lemma_mail_settled_add(mail, before, own, side, folder);
        lemma_envelope_plan_folder(
            last,
            world.mail(Side::Remote, last),
            world.mail(Side::Cache, last),
        );
        let sofar = mail_settled(mail, before, side, folder);
        if last == folder {
            assert(!(exists|j: int| 0 <= j < count - 1 && #[trigger] folders[j] == folder)) by {
                if exists|j: int| 0 <= j < count - 1 && #[trigger] folders[j] == folder {
                    let j = choose|j: int| 0 <= j < count - 1 && #[trigger] folders[j] == folder;
                    assert(folders[j] != folders[count - 1]);
                }
            }
            lemma_mail_settled_own(sofar, own, side, folder);
            assert(folders[count - 1] == folder);
        } else {
            lemma_mail_settled_other(sofar, own, side, folder);
            if exists|j: int| 0 <= j < count && #[trigger] folders[j] == folder {
                let j = choose|j: int| 0 <= j < count && #[trigger] folders[j] == folder;
                assert(j < count - 1);
            }
        }
    }
}

/// Whether the folder pass of a run stands where the stores do: the run
/// holds the plan of the folders as they were at first, and both the run
/// and the stores hold the folders as the first hunks of the plan have left
/// them.
pub open spec fn folders_on_course(
    origin: World,
    strategy: StrategyView,
    world: World,
    session: SessionView,
) -> bool {
    let plan = folder_plan(origin.remote, origin.cache, strategy);
    let done = session.folders.patch.len() as int;
    &&& session.folders.hunks == plan
    &&& done <= plan.len()
    &&& session.folders.aborted.is_none()
    &&& world.remote == folders_settled(origin.remote, plan.take(done), Side::Remote)
    &&& world.cache == folders_settled(origin.cache, plan.take(done), Side::Cache)
    &&& session.remote == world.remote
    &&& session.cache == world.cache
}

/// Whether the stores hold the envelopes that they held at first.
pub open spec fn mail_untouched(origin: World, world: World) -> bool {
    forall|side: Side, folder: Seq<char>| #[trigger]
        world.mail(side, folder) == origin.mail(side, folder)
}

/// Whether the envelope pass of a run stands where the stores do: the run
/// holds the envelope plans of its folders on the envelopes as they were at
/// first, and the stores hold the envelopes as the first hunks of those
/// plans have left them.
pub open spec fn envelopes_on_course(
    origin: World,
    strategy: StrategyView,
    world: World,
    session: SessionView,
) -> bool {
    let plan = folder_plan(origin.remote, origin.cache, strategy);
    let total = envelope_plans(origin, session.queue, session.queue.len());
    let settled = session.envelopes.patch.len() as int;
    &&& folders_on_course(origin, strategy, world, session)
    &&& session.folders.patch.len() == plan.len()
    &&& session.queue == shared_folders(world.remote, world.cache, strategy)
    &&& session.envelopes.hunks == total
    &&& settled <= total.len()
    &&& session.envelopes.aborted.is_none()
    &&& forall|side: Side, folder: Seq<char>| #[trigger]
        world.mail(side, folder) == mail_settled(
            origin.mail(side, folder),
            total.take(settled),
            side,
            folder,
        )
}

/// How a run stands against stores that perform every request and that
/// were `origin` when the run began.
pub open spec fn on_course(
    origin: World,
    strategy: StrategyView,
    world: World,
    session: SessionView,
    step: StepView,
) -> bool {
    let plan = folder_plan(origin.remote, origin.cache, strategy);
    let done = session.folders.patch.len() as int;
    let total = envelope_plans(origin, session.queue, session.queue.len());
    let settled = session.envelopes.patch.len() as int;
    &&& session.strategy == strategy
    &&& !session.dry_run
    &&& match session.phase {
        Phase::Idle => false,
        Phase::ListingFolders => {
            &&& world == origin
            &&& session == (SessionView {
                phase: Phase::ListingFolders,
                ..SessionView::start(strategy, false)
            })
            &&& step.request == RequestView::ListFolders
        },
        Phase::ApplyingFolders => {
            &&& folders_on_course(origin, strategy, world, session)
            &&& mail_untouched(origin, world)
            &&& before_envelopes(session)
            &&& session.envelopes.aborted.is_none()
            &&& session.envelopes.patch.len() == 0
            &&& done < plan.len()
            &&& step.request == RequestView::ApplyFolderHunk(plan[done])
        },
        Phase::CommittingFolders => {
            &&& folders_on_course(origin, strategy, world, session)
            &&& mail_untouched(origin, world)
            &&& before_envelopes(session)
            &&& session.envelopes.aborted.is_none()
            &&& session.envelopes.patch.len() == 0
            &&& done == plan.len()
            &&& step.request is CommitFolders
        },
        Phase::ListingEnvelopes => {
            &&& folders_on_course(origin, strategy, world, session)
            &&& mail_untouched(origin, world)
            &&& done == plan.len()
            &&& session.queue == shared_folders(world.remote, world.cache, strategy)
            &&& session.sizes.len() < session.queue.len()
            &&& session.plan == envelope_plans(origin, session.queue, session.sizes.len())
            &&& session.envelopes.hunks.len() == 0
            &&& session.envelopes.patch.len() == 0
            &&& session.envelopes.aborted.is_none()
            &&& step.request == RequestView::ListEnvelopes(session.queue[session.sizes.len() as int])
        },
        Phase::ApplyingEnvelopes => {
            &&& envelopes_on_course(origin, strategy, world, session)
            &&& settled < total.len()
            &&& step.request == RequestView::ApplyEnvelopeHunk(total[settled])
        },
        Phase::CommittingEnvelopes => {
            &&& envelopes_on_course(origin, strategy, world, session)
            &&& settled == total.len()
            &&& step.request is CommitEnvelopes
        },
        Phase::Finished => {
            &&& envelopes_on_course(origin, strategy, world, session)
            &&& settled == total.len()
            &&& step.request == RequestView::Finish
        },
    }
}

/// The folders come in: the run stays on course.

proof fn lemma_course_begins(
    origin: World,
    strategy: StrategyView,
    world: World,
    session: SessionView,
    step: StepView,
)
    requires
        on_course(origin, strategy, world, session, step),
        session.phase == Phase::ListingFolders,
    ensures
        on_course(
            origin,
            strategy,
            world.answer(step.request).0,
            session.after(world.answer(step.request).1).0,
            session.after(world.answer(step.request).1).1,
        ),
{
    let plan = folder_plan(origin.remote, origin.cache, strategy);
    assert(plan.take(0) =~= Seq::<FolderHunkView>::empty());
    let next = session.after(world.answer(step.request).1).0;
    assert(next.folders.hunks == plan);
    assert(next.folders.patch.len() == 0);
}

/// A folder hunk is performed: the run stays on course.

proof fn lemma_course_folder_hunk(
    origin: World,
    strategy: StrategyView,
    world: World,
    session: SessionView,
    step: StepView,
)
    requires
        on_course(origin, strategy, world, session, step),
        session.phase == Phase::ApplyingFolders,
    ensures
        on_course(
            origin,
            strategy,
            world.answer(step.request).0,
            session.after(world.answer(step.request).1).0,
            session.after(world.answer(step.request).1).1,
        ),
{
    let plan = folder_plan(origin.remote, origin.cache, strategy);
    let done = session.folders.patch.len() as int;
    let hunk = plan[done];
    assert(session.folders.next() == Some(hunk));
    assert(plan.take(done + 1).drop_last() =~= plan.take(done));
    assert(plan.take(done + 1).last() == hunk);
    let after = world.answer(step.request).0;
    let next = session.after(world.answer(step.request).1).0;
    assert(next.folders.patch.len() == done + 1);
    assert(after.remote == folders_settled(origin.remote, plan.take(done + 1), Side::Remote));
    assert(after.cache == folders_settled(origin.cache, plan.take(done + 1), Side::Cache));
    assert(mail_untouched(origin, after)) by {
        assert forall|side: Side, folder: Seq<char>| #[trigger]
            after.mail(side, folder) == origin.mail(side, folder) by {
            assert(after.mail(side, folder) == world.mail(side, folder));
        }
    }
}

/// The envelope pass begins where every folder is planned.
proof fn lemma_course_to_envelope_patch(
    origin: World,
    strategy: StrategyView,
    world: World,
    session: SessionView,
)
    requires
        session.strategy == strategy,
        !session.dry_run,
        folders_on_course(origin, strategy, world, session),
        session.folders.patch.len() == folder_plan(origin.remote, origin.cache, strategy).len(),
        mail_untouched(origin, world),
        session.queue == shared_folders(world.remote, world.cache, strategy),
        session.plan == envelope_plans(origin, session.queue, session.queue.len()),
        session.envelopes.aborted.is_none(),
    ensures
        on_course(
            origin,
            strategy,
            world,
            session.to_envelope_patch().0,
            session.to_envelope_patch().1,
        ),
{
    let total = envelope_plans(origin, session.queue, session.queue.len());
    assert(total.take(0) =~= Seq::<EnvelopeHunkView>::empty());
    let next = session.to_envelope_patch().0;
    assert(next.envelopes.hunks == total);
    assert(next.envelopes.patch.len() == 0);
    assert(next.queue == session.queue);
    assert forall|side: Side, folder: Seq<char>| #[trigger]
        world.mail(side, folder) == mail_settled(
            origin.mail(side, folder),
            total.take(0),
            side,
            folder,
        ) by {
        assert(world.mail(side, folder) == origin.mail(side, folder));
    }
}

/// The next folder is listed, or the envelope pass begins: the run stays on

/// course.

proof fn lemma_course_to_next_listing(
    origin: World,
    strategy: StrategyView,
    world: World,
    session: SessionView,
)
    requires
        session.strategy == strategy,
        !session.dry_run,
        folders_on_course(origin, strategy, world, session),
        session.folders.patch.len() == folder_plan(origin.remote, origin.cache, strategy).len(),
        mail_untouched(origin, world),
        session.queue == shared_folders(world.remote, world.cache, strategy),
        session.sizes.len() <= session.queue.len(),
        session.plan == envelope_plans(origin, session.queue, session.sizes.len()),
        session.envelopes.hunks.len() == 0,
        session.envelopes.patch.len() == 0,
        session.envelopes.aborted.is_none(),
    ensures
        on_course(
            origin,
            strategy,
            world,
            session.to_next_listing().0,
            session.to_next_listing().1,
        ),
{
    if session.sizes.len() >= session.queue.len() {
        lemma_course_to_envelope_patch(origin, strategy, world, session);
    }
}

/// The cache records the folder pass: the run stays on course.

proof fn lemma_course_folders_commit(
    origin: World,
    strategy: StrategyView,
    world: World,
    session: SessionView,
    step: StepView,
)
    requires
        on_course(origin, strategy, world, session, step),
        session.phase == Phase::CommittingFolders,
    ensures
        on_course(
            origin,
            strategy,
            world.answer(step.request).0,
            session.after(world.answer(step.request).1).0,
            session.after(world.answer(step.request).1).1,
        ),
{
    let queued = SessionView {
        folders_commit: None,
        queue: shared_folders(session.remote, session.cache, strategy),
        ..session
    };
    assert(queued.plan =~= envelope_plans(origin, queued.queue, 0));
    lemma_course_to_next_listing(origin, strategy, world, queued);
}

/// The envelopes of a folder come in: the run stays on course.

proof fn lemma_course_envelopes_listed(
    origin: World,
    strategy: StrategyView,
    world: World,
    session: SessionView,
    step: StepView,
)
    requires
        on_course(origin, strategy, world, session, step),
        session.phase == Phase::ListingEnvelopes,
    ensures
        on_course(
            origin,
            strategy,
            world.answer(step.request).0,
            session.after(world.answer(step.request).1).0,
            session.after(world.answer(step.request).1).1,
        ),
{
    let at = session.sizes.len();
    let folder = session.queue[at as int];
    let hunks = envelope_plan(
        folder,
        origin.mail(Side::Remote, folder),
        origin.mail(Side::Cache, folder),
    );
    assert(world.mail(Side::Remote, folder) == origin.mail(Side::Remote, folder));
    assert(world.mail(Side::Cache, folder) == origin.mail(Side::Cache, folder));
    let listed = SessionView {
        sizes: session.sizes.push((folder, hunks.len())),
        plan: session.plan + hunks,
        ..session
    };
    assert(listed.plan == envelope_plans(origin, session.queue, at + 1));
    lemma_course_to_next_listing(origin, strategy, world, listed);
}

/// An envelope hunk is performed: the run stays on course.

proof fn lemma_course_envelope_hunk(
    origin: World,
    strategy: StrategyView,
    world: World,
    session: SessionView,
    step: StepView,
)
    requires
        on_course(origin, strategy, world, session, step),
        session.phase == Phase::ApplyingEnvelopes,
    ensures
        on_course(
            origin,
            strategy,
            world.answer(step.request).0,
            session.after(world.answer(step.request).1).0,
            session.after(world.answer(step.request).1).1,
        ),
{
    let total = envelope_plans(origin, session.queue, session.queue.len());
    let settled = session.envelopes.patch.len() as int;
    let hunk = total[settled];
    assert(session.envelopes.next() == Some(hunk));
    assert(total.take(settled + 1).drop_last() =~= total.take(settled));
    assert(total.take(settled + 1).last() == hunk);
    let after = world.answer(step.request).0;
    let next = session.after(world.answer(step.request).1).0;
    assert(next.envelopes.patch.len() == settled + 1);
    assert(next.queue == session.queue);
    assert forall|side: Side, folder: Seq<char>| #[trigger]
        after.mail(side, folder) == mail_settled(
            origin.mail(side, folder),
            total.take(settled + 1),
            side,
            folder,
        ) by {
        assert(world.mail(side, folder) == mail_settled(
            origin.mail(side, folder),
            total.take(settled),
            side,
            folder,
        ));
        if hunk.target == side && hunk.folder == folder {
        } else {
            assert(after.mail(side, folder) == world.mail(side, folder));
        }
    }
}

/// A step against stores that perform every request keeps the run on
/// course.
pub proof fn lemma_on_course_step(
    origin: World,
    strategy: StrategyView,
    world: World,
    session: SessionView,
    step: StepView,
)
    requires
        on_course(origin, strategy, world, session, step),
    ensures
        on_course(
            origin,
            strategy,
            world.answer(step.request).0,
            session.after(world.answer(step.request).1).0,
            session.after(world.answer(step.request).1).1,
        ),
{
    match session.phase {
        Phase::ListingFolders => lemma_course_begins(origin, strategy, world, session, step),
        Phase::ApplyingFolders => lemma_course_folder_hunk(origin, strategy, world, session, step),
        Phase::CommittingFolders => lemma_course_folders_commit(
            origin,
            strategy,
            world,
            session,
            step,
        ),
        Phase::ListingEnvelopes => lemma_course_envelopes_listed(
            origin,
            strategy,
            world,
            session,
            step,
        ),
        Phase::ApplyingEnvelopes => lemma_course_envelope_hunk(
            origin,
            strategy,
            world,
            session,
            step,
        ),
        _ => {},
    }
}

/// A run against stores that perform every request is on course after any
/// number of steps.
pub proof fn lemma_on_course(origin: World, strategy: StrategyView, steps: nat)
    ensures
        on_course(
            origin,
            strategy,
            run_steps(origin, strategy, false, steps).0,
            run_steps(origin, strategy, false, steps).1,
            run_steps(origin, strategy, false, steps).2,
        ),
    decreases steps,
{
    if steps > 0 {
        lemma_on_course(origin, strategy, (steps - 1) as nat);
        let (world, session, step) = run_steps(origin, strategy, false, (steps - 1) as nat);
        lemma_on_course_step(origin, strategy, world, session, step);
    }
}

/// Stores that a run has left, every request performed, need nothing.
pub proof fn lemma_finished_run_leaves_in_sync(
    origin: World,
    strategy: StrategyView,
    world: World,
    session: SessionView,
    step: StepView,
)
    requires
        origin.wf(),
        on_course(origin, strategy, world, session, step),
        session.phase == Phase::Finished,
    ensures
        in_sync(world, strategy),
{
    let plan = folder_plan(origin.remote, origin.cache, strategy);
    assert(plan.take(plan.len() as int) =~= plan);
    law_folder_plan_settles(origin.remote, origin.cache, strategy);
    lemma_folders_settled(origin.remote, plan, Side::Remote, Seq::empty());
    let queue = shared_folders(world.remote, world.cache, strategy);
    lemma_shared_folders_distinct(world.remote, world.cache, strategy);
    let total = envelope_plans(origin, queue, queue.len());
    assert(total.take(total.len() as int) =~= total);
    assert forall|k: int| 0 <= k < queue.len() implies envelope_plan(
        #[trigger] queue[k],
        world.mail(Side::Remote, queue[k]),
        world.mail(Side::Cache, queue[k]),
    ).len() == 0 by {
        let folder = queue[k];
        let remote = origin.mail(Side::Remote, folder);
        let cache = origin.mail(Side::Cache, folder);
        lemma_plans_settle(origin, queue, queue.len(), remote, Side::Remote, folder);
        lemma_plans_settle(origin, queue, queue.len(), cache, Side::Cache, folder);
        assert(world.mail(Side::Remote, folder) == mail_settled(
            remote,
            total.take(total.len() as int),
            Side::Remote,
            folder,
        ));
        assert(world.mail(Side::Cache, folder) == mail_settled(
            cache,
            total.take(total.len() as int),
            Side::Cache,
            folder,
        ));
        law_envelope_plan_settles(folder, remote, cache);
    }
}

/// Two runs in a row, against stores that perform every request and that
/// nothing else changes: once the first run is over, the second finds
/// nothing to do. After any number of its steps the stores are as the
/// first run left them, and both patches of its report are empty.
pub proof fn law_second_run_plans_nothing(
    origin: World,
    strategy: StrategyView,
    first: nat,
    second: nat,
)
    requires
        origin.wf(),
        run_steps(origin, strategy, false, first).1.phase == Phase::Finished,
    ensures
        ({
            let left = run_steps(origin, strategy, false, first).0;
            let again = run_steps(left, strategy, false, second);
            &&& again.0 == left
            &&& again.1.report().folders_patch.len() == 0
            &&& again.1.report().emails_patch.len() == 0
        }),
{
    let (left, session, step) = run_steps(origin, strategy, false, first);
    lemma_on_course(origin, strategy, first);
    lemma_finished_run_leaves_in_sync(origin, strategy, left, session, step);
    law_run_in_sync_plans_nothing(left, strategy, second);
}

/// The folders that get an envelope pass in a run against stores that
/// perform every request: those that both stores hold once the folder plan
/// has taken effect.
pub open spec fn folders_to_pass(origin: World, strategy: StrategyView) -> Seq<Seq<char>> {
    let plan = folder_plan(origin.remote, origin.cache, strategy);
    shared_folders(
        folders_settled(origin.remote, plan, Side::Remote),
        folders_settled(origin.cache, plan, Side::Cache),
        strategy,
    )
}

/// How many steps a run has before it, at most.
pub open spec fn steps_left(origin: World, strategy: StrategyView, session: SessionView) -> nat {
    let folders = folder_plan(origin.remote, origin.cache, strategy).len();
    let queue = folders_to_pass(origin, strategy);
    let envelopes = envelope_plans(origin, queue, queue.len()).len();
    match session.phase {
        Phase::Idle => 0,
        Phase::ListingFolders => 4 + folders + queue.len() + envelopes,
        Phase::ApplyingFolders => (3 + (folders - session.folders.patch.len()) + queue.len()
            + envelopes) as nat,
        Phase::CommittingFolders => 3 + queue.len() + envelopes,
        Phase::ListingEnvelopes => (2 + (queue.len() - session.sizes.len()) + envelopes) as nat,
        Phase::ApplyingEnvelopes => (1 + (envelopes - session.envelopes.patch.len())) as nat,
        Phase::CommittingEnvelopes => 1,
        Phase::Finished => 0,
    }
}

/// The number of steps after which a run against stores that perform
/// every request is over.
pub open spec fn enough_steps(origin: World, strategy: StrategyView) -> nat {
    let folders = folder_plan(origin.remote, origin.cache, strategy).len();
    let queue = folders_to_pass(origin, strategy);
    4 + folders + queue.len() + envelope_plans(origin, queue, queue.len()).len()
}

/// Each step of a run that is not over leaves fewer steps.
proof fn lemma_steps_left_step(
    origin: World,
    strategy: StrategyView,
    world: World,
    session: SessionView,
    step: StepView,
)
    requires
        on_course(origin, strategy, world, session, step),
        session.phase != Phase::Finished,
    ensures
        steps_left(origin, strategy, session.after(world.answer(step.request).1).0) < steps_left(
            origin,
            strategy,
            session,
        ),
{
    lemma_on_course_step(origin, strategy, world, session, step);
    let plan = folder_plan(origin.remote, origin.cache, strategy);
    assert(plan.take(plan.len() as int) =~= plan);
    let next = session.after(world.answer(step.request).1).0;
    let after = world.answer(step.request).0;
    if session.phase == Phase::ApplyingFolders {
        assert(session.folders.next() == Some(plan[session.folders.patch.len() as int]));
        assert(next.folders.patch.len() == session.folders.patch.len() + 1);
    } else if session.phase == Phase::ListingEnvelopes {
        assert(next.phase == Phase::ListingEnvelopes ==> next.sizes.len() == session.sizes.len()
            + 1);
        assert(next.queue == session.queue);
    } else if session.phase == Phase::ApplyingEnvelopes {
        let total = envelope_plans(origin, session.queue, session.queue.len());
        assert(session.envelopes.next() == Some(total[session.envelopes.patch.len() as int]));
        assert(next.envelopes.patch.len() == session.envelopes.patch.len() + 1);
        assert(next.queue == session.queue);
    }
}

/// After some steps a run has that many steps less before it.
proof fn lemma_steps_left(origin: World, strategy: StrategyView, steps: nat)
    ensures
        steps_left(origin, strategy, run_steps(origin, strategy, false, steps).1) + steps
            <= enough_steps(origin, strategy) || run_steps(
            origin,
            strategy,
            false,
            steps,
        ).1.phase == Phase::Finished,
    decreases steps,
{
    lemma_on_course(origin, strategy, steps);
    if steps > 0 {
        lemma_steps_left(origin, strategy, (steps - 1) as nat);
        lemma_on_course(origin, strategy, (steps - 1) as nat);
        let (world, session, step) = run_steps(origin, strategy, false, (steps - 1) as nat);
        if session.phase != Phase::Finished {
            lemma_steps_left_step(origin, strategy, world, session, step);
        }
    }
}

/// A run against stores that perform every request comes to an end:
/// after one step for each listing, each hunk and each commit, it is over.
pub proof fn law_run_comes_to_an_end(origin: World, strategy: StrategyView)
    ensures
        run_steps(origin, strategy, false, enough_steps(origin, strategy)).1.phase
            == Phase::Finished,
{
    let steps = enough_steps(origin, strategy);
    lemma_steps_left(origin, strategy, steps);
    lemma_on_course(origin, strategy, steps);
    let plan = folder_plan(origin.remote, origin.cache, strategy);
    assert(plan.take(plan.len() as int) =~= plan);
}

/// A dry run leaves the stores as they are: after any number of steps
/// they hold what they held before.
pub proof fn law_dry_run_changes_nothing(world: World, strategy: StrategyView, steps: nat)
    ensures
        run_steps(world, strategy, true, steps).0 == world,
        run_steps(world, strategy, true, steps).1.dry_run,
        lists_only(run_steps(world, strategy, true, steps).1.phase),
        !run_steps(world, strategy, true, steps).2.request.is_mutation(),
    decreases steps,
{
    if steps == 0 {
        lemma_dry_step(SessionView::start(strategy, true), ResponseView::Start);
    } else {
        law_dry_run_changes_nothing(world, strategy, (steps - 1) as nat);
        let (before, session, step) = run_steps(world, strategy, true, (steps - 1) as nat);
        lemma_dry_step(session, before.answer(step.request).1);
    }
}

/// Against stores that perform every request nothing fails: after any
/// number of steps the report of the run shows no error, neither on a hunk
/// nor on a commit of the cache.
pub proof fn law_run_on_willing_stores_succeeds(
    world: World,
    strategy: StrategyView,
    dry_run: bool,
    steps: nat,
)
    ensures
        unfailed(run_steps(world, strategy, dry_run, steps).1),
        run_steps(world, strategy, dry_run, steps).1.report().is_success(),
    decreases steps,
{
    if steps == 0 {
        lemma_unfailed_step(SessionView::start(strategy, dry_run), ResponseView::Start);
    } else {
        law_run_on_willing_stores_succeeds(world, strategy, dry_run, (steps - 1) as nat);
        let (before, session, step) = run_steps(world, strategy, dry_run, (steps - 1) as nat);
        lemma_unfailed_step(session, before.answer(step.request).1);
    }
    let session = run_steps(world, strategy, dry_run, steps).1;
    let report = session.report();
    assert forall|i: int| 0 <= i < report.folders_patch.len() implies (
    #[trigger] report.folders_patch[i]).1.is_none() by {
        if i < session.folders.patch.len() {
            assert(session.folders.patch[i].1.is_none());
        }
    }
    assert forall|i: int| 0 <= i < report.emails_patch.len() implies (
    #[trigger] report.emails_patch[i]).1.is_none() by {
        if i < session.envelopes.patch.len() {
            assert(session.envelopes.patch[i].1.is_none());
        }
    }
}

} // verus!
