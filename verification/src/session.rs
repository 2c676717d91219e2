//! One synchronization run, as a machine of states: it says what is to be
//! done next, whoever talks to the stores does it and hands back what came
//! of it.
//!
//! The run lists the folders of both stores, plans and applies the folder
//! patch, has the cache record it, lists the envelopes of every folder that
//! both stores then hold, plans and applies the envelope patch, and has the
//! cache record that too. A dry run lists and plans, and applies nothing.

use vstd::prelude::*;
use vstd::string::StringExecFns;
use crate::applier::{Applier, ApplierView, Reply, ReplyView};
use crate::hunk::{EnvelopeHunk, EnvelopeHunkView, FolderHunk, FolderHunkView, Side};
use crate::listing::{has_live, Item};
use crate::names::{copy_names, texts};
use crate::patch::{hunks_of, outcome_view, preview, succeeded, OutcomeView, Patch, SyncError};
use crate::planner::{envelope_plan, folder_plan, plan_envelopes, plan_folders};
use crate::progress::{events_view, sizes_view, ProgressEvent, ProgressEventView};
use crate::report::{recorded_envelopes, recorded_folders, SyncReport, SyncReportView};
use crate::session_laws::{lemma_sound_report, lemma_sound_step, sound};
use crate::settle::folder_settled;
use crate::snapshot::{EnvelopeSnapshot, EnvelopeView, FolderSnapshot};
use crate::strategy::{FolderSyncStrategy, StrategyView};

verus! {

/// Where a run stands: what it waits for.
#[derive(Clone, Copy, Debug, PartialEq, Eq, Structural)]
pub enum Phase {
    /// Not started.
    Idle,
    /// Waits for the folders of both stores.
    ListingFolders,
    /// Waits for the outcome of a folder hunk.
    ApplyingFolders,
    /// Waits for the cache to record the folder pass.
    CommittingFolders,
    /// Waits for the envelopes of a folder on both stores.
    ListingEnvelopes,
    /// Waits for the outcome of an envelope hunk.
    ApplyingEnvelopes,
    /// Waits for the cache to record the envelope pass.
    CommittingEnvelopes,
    /// Over.
    Finished,
}

/// What is to be done next, as contracts see it.
pub enum RequestView {
    ListFolders,
    ApplyFolderHunk(FolderHunkView),
    CommitFolders(Seq<(FolderHunkView, OutcomeView)>),
    ListEnvelopes(Seq<char>),
    ApplyEnvelopeHunk(EnvelopeHunkView),
    CommitEnvelopes(Seq<(EnvelopeHunkView, OutcomeView)>),
    Finish,
}

impl RequestView {
    /// Whether the request changes a store or the cache's records.
    pub open spec fn is_mutation(self) -> bool {
        match self {
            RequestView::ListFolders => false,
            RequestView::ListEnvelopes(_) => false,
            RequestView::Finish => false,
            _ => true,
        }
    }
}

/// One step of a run as contracts see it: the events to hand to the
/// progress sink, in their order, and then the request to perform.
pub struct StepView {
    pub notify: Seq<ProgressEventView>,
    pub request: RequestView,
}

/// The step that performs `request` and has nothing to tell the sink.
pub open spec fn quiet(request: RequestView) -> StepView {
    StepView { notify: Seq::empty(), request }
}

/// What came of the last step, as contracts see it.
#[allow(inconsistent_fields)]
pub enum ResponseView {
    Start,
    Folders { remote: Seq<Item>, cache: Seq<Item> },
    Envelopes { remote: Seq<EnvelopeView>, cache: Seq<EnvelopeView> },
    Hunk(OutcomeView),
    Commit(OutcomeView),
    Abort(Seq<char>),
}

/// The folders that get an envelope pass: those that both stores hold
/// live and the strategy selects, in the order of the remote listing.
pub open spec fn shared_folders(remote: Seq<Item>, cache: Seq<Item>, strategy: StrategyView) -> Seq<
    Seq<char>,
> {
    remote.filter_map(
        |folder: Item|
            if !folder.deleted && has_live(cache, folder.name) && strategy.selects(folder.name) {
                Some(folder.name)
            } else {
                None
            },
    )
}

/// The cause that a run records when a response comes in that the run does
/// not wait for.
pub open spec fn unexpected_response() -> Seq<char> {
    "unexpected response"@
}

/// A run as contracts see it.
pub struct SessionView {
    pub strategy: StrategyView,
    pub dry_run: bool,
    pub phase: Phase,
    /// The folders of the remote store: as listed, then as the folder hunks
    /// that succeeded on it have left them.
    pub remote: Seq<Item>,
    /// The folders of the cache, likewise.
    pub cache: Seq<Item>,
    pub folders: ApplierView<FolderHunkView>,
    /// What the cache was asked to record of the folder pass.
    pub folders_record: Seq<(FolderHunkView, OutcomeView)>,
    pub folders_commit: OutcomeView,
    /// The folders that get an envelope pass.
    pub queue: Seq<Seq<char>>,
    /// Those of them whose envelopes are planned, each with the number of
    /// its hunks.
    pub sizes: Seq<(Seq<char>, nat)>,
    /// The envelope hunks planned so far.
    pub plan: Seq<EnvelopeHunkView>,
    pub envelopes: ApplierView<EnvelopeHunkView>,
    /// What the cache was asked to record of the envelope pass.
    pub envelopes_record: Seq<(EnvelopeHunkView, OutcomeView)>,
    pub envelopes_commit: OutcomeView,
    /// Why the run ended before its time, if it did.
    pub aborted: OutcomeView,
}

impl SessionView {
    /// The run that has not started.
    pub open spec fn start(strategy: StrategyView, dry_run: bool) -> SessionView {
        SessionView {
            strategy,
            dry_run,
            phase: Phase::Idle,
            remote: Seq::empty(),
            cache: Seq::empty(),
            folders: ApplierView::start(Seq::empty()),
            folders_record: Seq::empty(),
            folders_commit: None,
            queue: Seq::empty(),
            sizes: Seq::empty(),
            plan: Seq::empty(),
            envelopes: ApplierView::start(Seq::empty()),
            envelopes_record: Seq::empty(),
            envelopes_commit: None,
            aborted: None,
        }
    }

    /// The run ends here, for `cause`.
    pub open spec fn ended(self, cause: Seq<char>) -> (SessionView, StepView) {
        (
            SessionView { phase: Phase::Finished, aborted: Some(cause), ..self },
            quiet(RequestView::Finish),
        )
    }

    /// The folder pass is over, or skipped: the envelope pass begins with
    /// the folders that both stores hold now.
    pub open spec fn to_envelope_pass(self) -> (SessionView, StepView) {
        SessionView {
            queue: shared_folders(self.remote, self.cache, self.strategy),
            ..self
        }.to_next_listing()
    }

    /// Asks for the envelopes of the next folder; once every folder is
    /// planned, goes on to apply the envelope patch.
    pub open spec fn to_next_listing(self) -> (SessionView, StepView) {
        if self.sizes.len() < self.queue.len() {
            (
                SessionView { phase: Phase::ListingEnvelopes, ..self },
                quiet(RequestView::ListEnvelopes(self.queue[self.sizes.len() as int])),
            )
        } else {
            self.to_envelope_patch()
        }
    }

    /// Every folder is planned: a dry run ends here, any other applies the
    /// envelope patch.
    pub open spec fn to_envelope_patch(self) -> (SessionView, StepView) {
        let envelopes = ApplierView::start(self.plan);
        let plan = Seq::empty();
        if self.dry_run {
            (
                SessionView { phase: Phase::Finished, envelopes, plan, ..self },
                quiet(RequestView::Finish),
            )
        } else {
            let (next, step) = SessionView { envelopes, plan, ..self }.to_next_envelope_hunk();
            (
                next,
                StepView {
                    notify: seq![ProgressEventView::BeginEnvelopePatch(self.sizes)] + step.notify,
                    request: step.request,
                },
            )
        }
    }

    /// Hands out the next folder hunk; once none is left, asks the cache to
    /// record the hunks that succeeded.
    pub open spec fn to_next_folder_hunk(self) -> (SessionView, StepView) {
        match self.folders.next() {
            Some(hunk) => (
                SessionView { phase: Phase::ApplyingFolders, ..self },
                quiet(RequestView::ApplyFolderHunk(hunk)),
            ),
            None => (
                SessionView {
                    phase: Phase::CommittingFolders,
                    folders_record: succeeded(self.folders.patch),
                    ..self
                },
                quiet(RequestView::CommitFolders(succeeded(self.folders.patch))),
            ),
        }
    }

    /// Hands out the next envelope hunk; once none is left, asks the cache
    /// to record the hunks that succeeded.
    pub open spec fn to_next_envelope_hunk(self) -> (SessionView, StepView) {
        match self.envelopes.next() {
            Some(hunk) => (
                SessionView { phase: Phase::ApplyingEnvelopes, ..self },
                StepView {
                    notify: seq![ProgressEventView::EnvelopeHunk(hunk)],
                    request: RequestView::ApplyEnvelopeHunk(hunk),
                },
            ),
            None => (
                SessionView {
                    phase: Phase::CommittingEnvelopes,
                    envelopes_record: succeeded(self.envelopes.patch),
                    ..self
                },
                StepView {
                    notify: seq![ProgressEventView::BeginCachePatch],
                    request: RequestView::CommitEnvelopes(succeeded(self.envelopes.patch)),
                },
            ),
        }
    }

    /// The folders of both stores came in: the folder patch is planned. A
    /// dry run goes on to the envelopes; any other applies the patch.
    pub open spec fn after_folders_listed(self, remote: Seq<Item>, cache: Seq<Item>) -> (
        SessionView,
        StepView,
    ) {
        let planned = SessionView {
            remote,
            cache,
            folders: ApplierView::start(folder_plan(remote, cache, self.strategy)),
            ..self
        };
        if self.dry_run {
            planned.to_envelope_pass()
        } else {
            let (next, step) = planned.to_next_folder_hunk();
            (
                next,
                StepView {
                    notify: seq![ProgressEventView::BeginFolderPatch] + step.notify,
                    request: step.request,
                },
            )
        }
    }

    /// The outcome of a folder hunk came in: it is recorded, and where the
    /// hunk succeeded, the listing of its target follows.
    pub open spec fn after_folder_hunk(self, outcome: OutcomeView) -> (SessionView, StepView) {
        match self.folders.next() {
            Some(hunk) => {
                let worked = outcome.is_none();
                SessionView {
                    folders: self.folders.fed(ReplyView::Done(outcome)),
                    remote: if worked && hunk.target == Side::Remote {
                        folder_settled(self.remote, hunk)
                    } else {
                        self.remote
                    },
                    cache: if worked && hunk.target == Side::Cache {
                        folder_settled(self.cache, hunk)
                    } else {
                        self.cache
                    },
                    ..self
                }.to_next_folder_hunk()
            },
            None => self.to_next_folder_hunk(),
        }
    }

    /// The cache answered on the folder pass: the answer is recorded, and
    /// the envelope pass begins.
    pub open spec fn after_folders_commit(self, outcome: OutcomeView) -> (SessionView, StepView) {
        SessionView { folders_commit: outcome, ..self }.to_envelope_pass()
    }

    /// The envelopes of a folder came in: its envelope patch is planned
    /// and joins those of the folders before it.
    pub open spec fn after_envelopes_listed(
        self,
        remote: Seq<EnvelopeView>,
        cache: Seq<EnvelopeView>,
    ) -> (SessionView, StepView) {
        if self.sizes.len() < self.queue.len() {
            let folder = self.queue[self.sizes.len() as int];
            let hunks = envelope_plan(folder, remote, cache);
            SessionView {
                sizes: self.sizes.push((folder, hunks.len())),
                plan: self.plan + hunks,
                ..self
            }.to_next_listing()
        } else {
            self.to_next_listing()
        }
    }

    /// The outcome of an envelope hunk came in: it is recorded.
    pub open spec fn after_envelope_hunk(self, outcome: OutcomeView) -> (SessionView, StepView) {
        SessionView {
            envelopes: self.envelopes.fed(ReplyView::Done(outcome)),
            ..self
        }.to_next_envelope_hunk()
    }

    /// The cache answered on the envelope pass: the answer is recorded and
    /// the run is over.
    pub open spec fn after_envelopes_commit(self, outcome: OutcomeView) -> (SessionView, StepView) {
        (
            SessionView { phase: Phase::Finished, envelopes_commit: outcome, ..self },
            StepView {
                notify: seq![ProgressEventView::FoldersExpunged(self.queue)],
                request: RequestView::Finish,
            },
        )
    }

    /// The run after `response` came in, and the step that it asks for
    /// then. A run that is over stays as it is. A response that aborts ends
    /// the run and keeps what was done; so does a response that the run
    /// does not wait for.
    pub open spec fn after(self, response: ResponseView) -> (SessionView, StepView) {
        if self.phase == Phase::Finished {
            (self, quiet(RequestView::Finish))
        } else {
            match response {
                ResponseView::Abort(cause) => self.ended(cause),
                ResponseView::Start => if self.phase == Phase::Idle {
                    (
                        SessionView { phase: Phase::ListingFolders, ..self },
                        quiet(RequestView::ListFolders),
                    )
                } else {
                    self.ended(unexpected_response())
                },
                ResponseView::Folders { remote, cache } => if self.phase == Phase::ListingFolders {
                    self.after_folders_listed(remote, cache)
                } else {
                    self.ended(unexpected_response())
                },
                ResponseView::Envelopes { remote, cache } => if self.phase
                    == Phase::ListingEnvelopes {
                    self.after_envelopes_listed(remote, cache)
                } else {
                    self.ended(unexpected_response())
                },
                ResponseView::Hunk(outcome) => if self.phase == Phase::ApplyingFolders {
                    self.after_folder_hunk(outcome)
                } else if self.phase == Phase::ApplyingEnvelopes {
                    self.after_envelope_hunk(outcome)
                } else {
                    self.ended(unexpected_response())
                },
                ResponseView::Commit(outcome) => if self.phase == Phase::CommittingFolders {
                    self.after_folders_commit(outcome)
                } else if self.phase == Phase::CommittingEnvelopes {
                    self.after_envelopes_commit(outcome)
                } else {
                    self.ended(unexpected_response())
                },
            }
        }
    }

    /// The report of the run as it stands. A dry run reports the patches as
    /// planned; any other reports the hunks that have an outcome.
    pub open spec fn report(self) -> SyncReportView {
        SyncReportView {
            folders_patch: if self.dry_run {
                self.folders.whole()
            } else {
                self.folders.patch
            },
            folders_cache_patch: (self.folders_record, self.folders_commit),
            emails_patch: if self.dry_run {
                self.envelopes.whole()
            } else {
                self.envelopes.patch
            },
            emails_cache_patch: (self.envelopes_record, self.envelopes_commit),
        }
    }
}

/// What is to be done next.
#[derive(Debug)]
pub enum Request {
    /// List the folders of both stores.
    ListFolders,
    /// Perform this folder hunk on its target.
    ApplyFolderHunk(FolderHunk),
    /// Have the cache record this patch of the folder pass.
    CommitFolders(Patch<FolderHunk>),
    /// List the envelopes of this folder on both stores.
    ListEnvelopes(String),
    /// Perform this envelope hunk on its target.
    ApplyEnvelopeHunk(EnvelopeHunk),
    /// Have the cache record this patch of the envelope pass.
    CommitEnvelopes(Patch<EnvelopeHunk>),
    /// Nothing: the run is over.
    Finish,
}

impl View for Request {
    type V = RequestView;

    open spec fn view(&self) -> RequestView {
        match self {
            Request::ListFolders => RequestView::ListFolders,
            Request::ApplyFolderHunk(hunk) => RequestView::ApplyFolderHunk(hunk@),
            Request::CommitFolders(patch) => RequestView::CommitFolders(patch@),
            Request::ListEnvelopes(folder) => RequestView::ListEnvelopes(folder@),
            Request::ApplyEnvelopeHunk(hunk) => RequestView::ApplyEnvelopeHunk(hunk@),
            Request::CommitEnvelopes(patch) => RequestView::CommitEnvelopes(patch@),
            Request::Finish => RequestView::Finish,
        }
    }
}

/// One step of a run: first hand the events to the progress sink, in their
/// order; where the sink asks to stop, answer with `Response::Abort`; else
/// perform the request and answer with what came of it.
#[derive(Debug)]
pub struct Step {
    pub notify: Vec<ProgressEvent>,
    pub request: Request,
}

impl View for Step {
    type V = StepView;

    open spec fn view(&self) -> StepView {
        StepView { notify: events_view(self.notify@), request: self.request@ }
    }
}

/// What came of the last step.
#[derive(Debug)]
#[allow(inconsistent_fields)]
pub enum Response {
    /// Nothing yet: the run is to start.
    Start,
    /// The folders of both stores.
    Folders { remote: FolderSnapshot, cache: FolderSnapshot },
    /// The envelopes of the folder asked for, on both stores.
    Envelopes { remote: EnvelopeSnapshot, cache: EnvelopeSnapshot },
    /// The outcome of the hunk: `None` where it succeeded.
    Hunk(Option<SyncError>),
    /// The outcome of the commit: `None` where it succeeded.
    Commit(Option<SyncError>),
    /// The run shall stop: the progress sink asked for it, or the stores
    /// are out of reach.
    Abort(SyncError),
}

impl View for Response {
    type V = ResponseView;

    open spec fn view(&self) -> ResponseView {
        match self {
            Response::Start => ResponseView::Start,
            Response::Folders { remote, cache } => ResponseView::Folders {
                remote: remote@,
                cache: cache@,
            },
            Response::Envelopes { remote, cache } => ResponseView::Envelopes {
                remote: remote@,
                cache: cache@,
            },
            Response::Hunk(outcome) => ResponseView::Hunk(outcome_view(*outcome)),
            Response::Commit(outcome) => ResponseView::Commit(outcome_view(*outcome)),
            Response::Abort(cause) => ResponseView::Abort(cause@),
        }
    }
}

/// The folders that get an envelope pass.
pub fn list_shared_folders(
    remote: &FolderSnapshot,
    cache: &FolderSnapshot,
    strategy: &FolderSyncStrategy,
) -> (folders: Vec<String>)
    ensures
        texts(folders@) == shared_folders(remote@, cache@, strategy@),
{
    let ghost pick = |folder: Item|
        if !folder.deleted && has_live(cache@, folder.name) && strategy@.selects(folder.name) {
            Some(folder.name)
        } else {
            None
        };
    let mut folders: Vec<String> = Vec::new();
    let n = remote.len();
    let mut i: usize = 0;
    proof {
        assert(remote@.take(0).filter_map(pick) =~= Seq::empty());
        assert(texts(folders@) =~= remote@.take(0).filter_map(pick));
    }
    while i < n
        invariant
            i <= n,
            n == remote@.len(),
            pick == |folder: Item|
                if !folder.deleted && has_live(cache@, folder.name) && strategy@.selects(
                    folder.name,
                ) {
                    Some(folder.name)
                } else {
                    None
                },
            texts(folders@) == remote@.take(i as int).filter_map(pick),
        decreases n - i,
    {
        let entry = remote.entry(i);
        proof {
            remote@.lemma_filter_map_take_succ(pick, i as int);
        }
        let ghost before = remote@.take(i as int).filter_map(pick);
        if !entry.deleted && cache.status(&entry.name) == Some(false) && strategy.matches(
            &entry.name,
        ) {
            let ghost listed = texts(folders@);
            folders.push(entry.name.clone());
            proof {
                assert(texts(folders@) =~= listed.push(entry@.name));
                assert(before + seq![entry@.name] =~= before.push(entry@.name));
            }
        } else {
            proof {
                assert(before + Seq::<Seq<char>>::empty() =~= before);
            }
        }
        i += 1;
    }
    proof {
        assert(remote@.take(n as int) =~= remote@);
    }
    folders
}

/// A copy of the sizes of the envelope patches.
fn copy_sizes(sizes: &Vec<(String, usize)>) -> (copy: Vec<(String, usize)>)
    ensures
        sizes_view(copy@) == sizes_view(sizes@),
{
    let mut copy: Vec<(String, usize)> = Vec::new();
    let mut i: usize = 0;
    while i < sizes.len()
        invariant
            i <= sizes.len(),
            sizes_view(copy@) == sizes_view(sizes@.take(i as int)),
        decreases sizes.len() - i,
    {
        let ghost before = sizes_view(copy@);
        let name = sizes[i].0.clone();
        let size = sizes[i].1;
        copy.push((name, size));
        proof {
            let added = (sizes@[i as int].0@, sizes@[i as int].1 as nat);
            assert(sizes_view(copy@) =~= before.push(added));
            assert(sizes_view(sizes@.take(i + 1)) =~= sizes_view(sizes@.take(i as int)).push(added));
        }
        i += 1;
    }
    proof {
        assert(sizes@.take(i as int) =~= sizes@);
    }
    copy
}

/// One synchronization run.
#[derive(Debug)]
pub struct Session {
    strategy: FolderSyncStrategy,
    dry_run: bool,
    phase: Phase,
    remote: FolderSnapshot,
    cache: FolderSnapshot,
    folders: Applier<FolderHunk>,
    folders_record: Patch<FolderHunk>,
    folders_commit: Option<SyncError>,
    queue: Vec<String>,
    sizes: Vec<(String, usize)>,
    plan: Patch<EnvelopeHunk>,
    envelopes: Applier<EnvelopeHunk>,
    envelopes_record: Patch<EnvelopeHunk>,
    envelopes_commit: Option<SyncError>,
    aborted: Option<SyncError>,
}

impl View for Session {
    type V = SessionView;

    closed spec fn view(&self) -> SessionView {
        SessionView {
            strategy: self.strategy@,
            dry_run: self.dry_run,
            phase: self.phase,
            remote: self.remote@,
            cache: self.cache@,
            folders: self.folders@,
            folders_record: self.folders_record@,
            folders_commit: outcome_view(self.folders_commit),
            queue: texts(self.queue@),
            sizes: sizes_view(self.sizes@),
            plan: hunks_of(self.plan@),
            envelopes: self.envelopes@,
            envelopes_record: self.envelopes_record@,
            envelopes_commit: outcome_view(self.envelopes_commit),
            aborted: outcome_view(self.aborted),
        }
    }
}

impl Session {
    /// Whether the run is as a run has to be: every run is that was begun
    /// by `new` and moved on by `step`.
    pub open spec fn wf(&self) -> bool {
        sound(self@)
    }

    /// A run that has not started: it synchronizes the folders that
    /// `strategy` selects, and in a dry run applies nothing.
    pub fn new(strategy: FolderSyncStrategy, dry_run: bool) -> (session: Session)
        ensures
            session@ == SessionView::start(strategy@, dry_run),
            session.wf(),
    {
        let session = Session {
            strategy,
            dry_run,
            phase: Phase::Idle,
            remote: FolderSnapshot::new(),
            cache: FolderSnapshot::new(),
            folders: Applier::new(Patch::new()),
            folders_record: Patch::new(),
            folders_commit: None,
            queue: Vec::new(),
            sizes: Vec::new(),
            plan: Patch::new(),
            envelopes: Applier::new(Patch::new()),
            envelopes_record: Patch::new(),
            envelopes_commit: None,
            aborted: None,
        };
        proof {
            assert(hunks_of(Seq::<(FolderHunkView, OutcomeView)>::empty()) =~= Seq::empty());
            assert(hunks_of(Seq::<(EnvelopeHunkView, OutcomeView)>::empty()) =~= Seq::empty());
            assert(texts(session.queue@) =~= Seq::empty());
            assert(sizes_view(session.sizes@) =~= Seq::empty());
            assert(hunks_of(session@.folders.patch) =~= session@.folders.hunks.take(0));
            assert(hunks_of(session@.envelopes.patch) =~= session@.envelopes.hunks.take(0));
        }
        session
    }

    /// Where the run stands.
    pub fn phase(&self) -> (phase: Phase)
        ensures
            phase == self@.phase,
    {
        self.phase
    }

    /// Whether the run is over.
    pub fn is_finished(&self) -> (over: bool)
        ensures
            over == (self@.phase == Phase::Finished),
    {
        self.phase == Phase::Finished
    }

    /// Whether the run applies nothing.
    pub fn is_dry_run(&self) -> (dry: bool)
        ensures
            dry == self@.dry_run,
    {
        self.dry_run
    }

    /// Why the run ended before its time, if it did.
    pub fn aborted(&self) -> (cause: &Option<SyncError>)
        ensures
            outcome_view(*cause) == self@.aborted,
    {
        &self.aborted
    }

    /// Ends the run for `cause`.

    fn end(&mut self, cause: SyncError) -> (step: Step)
        ensures
            (final(self)@, step@) == old(self)@.ended(cause@),
    {
        self.phase = Phase::Finished;
        self.aborted = Some(cause);
        let step = Step { notify: Vec::new(), request: Request::Finish };
        proof {
            assert(events_view(step.notify@) =~= Seq::empty());
        }
        step
    }

    /// Ends the run for a response that it did not wait for.

    fn end_unexpected(&mut self) -> (step: Step)
        ensures
            (final(self)@, step@) == old(self)@.ended(unexpected_response()),
    {
        self.end(SyncError { message: String::from_str("unexpected response") })
    }

    /// Hands out the next folder hunk, or asks the cache to record the pass.

    fn go_to_next_folder_hunk(&mut self) -> (step: Step)
        ensures
            (final(self)@, step@) == old(self)@.to_next_folder_hunk(),
    {
        let request = match self.folders.next() {
            Some(hunk) => Some(Request::ApplyFolderHunk(hunk.duplicate())),
            None => None,
        };
        let step = match request {
            Some(request) => {
                self.phase = Phase::ApplyingFolders;
                Step { notify: Vec::new(), request }
            },
            None => {
                self.phase = Phase::CommittingFolders;
                self.folders_record = recorded_folders(self.folders.settled());
                let record = recorded_folders(self.folders.settled());
                Step { notify: Vec::new(), request: Request::CommitFolders(record) }
            },
        };
        proof {
            assert(events_view(step.notify@) =~= Seq::empty());
        }
        step
    }

    /// Hands out the next envelope hunk, or asks the cache to record the pass.

    fn go_to_next_envelope_hunk(&mut self) -> (step: Step)
        ensures
            (final(self)@, step@) == old(self)@.to_next_envelope_hunk(),
    {
        let next = match self.envelopes.next() {
            Some(hunk) => Some((hunk.duplicate(), hunk.duplicate())),
            None => None,
        };
        match next {
            Some((told, asked)) => {
                self.phase = Phase::ApplyingEnvelopes;
                let mut notify: Vec<ProgressEvent> = Vec::new();
                notify.push(ProgressEvent::EnvelopeHunk(told));
                let step = Step { notify, request: Request::ApplyEnvelopeHunk(asked) };
                proof {
                    assert(events_view(step.notify@) =~= seq![
                        ProgressEventView::EnvelopeHunk(told@),
                    ]);
                }
                step
            },
            None => {
                self.phase = Phase::CommittingEnvelopes;
                self.envelopes_record = recorded_envelopes(self.envelopes.settled());
                let record = recorded_envelopes(self.envelopes.settled());
                let mut notify: Vec<ProgressEvent> = Vec::new();
                notify.push(ProgressEvent::BeginCachePatch);
                let step = Step { notify, request: Request::CommitEnvelopes(record) };
                proof {
                    assert(events_view(step.notify@) =~= seq![ProgressEventView::BeginCachePatch]);
                }
                step
            },
        }
    }

    /// Ends a dry run, or begins to apply the envelope patch.

    fn go_to_envelope_patch(&mut self) -> (step: Step)
        ensures
            (final(self)@, step@) == old(self)@.to_envelope_patch(),
    {
        let ghost before = self@;
        let mut plan: Patch<EnvelopeHunk> = Patch::new();
        std::mem::swap(&mut plan, &mut self.plan);
        self.envelopes = Applier::new(plan);
        proof {
            assert(hunks_of(self.plan@) =~= Seq::<EnvelopeHunkView>::empty());
        }
        if self.dry_run {
            self.phase = Phase::Finished;
            let step = Step { notify: Vec::new(), request: Request::Finish };
            proof {
                assert(events_view(step.notify@) =~= Seq::empty());
            }
            step
        } else {
            let sizes = copy_sizes(&self.sizes);
            let step = self.go_to_next_envelope_hunk();
            let ghost rest = events_view(step.notify@);
            let mut notify = step.notify;
            notify.insert(0, ProgressEvent::BeginEnvelopePatch(sizes));
            let step = Step { notify, request: step.request };
            proof {
                assert(events_view(step.notify@) =~= seq![
                    ProgressEventView::BeginEnvelopePatch(before.sizes),
                ] + rest);
            }
            step
        }
    }

    /// Asks for the envelopes of the next folder, or goes on to the patch.

    fn go_to_next_listing(&mut self) -> (step: Step)
        ensures
            (final(self)@, step@) == old(self)@.to_next_listing(),
    {
        if self.sizes.len() < self.queue.len() {
            self.phase = Phase::ListingEnvelopes;
            let folder = self.queue[self.sizes.len()].clone();
            let step = Step { notify: Vec::new(), request: Request::ListEnvelopes(folder) };
            proof {
                assert(events_view(step.notify@) =~= Seq::empty());
            }
            step
        } else {
            self.go_to_envelope_patch()
        }
    }

    /// Begins the envelope pass with the folders that both stores hold.

    fn go_to_envelope_pass(&mut self) -> (step: Step)
        ensures
            (final(self)@, step@) == old(self)@.to_envelope_pass(),
    {
        self.queue = list_shared_folders(&self.remote, &self.cache, &self.strategy);
        self.go_to_next_listing()
    }

    /// Takes in the folders of both stores and plans the folder patch.

    fn take_folders(&mut self, remote: FolderSnapshot, cache: FolderSnapshot) -> (step: Step)
        ensures
            (final(self)@, step@) == old(self)@.after_folders_listed(remote@, cache@),
    {
        let plan = plan_folders(&remote, &cache, &self.strategy);
        proof {
            assert(hunks_of(preview(folder_plan(remote@, cache@, self.strategy@))) =~= folder_plan(
                remote@,
                cache@,
                self.strategy@,
            ));
        }
        self.folders = Applier::new(plan);
        self.remote = remote;
        self.cache = cache;
        if self.dry_run {
            self.go_to_envelope_pass()
        } else {
            let step = self.go_to_next_folder_hunk();
            let ghost rest = events_view(step.notify@);
            let mut notify = step.notify;
            notify.insert(0, ProgressEvent::BeginFolderPatch);
            let step = Step { notify, request: step.request };
            proof {
                assert(events_view(step.notify@) =~= seq![ProgressEventView::BeginFolderPatch]
                    + rest);
            }
            step
        }
    }

    /// Takes in the outcome of a folder hunk.

    fn take_folder_outcome(&mut self, outcome: Option<SyncError>) -> (step: Step)
        ensures
            (final(self)@, step@) == old(self)@.after_folder_hunk(outcome_view(outcome)),
    {
        let handed = match self.folders.next() {
            Some(hunk) => Some(hunk.duplicate()),
            None => None,
        };
        match handed {
            Some(hunk) => {
                let worked = outcome.is_none();
                self.folders.feed(Reply::Done(outcome));
                if worked {
                    match hunk.target {
                        Side::Remote => self.remote.settle(&hunk),
                        Side::Cache => self.cache.settle(&hunk),
                    }
                }
            },
            None => {},
        }
        self.go_to_next_folder_hunk()
    }

    /// Takes in the envelopes of a folder and plans its patch.

    fn take_envelopes(&mut self, remote: EnvelopeSnapshot, cache: EnvelopeSnapshot) -> (step: Step)
        ensures
            (final(self)@, step@) == old(self)@.after_envelopes_listed(remote@, cache@),
    {
        if self.sizes.len() < self.queue.len() {
            let ghost before = self@;
            let folder = self.queue[self.sizes.len()].clone();
            let mut hunks = plan_envelopes(&folder, &remote, &cache);
            let ghost planned = envelope_plan(folder@, remote@, cache@);
            let size = hunks.len();
            proof {
                assert(hunks_of(hunks@) =~= planned);
            }
            self.sizes.push((folder, size));
            self.plan.entries.append(&mut hunks.entries);
            proof {
                assert(sizes_view(self.sizes@) =~= before.sizes.push((folder@, size as nat)));
                assert(self.plan@ =~= old(self).plan@ + preview(planned));
                assert(hunks_of(self.plan@) =~= before.plan + planned);
            }
        }
        self.go_to_next_listing()
    }

    /// Takes in the outcome of an envelope hunk.

    fn take_envelope_outcome(&mut self, outcome: Option<SyncError>) -> (step: Step)
        ensures
            (final(self)@, step@) == old(self)@.after_envelope_hunk(outcome_view(outcome)),
    {
        self.envelopes.feed(Reply::Done(outcome));
        self.go_to_next_envelope_hunk()
    }

    /// Takes in the answer of the cache on the envelope pass.

    fn take_envelopes_commit(&mut self, outcome: Option<SyncError>) -> (step: Step)
        ensures
            (final(self)@, step@) == old(self)@.after_envelopes_commit(outcome_view(outcome)),
    {
        self.phase = Phase::Finished;
        self.envelopes_commit = outcome;
        let mut notify: Vec<ProgressEvent> = Vec::new();
        let folders = copy_names(&self.queue);
        notify.push(ProgressEvent::FoldersExpunged(folders));
        let step = Step { notify, request: Request::Finish };
        proof {
            assert(events_view(step.notify@) =~= seq![
                ProgressEventView::FoldersExpunged(texts(self.queue@)),
            ]);
        }
        step
    }

    /// Takes in what came of the last step and says what is to be done
    /// next. The first response of a run is `Response::Start`.
    pub fn step(&mut self, response: Response) -> (step: Step)
        ensures
            (final(self)@, step@) == old(self)@.after(response@),
            old(self).wf() ==> final(self).wf(),
    {
        match &response {
            Response::Folders { remote, cache } => {
                // A listing holds no name twice: its length comes with that.
                let _listed: (usize, usize) = (remote.len(), cache.len());
            },
            _ => {},
        }
        proof {
            if sound(self@) {
                lemma_sound_step(self@, response@);
            }
        }
        if self.phase == Phase::Finished {
            let step = Step { notify: Vec::new(), request: Request::Finish };
            proof {
                assert(events_view(step.notify@) =~= Seq::empty());
            }
            return step;
        }
        match response {
            Response::Abort(cause) => self.end(cause),
            Response::Start => {
                if self.phase == Phase::Idle {
                    self.phase = Phase::ListingFolders;
                    let step = Step { notify: Vec::new(), request: Request::ListFolders };
                    proof {
                        assert(events_view(step.notify@) =~= Seq::empty());
                    }
                    step
                } else {
                    self.end_unexpected()
                }
            },
            Response::Folders { remote, cache } => {
                if self.phase == Phase::ListingFolders {
                    self.take_folders(remote, cache)
                } else {
                    self.end_unexpected()
                }
            },
            Response::Envelopes { remote, cache } => {
                if self.phase == Phase::ListingEnvelopes {
                    self.take_envelopes(remote, cache)
                } else {
                    self.end_unexpected()
                }
            },
            Response::Hunk(outcome) => {
                if self.phase == Phase::ApplyingFolders {
                    self.take_folder_outcome(outcome)
                } else if self.phase == Phase::ApplyingEnvelopes {
                    self.take_envelope_outcome(outcome)
                } else {
                    self.end_unexpected()
                }
            },
            Response::Commit(outcome) => {
                if self.phase == Phase::CommittingFolders {
                    self.folders_commit = outcome;
                    self.go_to_envelope_pass()
                } else if self.phase == Phase::CommittingEnvelopes {
                    self.take_envelopes_commit(outcome)
                } else {
                    self.end_unexpected()
                }
            },
        }
    }

    /// Ends the run and gives its report.
    pub fn into_report(self) -> (report: SyncReport)
        ensures
            report@ == self@.report(),
            self.wf() ==> report@.keeps_to_folders(),
    {
        proof {
            if sound(self@) {
                lemma_sound_report(self@);
            }
        }
        let (folders_patch, emails_patch) = if self.dry_run {
            (self.folders.into_whole(), self.envelopes.into_whole())
        } else {
            (self.folders.finish().patch, self.envelopes.finish().patch)
        };
        SyncReport::assemble(
            folders_patch,
            (self.folders_record, self.folders_commit),
            emails_patch,
            (self.envelopes_record, self.envelopes_commit),
        )
    }
}

} // verus!
