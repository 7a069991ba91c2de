//! The orchestration of one build.
//!
//! Loading the manifest and scheduling commands are done by a driver outside
//! this library. What this module holds are the decisions: an orchestrator
//! names the next request for the driver, and is told the reply.

use crate::graph::FileId;
use vstd::prelude::*;
use vstd::string::*;

verus! {

/// Configuration of one build.
#[derive(Debug, Copy, Clone, PartialEq, Eq, Structural)]
pub struct Options {
    /// Number of commands that may run at the same time.
    pub parallelism: usize,
    /// Number of failed commands after which the build stops; 0 means that it
    /// never stops on failures.
    pub keep_going: usize,
    /// Whether to say why each target is considered out of date.
    pub explain: bool,
}

/// Why a build did not produce a task count.
#[derive(Debug, Clone, PartialEq, Eq)]
pub enum BuildError {
    /// Loading the manifest, naming a target or running the scheduler failed;
    /// the text is what the failing collaborator reported.
    Failed(String),
    /// No target was named and the manifest declares no default.
    NoTarget,
    /// The driver's reply does not answer the pending request.
    Protocol,
}

/// The mathematical value of a `BuildError`.
pub enum BuildErrorView {
    Failed(Seq<char>),
    NoTarget,
    Protocol,
}

impl View for BuildError {
    type V = BuildErrorView;

    open spec fn view(&self) -> BuildErrorView {
        match self {
            BuildError::Failed(text) => BuildErrorView::Failed(text@),
            BuildError::NoTarget => BuildErrorView::NoTarget,
            BuildError::Protocol => BuildErrorView::Protocol,
        }
    }
}

/// The mathematical value of the result of a build.
pub open spec fn build_result_view(result: Result<Option<usize>, BuildError>) -> Result<
    Option<usize>,
    BuildErrorView,
> {
    match result {
        Ok(count) => Ok(count),
        Err(error) => Err(error@),
    }
}

impl BuildErrorView {
    /// The text that presents the error to the user.
    pub open spec fn message(self) -> Seq<char> {
        match self {
            BuildErrorView::Failed(text) => text,
            BuildErrorView::NoTarget => "no path specified and no default"@,
            BuildErrorView::Protocol => "reply does not answer the pending request"@,
        }
    }
}

impl BuildError {
    /// The text that presents the error to the user.
    pub fn message(&self) -> (text: String)
        ensures
            text@ == self@.message(),
    {
        match self {
            BuildError::Failed(text) => text.clone(),
            BuildError::NoTarget => String::from_str("no path specified and no default"),
            BuildError::Protocol => String::from_str("reply does not answer the pending request"),
        }
    }
}

/// One thing for the driver of a build to do.
#[derive(Debug, PartialEq, Eq)]
pub enum Request {
    /// Load the graph, the recorded hashes and the pools from the manifest,
    /// dropping whatever was loaded before, and set up a scheduler over them.
    Load,
    /// Ask the scheduler to bring this file up to date.
    WantFileId(FileId),
    /// Ask the scheduler to bring the file of this name up to date.
    WantFile(String),
    /// Run the scheduler over what was asked for.
    Run,
    /// The build has ended with this result. Nothing follows.
    Done(Result<Option<usize>, BuildError>),
}

/// The mathematical value of a `Request`.
pub enum RequestView {
    Load,
    WantFileId(FileId),
    WantFile(Seq<char>),
    Run,
    Done(Result<Option<usize>, BuildErrorView>),
}

impl View for Request {
    type V = RequestView;

    open spec fn view(&self) -> RequestView {
        match self {
            Request::Load => RequestView::Load,
            Request::WantFileId(id) => RequestView::WantFileId(*id),
            Request::WantFile(name) => RequestView::WantFile(name@),
            Request::Run => RequestView::Run,
            Request::Done(result) => RequestView::Done(build_result_view(*result)),
        }
    }
}

/// How a request went, as the driver reports it.
#[derive(Debug, Clone, PartialEq, Eq)]
pub enum Reply {
    /// The manifest was loaded. `manifest_target` is the manifest itself
    /// where the graph knows it as the output of a build; `default` are the
    /// targets that the manifest declares as default. Answers `Load`.
    Loaded { manifest_target: Option<FileId>, default: Vec<FileId> },
    /// The scheduler knows the target. Answers `WantFileId` and `WantFile`.
    Wanted,
    /// The scheduler ran this many tasks, or none where a task failed and
    /// was reported already. Answers `Run`.
    Ran(Option<usize>),
    /// The request failed, with what there is to say about it.
    Failed(String),
}

/// The mathematical value of a `Reply`.
pub enum ReplyView {
    Loaded { manifest_target: Option<FileId>, default: Seq<FileId> },
    Wanted,
    Ran(Option<usize>),
    Failed(Seq<char>),
}

impl View for Reply {
    type V = ReplyView;

    open spec fn view(&self) -> ReplyView {
        match self {
            Reply::Loaded { manifest_target, default } => ReplyView::Loaded {
                manifest_target: *manifest_target,
                default: default@,
            },
            Reply::Wanted => ReplyView::Wanted,
            Reply::Ran(count) => ReplyView::Ran(*count),
            Reply::Failed(text) => ReplyView::Failed(text@),
        }
    }
}

/// Where a build stands: which reply it waits for.
#[derive(Debug, Copy, Clone, PartialEq, Eq, Structural)]
pub enum Phase {
    /// The manifest is being loaded for the first time.
    Loading,
    /// The manifest was named to the scheduler as a target.
    WantingManifest,
    /// The scheduler is bringing the manifest up to date.
    RunningManifest,
    /// The manifest was regenerated and is being loaded again.
    Reloading,
    /// A target given by name was named to the scheduler.
    WantingNamed,
    /// A default target was named to the scheduler.
    WantingDefault,
    /// The scheduler is building the targets.
    Running,
    /// The result was handed out.
    Finished,
}

/// The build of some targets from one manifest, as far as it has come.
pub struct Orchestrator {
    options: Options,
    build_filename: String,
    targets: Vec<String>,
    /// The default targets of the state that is loaded.
    default: Vec<FileId>,
    phase: Phase,
    /// The position, among the targets being named, of the one named last.
    next: usize,
}

/// The mathematical value of an `Orchestrator`.
pub struct OrchestratorView {
    pub options: Options,
    pub build_filename: Seq<char>,
    /// The targets given by name.
    pub targets: Seq<Seq<char>>,
    /// The default targets of the state that is loaded.
    pub default: Seq<FileId>,
    pub phase: Phase,
    /// The position, among the targets being named, of the one named last.
    pub next: nat,
}

impl View for Orchestrator {
    type V = OrchestratorView;

    closed spec fn view(&self) -> OrchestratorView {
        OrchestratorView {
            options: self.options,
            build_filename: self.build_filename@,
            targets: self.targets.deep_view(),
            default: self.default@,
            phase: self.phase,
            next: self.next as nat,
        }
    }
}

/// The build before anything was loaded.
pub open spec fn initial(
    options: Options,
    build_filename: Seq<char>,
    targets: Seq<Seq<char>>,
) -> OrchestratorView {
    OrchestratorView {
        options,
        build_filename,
        targets,
        default: Seq::empty(),
        phase: Phase::Loading,
        next: 0,
    }
}

/// Ends the build with `result`.
pub open spec fn finish(o: OrchestratorView, result: Result<Option<usize>, BuildErrorView>) -> (
    OrchestratorView,
    RequestView,
) {
    (OrchestratorView { phase: Phase::Finished, next: 0, ..o }, RequestView::Done(result))
}

/// Turns to the targets, with the state that is loaded: the targets given by
/// name if there are any, else the default targets of the manifest; with
/// neither, the build ends with `NoTarget`.
pub open spec fn select(o: OrchestratorView) -> (OrchestratorView, RequestView) {
    if o.targets.len() > 0 {
        (
            OrchestratorView { phase: Phase::WantingNamed, next: 0, ..o },
            RequestView::WantFile(o.targets[0]),
        )
    } else if o.default.len() > 0 {
        (
            OrchestratorView { phase: Phase::WantingDefault, next: 0, ..o },
            RequestView::WantFileId(o.default[0]),
        )
    } else {
        finish(o, Err(BuildErrorView::NoTarget))
    }
}

/// The build after `reply`, and its next request.
///
/// A failed request ends the build with what it reported. After the first
/// load, a manifest that is itself a build output is brought up to date
/// first: where that fails the build ends without a task count; where no
/// task ran the loaded state is kept; where tasks ran the manifest is loaded
/// once more, and never a third time. Then the targets are named one by one
/// and built, and the scheduler's result is the result of the build. A reply
/// that does not answer the pending request ends the build with `Protocol`,
/// and so does every reply after `Done`.
pub open spec fn next_of(o: OrchestratorView, reply: ReplyView) -> (OrchestratorView, RequestView) {
    match (o.phase, reply) {
        (Phase::Finished, _) => finish(o, Err(BuildErrorView::Protocol)),
        (_, ReplyView::Failed(text)) => finish(o, Err(BuildErrorView::Failed(text))),
        (Phase::Loading, ReplyView::Loaded { manifest_target: Some(target), default }) => (
            OrchestratorView { phase: Phase::WantingManifest, default, ..o },
            RequestView::WantFileId(target),
        ),
        (Phase::Loading, ReplyView::Loaded { manifest_target: None, default }) => select(
            OrchestratorView { default, ..o },
        ),
        (Phase::WantingManifest, ReplyView::Wanted) => (
            OrchestratorView { phase: Phase::RunningManifest, ..o },
            RequestView::Run,
        ),
        (Phase::RunningManifest, ReplyView::Ran(None)) => finish(o, Ok(None)),
        (Phase::RunningManifest, ReplyView::Ran(Some(count))) => {
            if count == 0 {
                select(o)
            } else {
                (OrchestratorView { phase: Phase::Reloading, ..o }, RequestView::Load)
            }
        },
        (Phase::Reloading, ReplyView::Loaded { manifest_target: _, default }) => select(
            OrchestratorView { default, ..o },
        ),
        (Phase::WantingNamed, ReplyView::Wanted) => {
            if o.next + 1 < o.targets.len() {
                (
                    OrchestratorView { next: o.next + 1, ..o },
                    RequestView::WantFile(o.targets[o.next as int + 1]),
                )
            } else {
                (OrchestratorView { phase: Phase::Running, next: 0, ..o }, RequestView::Run)
            }
        },
        (Phase::WantingDefault, ReplyView::Wanted) => {
            if o.next + 1 < o.default.len() {
                (
                    OrchestratorView { next: o.next + 1, ..o },
                    RequestView::WantFileId(o.default[o.next as int + 1]),
                )
            } else {
                (OrchestratorView { phase: Phase::Running, next: 0, ..o }, RequestView::Run)
            }
        },
        (Phase::Running, ReplyView::Ran(count)) => finish(o, Ok(count)),
        _ => finish(o, Err(BuildErrorView::Protocol)),
    }
}

impl Orchestrator {
    /// The options that the scheduler is to be set up with.
    pub fn options(&self) -> (options: Options)
        ensures
            options == self@.options,
    {
        self.options
    }

    /// The manifest that `Load` is to read.
    pub fn build_filename(&self) -> (name: &str)
        ensures
            name@ == self@.build_filename,
    {
        self.build_filename.as_str()
    }

    /// Where the build stands.
    pub fn phase(&self) -> (phase: Phase)
        ensures
            phase == self@.phase,
    {
        self.phase
    }

    /// Ends the build with `result`.
    fn finish(&mut self, result: Result<Option<usize>, BuildError>) -> (request: Request)
        ensures
            (final(self)@, request@) == finish(old(self)@, build_result_view(result)),
    {
        self.phase = Phase::Finished;
        self.next = 0;
        Request::Done(result)
    }

    /// Turns to the targets, with the state that is loaded.
    fn select(&mut self) -> (request: Request)
        ensures
            (final(self)@, request@) == select(old(self)@),
    {
        if self.targets.len() > 0 {
            self.phase = Phase::WantingNamed;
            self.next = 0;
            Request::WantFile(self.targets[0].clone())
        } else if self.default.len() > 0 {
            self.phase = Phase::WantingDefault;
            self.next = 0;
            Request::WantFileId(self.default[0])
        } else {
            self.finish(Err(BuildError::NoTarget))
        }
    }

    /// Tells the build how the pending request went, and gets the next
    /// request.
    pub fn step(&mut self, reply: Reply) -> (request: Request)
        ensures
            (final(self)@, request@) == next_of(old(self)@, reply@),
    {
        match (self.phase, reply) {
            (Phase::Finished, _) => self.finish(Err(BuildError::Protocol)),
            (_, Reply::Failed(text)) => self.finish(Err(BuildError::Failed(text))),
            (Phase::Loading, Reply::Loaded { manifest_target: Some(target), default }) => {
                self.default = default;
                self.phase = Phase::WantingManifest;
                Request::WantFileId(target)
            },
            (Phase::Loading, Reply::Loaded { manifest_target: None, default }) => {
                self.default = default;
                self.select()
            },
            (Phase::WantingManifest, Reply::Wanted) => {
                self.phase = Phase::RunningManifest;
                Request::Run
            },
            (Phase::RunningManifest, Reply::Ran(None)) => self.finish(Ok(None)),
            (Phase::RunningManifest, Reply::Ran(Some(count))) => {
                if count == 0 {
                    self.select()
                } else {
                    self.phase = Phase::Reloading;
                    Request::Load
                }
            },
            (Phase::Reloading, Reply::Loaded { manifest_target: _, default }) => {
                self.default = default;
                self.select()
            },
            (Phase::WantingNamed, Reply::Wanted) => {
                let count = self.targets.len();
                if self.next < usize::MAX && self.next + 1 < count {
                    self.next = self.next + 1;
                    Request::WantFile(self.targets[self.next].clone())
                } else {
                    self.phase = Phase::Running;
                    self.next = 0;
                    Request::Run
                }
            },
            (Phase::WantingDefault, Reply::Wanted) => {
                let count = self.default.len();
                if self.next < usize::MAX && self.next + 1 < count {
                    self.next = self.next + 1;
                    Request::WantFileId(self.default[self.next])
                } else {
                    self.phase = Phase::Running;
                    self.next = 0;
                    Request::Run
                }
            },
            (Phase::Running, Reply::Ran(count)) => self.finish(Ok(count)),
            _ => self.finish(Err(BuildError::Protocol)),
        }
    }
}

/// Starts the build of `targets` from the manifest `build_filename`. The
/// first request is always `Load`; the driver does each request and hands
/// the reply to `Orchestrator::step`, until the request is `Done`.
pub fn build(options: Options, build_filename: String, targets: Vec<String>) -> (started: (
    Orchestrator,
    Request,
))
    ensures
        started.0@ == initial(options, build_filename@, targets.deep_view()),
        started.1@ == RequestView::Load,
{
    let orchestrator = Orchestrator {
        options,
        build_filename,
        targets,
        default: Vec::new(),
        phase: Phase::Loading,
        next: 0,
    };
    (orchestrator, Request::Load)
}

/// The requests made in answer to `replies`, one for each, from the build
/// `o` on.
pub open spec fn requests(o: OrchestratorView, replies: Seq<ReplyView>) -> Seq<RequestView>
    decreases replies.len(),
{
    if replies.len() == 0 {
        Seq::empty()
    } else {
        seq![next_of(o, replies[0]).1] + requests(next_of(o, replies[0]).0, replies.drop_first())
    }
}

/// The build `o` after `replies` were given to it one by one.
pub open spec fn after(o: OrchestratorView, replies: Seq<ReplyView>) -> OrchestratorView
    decreases replies.len(),
{
    if replies.len() == 0 {
        o
    } else {
        after(next_of(o, replies[0]).0, replies.drop_first())
    }
}

/// How many of `requests` ask to load the manifest.
pub open spec fn count_loads(requests: Seq<RequestView>) -> nat
    decreases requests.len(),
{
    if requests.len() == 0 {
        0
    } else {
        count_loads(requests.drop_first()) + if requests[0] is Load {
            1nat
        } else {
            0nat
        }
    }
}

/// How often a build in `phase` can still ask to load the manifest.
pub open spec fn loads_left(phase: Phase) -> nat {
    match phase {
        Phase::Loading | Phase::WantingManifest | Phase::RunningManifest => 1,
        _ => 0,
    }
}

/// Whatever the replies, a build asks to load the manifest again at most as
/// often as its phase leaves room for: once before the manifest was brought
/// up to date, never after.
pub proof fn lemma_loads_are_bounded(o: OrchestratorView, replies: Seq<ReplyView>)
    ensures
        count_loads(requests(o, replies)) <= loads_left(o.phase),
    decreases replies.len(),
{
    if replies.len() > 0 {
        let next = next_of(o, replies[0]).0;
        let rest = requests(next, replies.drop_first());
        lemma_loads_are_bounded(next, replies.drop_first());
        assert(requests(o, replies).drop_first() =~= rest);
    }
}

/// A build loads its manifest at most twice: the load that it starts with,
/// and at most one more, whatever the replies.
pub proof fn lemma_at_most_two_loads(
    options: Options,
    build_filename: Seq<char>,
    targets: Seq<Seq<char>>,
    replies: Seq<ReplyView>,
)
    ensures
        1 + count_loads(requests(initial(options, build_filename, targets), replies)) <= 2,
{
    lemma_loads_are_bounded(initial(options, build_filename, targets), replies);
}

/// Where the manifest is itself a build output and bringing it up to date
/// ran at least one task, the manifest is loaded again, once: the targets
/// are then chosen with the default targets of the second load, and no
/// reply after that makes the build load a third time.
pub proof fn lemma_regenerated_manifest_is_loaded_again(
    options: Options,
    build_filename: Seq<char>,
    targets: Seq<Seq<char>>,
    manifest: FileId,
    stale_default: Seq<FileId>,
    ran: usize,
    reloaded_target: Option<FileId>,
    fresh_default: Seq<FileId>,
    later: Seq<ReplyView>,
)
    requires
        ran > 0,
    ensures
        ({
            let start = initial(options, build_filename, targets);
            let replies = seq![
                ReplyView::Loaded { manifest_target: Some(manifest), default: stale_default },
                ReplyView::Wanted,
                ReplyView::Ran(Some(ran)),
                ReplyView::Loaded { manifest_target: reloaded_target, default: fresh_default },
            ];
            let fresh = OrchestratorView { default: fresh_default, ..start };
            &&& requests(start, replies) == seq![
                RequestView::WantFileId(manifest),
                RequestView::Run,
                RequestView::Load,
                select(fresh).1,
            ]
            &&& after(start, replies) == select(fresh).0
            &&& count_loads(requests(start, replies)) == 1
            &&& count_loads(requests(after(start, replies), later)) == 0
        }),
{
    let start = initial(options, build_filename, targets);
    let r0 = ReplyView::Loaded { manifest_target: Some(manifest), default: stale_default };
    let r1 = ReplyView::Wanted;
    let r2 = ReplyView::Ran(Some(ran));
    let r3 = ReplyView::Loaded { manifest_target: reloaded_target, default: fresh_default };
    lemma_run_of_four(start, r0, r1, r2, r3);
    reveal_with_fuel(count_loads, 5);
    let made = requests(start, seq![r0, r1, r2, r3]);
    assert(made.drop_first().drop_first().drop_first().drop_first() =~= Seq::empty());
    lemma_loads_are_bounded(after(start, seq![r0, r1, r2, r3]), later);
}

/// The requests and the state that four replies lead to, step by step.
proof fn lemma_run_of_four(
    o: OrchestratorView,
    r0: ReplyView,
    r1: ReplyView,
    r2: ReplyView,
    r3: ReplyView,
)
    ensures
        ({
            let s1 = next_of(o, r0);
            let s2 = next_of(s1.0, r1);
            let s3 = next_of(s2.0, r2);
            let s4 = next_of(s3.0, r3);
            &&& requests(o, seq![r0, r1, r2, r3]) == seq![s1.1, s2.1, s3.1, s4.1]
            &&& after(o, seq![r0, r1, r2, r3]) == s4.0
        }),
{
    let s1 = next_of(o, r0);
    lemma_run_of_three(s1.0, r1, r2, r3);
    assert(seq![r0, r1, r2, r3].drop_first() =~= seq![r1, r2, r3]);
    assert(requests(o, seq![r0, r1, r2, r3]) =~= seq![s1.1] + requests(s1.0, seq![r1, r2, r3]));
}

/// The requests and the state that three replies lead to, step by step.
proof fn lemma_run_of_three(o: OrchestratorView, r0: ReplyView, r1: ReplyView, r2: ReplyView)
    ensures
        ({
            let s1 = next_of(o, r0);
            let s2 = next_of(s1.0, r1);
            let s3 = next_of(s2.0, r2);
            &&& requests(o, seq![r0, r1, r2]) == seq![s1.1, s2.1, s3.1]
            &&& after(o, seq![r0, r1, r2]) == s3.0
        }),
{
    reveal_with_fuel(requests, 4);
    reveal_with_fuel(after, 4);
    let s1 = next_of(o, r0);
    let s2 = next_of(s1.0, r1);
    let s3 = next_of(s2.0, r2);
    assert(seq![r0, r1, r2].drop_first() =~= seq![r1, r2]);
    assert(seq![r1, r2].drop_first() =~= seq![r2]);
    assert(seq![r2].drop_first() =~= Seq::<ReplyView>::empty());
    assert(requests(o, seq![r0, r1, r2]) =~= seq![s1.1, s2.1, s3.1]);
}

/// Where the manifest is itself a build output and bringing it up to date
/// ran no task, the build goes on to its targets with the state that was
/// loaded first, and no reply makes it load again.
pub proof fn lemma_current_manifest_is_kept(
    options: Options,
    build_filename: Seq<char>,
    targets: Seq<Seq<char>>,
    manifest: FileId,
    default: Seq<FileId>,
    later: Seq<ReplyView>,
)
    ensures
        ({
            let start = initial(options, build_filename, targets);
            let replies = seq![
                ReplyView::Loaded { manifest_target: Some(manifest), default },
                ReplyView::Wanted,
                ReplyView::Ran(Some(0)),
            ];
            let loaded = OrchestratorView { default, ..start };
            &&& requests(start, replies) == seq![
                RequestView::WantFileId(manifest),
                RequestView::Run,
                select(loaded).1,
            ]
            &&& after(start, replies) == select(loaded).0
            &&& count_loads(requests(start, replies)) == 0
            &&& count_loads(requests(after(start, replies), later)) == 0
        }),
{
    let start = initial(options, build_filename, targets);
    let r0 = ReplyView::Loaded { manifest_target: Some(manifest), default };
    let r1 = ReplyView::Wanted;
    let r2 = ReplyView::Ran(Some(0));
    lemma_run_of_three(start, r0, r1, r2);
    reveal_with_fuel(count_loads, 4);
    let made = requests(start, seq![r0, r1, r2]);
    assert(made.drop_first().drop_first().drop_first() =~= Seq::empty());
    lemma_loads_are_bounded(after(start, seq![r0, r1, r2]), later);
}

/// True when `reply` reports no default target.
pub open spec fn without_default(reply: ReplyView) -> bool {
    reply matches ReplyView::Loaded { default, .. } ==> default.len() == 0
}

/// Where no target is given by name and the manifest declares no default,
/// a build never reports a task count, not even zero: whatever the replies,
/// none of its requests is `Done` with a count.
pub proof fn lemma_no_target_is_an_error(
    options: Options,
    build_filename: Seq<char>,
    replies: Seq<ReplyView>,
    i: int,
)
    requires
        forall|k: int| 0 <= k < replies.len() ==> without_default(#[trigger] replies[k]),
        0 <= i < replies.len(),
    ensures
        ({
            let made = requests(initial(options, build_filename, Seq::empty()), replies);
            &&& made.len() == replies.len()
            &&& !(made[i] matches RequestView::Done(Ok(Some(_))))
        }),
{
    lemma_without_targets(initial(options, build_filename, Seq::empty()), replies, i);
}

/// Where no target is given by name and the state that is loaded declares no
/// default, turning to the targets ends the build with `NoTarget`: it never
/// does nothing in silence.
pub proof fn lemma_nothing_to_build_is_no_target(o: OrchestratorView)
    requires
        o.targets.len() == 0,
        o.default.len() == 0,
    ensures
        select(o).1 == RequestView::Done(Err(BuildErrorView::NoTarget)),
        select(o).0.phase is Finished,
{
}

/// A build that has neither targets nor default targets, and has not begun
/// to name targets, never reports a task count.
proof fn lemma_without_targets(o: OrchestratorView, replies: Seq<ReplyView>, i: int)
    requires
        o.targets.len() == 0,
        o.default.len() == 0,
        !(o.phase is WantingNamed || o.phase is WantingDefault || o.phase is Running),
        forall|k: int| 0 <= k < replies.len() ==> without_default(#[trigger] replies[k]),
        0 <= i < replies.len(),
    ensures
        requests(o, replies).len() == replies.len(),
        !(requests(o, replies)[i] matches RequestView::Done(Ok(Some(_)))),
    decreases replies.len(),
{
    let next = next_of(o, replies[0]).0;
    let rest = replies.drop_first();
    assert(without_default(replies[0]));
    lemma_requests_len(next, rest);
    if i > 0 {
        assert forall|k: int| 0 <= k < rest.len() implies without_default(#[trigger] rest[k]) by {
            assert(rest[k] == replies[k + 1]);
        }
        lemma_without_targets(next, rest, i - 1);
    }
}

/// Each reply is answered with one request.
pub proof fn lemma_requests_len(o: OrchestratorView, replies: Seq<ReplyView>)
    ensures
        requests(o, replies).len() == replies.len(),
    decreases replies.len(),
{
    if replies.len() > 0 {
        lemma_requests_len(next_of(o, replies[0]).0, replies.drop_first());
    }
}

/// The requests that name the targets from position `from` on, one after
/// the other, and then ask the scheduler to run: what a build asks for while
/// each of its targets is known to the scheduler.
pub open spec fn naming(o: OrchestratorView, from: int) -> Seq<RequestView> {
    let count = if o.phase is WantingNamed {
        o.targets.len()
    } else {
        o.default.len()
    };
    Seq::new(
        (count - from + 1) as nat,
        |k: int|
            if from + k >= count {
                RequestView::Run
            } else if o.phase is WantingNamed {
                RequestView::WantFile(o.targets[from + k])
            } else {
                RequestView::WantFileId(o.default[from + k])
            },
    )
}

/// Every target is named to the scheduler, in the order given, before the
/// scheduler runs: a build that has named one of its targets, and is told of
/// each that the scheduler knows it, names all that follow, one by one and
/// in order, and then asks the scheduler to run. This holds of the targets
/// given by name and of the default targets alike.
pub proof fn lemma_targets_are_named_in_order(o: OrchestratorView, replies: Seq<ReplyView>)
    requires
        o.phase is WantingNamed || o.phase is WantingDefault,
        o.phase is WantingNamed ==> o.next < o.targets.len(),
        o.phase is WantingDefault ==> o.next < o.default.len(),
        replies.len() == (if o.phase is WantingNamed {
            o.targets.len()
        } else {
            o.default.len()
        }) - o.next,
        forall|k: int| 0 <= k < replies.len() ==> #[trigger] replies[k] is Wanted,
    ensures
        requests(o, replies) == naming(o, o.next as int + 1),
        after(o, replies).phase is Running,
    decreases replies.len(),
{
    let count = if o.phase is WantingNamed {
        o.targets.len()
    } else {
        o.default.len()
    };
    let next = next_of(o, replies[0]).0;
    let rest = replies.drop_first();
    assert(replies[0] is Wanted);
    if o.next + 1 < count {
        assert forall|k: int| 0 <= k < rest.len() implies #[trigger] rest[k] is Wanted by {
            assert(rest[k] == replies[k + 1]);
        }
        lemma_targets_are_named_in_order(next, rest);
        assert(requests(o, replies) =~= naming(o, o.next as int + 1));
    } else {
        assert(rest.len() == 0);
        assert(requests(next, rest) =~= Seq::empty());
        assert(after(next, rest) == next);
        assert(requests(o, replies) =~= naming(o, o.next as int + 1));
    }
}

} // verus!
