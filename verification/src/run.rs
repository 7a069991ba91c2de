//! The command-line session around a build.
//!
//! Printing, tracing, changing directory and the build itself are done by a
//! driver outside this library. What this module holds are the decisions: a
//! session names the next task for the driver, and is told how it went.

use crate::orchestrator::{build_result_view, BuildError, BuildErrorView, Options};
use crate::text::{decimal, push_decimal};
use vstd::prelude::*;
use vstd::string::*;

verus! {

/// What formatting a string with `{:?}` yields: the string in double quotes,
/// with the characters that need it escaped.
pub uninterp spec fn debug_text(text: Seq<char>) -> Seq<char>;

/// Formats `text` with `{:?}`, through `format!` and the `Debug` impl of `str`.
/// Trusted: the result is the value that `debug_text` names, a function of
/// the characters alone.
#[verifier::external_body]
fn quoted(text: &str) -> (out: String)
    ensures
        out@ == debug_text(text@),
{
    format!("{:?}", text)
}

/// Why a session ends without an exit code.
#[derive(Debug, Clone, PartialEq, Eq)]
pub enum RunError {
    /// `-d` named no known debugging tool.
    UnknownDebug(String),
    /// `-t` named no known subcommand.
    UnknownTool(String),
    /// Changing to the directory given with `-C` failed.
    Chdir { dir: String, cause: String },
    /// A task failed; the text is what the driver reported.
    Failed(String),
    /// The build failed with an error.
    Build(BuildError),
    /// The driver's outcome does not answer the pending task.
    Protocol,
}

/// The mathematical value of a `RunError`.
pub enum RunErrorView {
    UnknownDebug(Seq<char>),
    UnknownTool(Seq<char>),
    Chdir { dir: Seq<char>, cause: Seq<char> },
    Failed(Seq<char>),
    Build(BuildErrorView),
    Protocol,
}

impl View for RunError {
    type V = RunErrorView;

    open spec fn view(&self) -> RunErrorView {
        match self {
            RunError::UnknownDebug(name) => RunErrorView::UnknownDebug(name@),
            RunError::UnknownTool(name) => RunErrorView::UnknownTool(name@),
            RunError::Chdir { dir, cause } => RunErrorView::Chdir { dir: dir@, cause: cause@ },
            RunError::Failed(text) => RunErrorView::Failed(text@),
            RunError::Build(error) => RunErrorView::Build(error@),
            RunError::Protocol => RunErrorView::Protocol,
        }
    }
}

impl RunErrorView {
    /// The text that presents the error to the user.
    pub open spec fn message(self) -> Seq<char> {
        match self {
            RunErrorView::UnknownDebug(name) => "unknown -d "@ + debug_text(name)
                + ", use -d list to list"@,
            RunErrorView::UnknownTool(name) => "unknown -t "@ + debug_text(name)
                + ", use -t list to list"@,
            RunErrorView::Chdir { dir, cause } => "chdir "@ + debug_text(dir) + ": "@ + cause,
            RunErrorView::Failed(text) => text,
            RunErrorView::Build(error) => error.message(),
            RunErrorView::Protocol => "outcome does not answer the pending task"@,
        }
    }
}

impl RunError {
    /// The text that presents the error to the user.
    pub fn message(&self) -> (text: String)
        ensures
            text@ == self@.message(),
    {
        match self {
            RunError::UnknownDebug(name) => {
                let mut text = String::from_str("unknown -d ");
                text.append(quoted(name.as_str()).as_str());
                text.append(", use -d list to list");
                text
            },
            RunError::UnknownTool(name) => {
                let mut text = String::from_str("unknown -t ");
                text.append(quoted(name.as_str()).as_str());
                text.append(", use -t list to list");
                text
            },
            RunError::Chdir { dir, cause } => {
                let mut text = String::from_str("chdir ");
                text.append(quoted(dir.as_str()).as_str());
                text.append(": ");
                text.append(cause.as_str());
                text
            },
            RunError::Failed(text) => text.clone(),
            RunError::Build(error) => error.message(),
            RunError::Protocol => String::from_str("outcome does not answer the pending task"),
        }
    }
}

/// The mathematical value of the result of a session.
pub open spec fn exit_view(result: Result<i32, RunError>) -> Result<i32, RunErrorView> {
    match result {
        Ok(code) => Ok(code),
        Err(error) => Err(error@),
    }
}

/// The command line, as parsed.
#[derive(Debug, Clone, PartialEq, Eq)]
pub struct Args {
    /// Directory to change to before running (`-C`).
    pub chdir: Option<String>,
    /// The manifest to build from (`-f`).
    pub build_file: String,
    /// Debugging tool (`-d`).
    pub debug: Option<String>,
    /// Subcommand (`-t`).
    pub tool: Option<String>,
    /// Number of commands to run at the same time (`-j`); the number of
    /// processors where absent.
    pub parallelism: Option<usize>,
    /// Keep going until this many commands failed; 0 means for ever (`-k`).
    pub keep_going: usize,
    /// Print the version and do nothing else.
    pub version: bool,
    /// Print the command lines that are run (`-v`).
    pub verbose: bool,
    /// Targets to build.
    pub targets: Vec<String>,
}

/// One thing for the driver of a session to do.
#[derive(Debug, PartialEq, Eq)]
pub enum Task {
    /// Find out how many commands the machine can run at the same time.
    DetectParallelism,
    /// Print a line on standard output.
    Print(String),
    /// Start recording a performance trace in the named file.
    OpenTrace(String),
    /// Change the working directory.
    Chdir(String),
    /// Build the targets from the manifest.
    Build { options: Options, build_file: String, targets: Vec<String>, verbose: bool },
    /// Finish the performance trace, if one is being recorded.
    CloseTrace,
    /// Leave with this result. Nothing follows.
    Exit(Result<i32, RunError>),
}

/// The mathematical value of a `Task`.
pub enum TaskView {
    DetectParallelism,
    Print(Seq<char>),
    OpenTrace(Seq<char>),
    Chdir(Seq<char>),
    Build { options: Options, build_file: Seq<char>, targets: Seq<Seq<char>>, verbose: bool },
    CloseTrace,
    Exit(Result<i32, RunErrorView>),
}

impl View for Task {
    type V = TaskView;

    open spec fn view(&self) -> TaskView {
        match self {
            Task::DetectParallelism => TaskView::DetectParallelism,
            Task::Print(line) => TaskView::Print(line@),
            Task::OpenTrace(path) => TaskView::OpenTrace(path@),
            Task::Chdir(dir) => TaskView::Chdir(dir@),
            Task::Build { options, build_file, targets, verbose } => TaskView::Build {
                options: *options,
                build_file: build_file@,
                targets: targets.deep_view(),
                verbose: *verbose,
            },
            Task::CloseTrace => TaskView::CloseTrace,
            Task::Exit(result) => TaskView::Exit(exit_view(*result)),
        }
    }
}

/// How a session ends once its planned tasks are done.
#[derive(Debug, Clone, PartialEq, Eq)]
pub enum Ending {
    /// Leave with this exit code.
    Exit(i32),
    /// Leave with this error.
    Fail(RunError),
    /// The last planned task is a build: report on its result.
    Summarize,
}

/// The mathematical value of an `Ending`.
pub enum EndingView {
    Exit(i32),
    Fail(RunErrorView),
    Summarize,
}

impl View for Ending {
    type V = EndingView;

    open spec fn view(&self) -> EndingView {
        match self {
            Ending::Exit(code) => EndingView::Exit(*code),
            Ending::Fail(error) => EndingView::Fail(error@),
            Ending::Summarize => EndingView::Summarize,
        }
    }
}

/// What a command line asks for: tasks to do in order, and how to end.
#[derive(Debug, PartialEq, Eq)]
pub struct Plan {
    pub steps: Vec<Task>,
    pub ending: Ending,
}

/// The mathematical value of a `Plan`.
pub struct PlanView {
    pub steps: Seq<TaskView>,
    pub ending: EndingView,
}

impl View for Plan {
    type V = PlanView;

    open spec fn view(&self) -> PlanView {
        PlanView { steps: self.steps.deep_view(), ending: self.ending@ }
    }
}

impl DeepView for Task {
    type V = TaskView;

    open spec fn deep_view(&self) -> TaskView {
        self@
    }
}

/// The lines that `-d list` prints.
pub open spec fn debug_tools_help() -> Seq<TaskView> {
    seq![
        TaskView::Print("debug tools:"@),
        TaskView::Print("  explain  print why each target is considered out of date"@),
        TaskView::Print("  trace    generate json performance trace"@),
    ]
}

/// The lines that `-t list` prints.
pub open spec fn subcommands_help() -> Seq<TaskView> {
    seq![
        TaskView::Print("subcommands:"@),
        TaskView::Print(
            "  (none yet, but see README if you're looking here trying to get CMake to work)"@,
        ),
    ]
}

/// True when a program called by `program` runs in place of ninja: its name
/// is `ninja`, followed by what the platform appends to the names of
/// executable files.
pub fn runs_as_ninja(program: &str, exe_suffix: &str) -> (fake_ninja_compat: bool)
    ensures
        fake_ninja_compat == (program@ == "ninja"@ + exe_suffix@),
{
    let mut ninja = String::from_str("ninja");
    ninja.append(exe_suffix);
    String::from_str(program) == ninja
}

/// The text of an option, where it was given.
pub open spec fn text_of(option: Option<String>) -> Option<Seq<char>> {
    match option {
        Some(text) => Some(text@),
        None => None,
    }
}

/// The plan that a command line asks for.
///
/// `parallelism` is the number given with `-j`, or else the number that the
/// machine reported. `fake_ninja_compat` is set where the program runs under
/// the name of ninja, `version` is the version of this program.
///
/// In order: `--version` prints a version and succeeds. `-d list` prints the
/// debugging tools and leaves with code 1; `-d explain` makes the build say
/// why targets are out of date; `-d trace` opens a trace before anything
/// else is done; any other `-d` is an error. `-t list` prints the
/// subcommands and leaves with code 1; any other `-t` is an error, unless
/// the program runs as ninja, where it succeeds at once. Otherwise the
/// directory is changed where `-C` asks for it, and the targets are built.
pub open spec fn plan_of(
    args: Args,
    parallelism: usize,
    fake_ninja_compat: bool,
    version: Seq<char>,
) -> PlanView {
    if args.version {
        PlanView {
            steps: seq![
                TaskView::Print(
                    if fake_ninja_compat {
                        "1.10.2"@
                    } else {
                        version
                    },
                ),
            ],
            ending: EndingView::Exit(0),
        }
    } else if text_of(args.debug) == Some("list"@) {
        PlanView { steps: debug_tools_help(), ending: EndingView::Exit(1) }
    } else if text_of(args.debug) matches Some(debug) && debug != "explain"@ && debug != "trace"@ {
        PlanView {
            steps: Seq::empty(),
            ending: EndingView::Fail(RunErrorView::UnknownDebug(text_of(args.debug)->0)),
        }
    } else {
        let tracing = if text_of(args.debug) == Some("trace"@) {
            seq![TaskView::OpenTrace("trace.json"@)]
        } else {
            Seq::empty()
        };
        match args.tool {
            Some(tool) => {
                if tool@ == "list"@ {
                    PlanView { steps: tracing + subcommands_help(), ending: EndingView::Exit(1) }
                } else if fake_ninja_compat {
                    PlanView { steps: tracing, ending: EndingView::Exit(0) }
                } else {
                    PlanView {
                        steps: tracing,
                        ending: EndingView::Fail(RunErrorView::UnknownTool(tool@)),
                    }
                }
            },
            None => {
                let moving = match args.chdir {
                    Some(dir) => seq![TaskView::Chdir(dir@)],
                    None => Seq::empty(),
                };
                let options = Options {
                    parallelism,
                    keep_going: args.keep_going,
                    explain: text_of(args.debug) == Some("explain"@),
                };
                PlanView {
                    steps: tracing + moving + seq![
                        TaskView::Build {
                            options,
                            build_file: args.build_file@,
                            targets: args.targets.deep_view(),
                            verbose: args.verbose,
                        },
                    ],
                    ending: EndingView::Summarize,
                }
            },
        }
    }
}

/// The three words that `-d` knows differ from each other.
proof fn lemma_words_differ()
    ensures
        "explain"@ != "list"@,
        "explain"@ != "trace"@,
        "list"@ != "trace"@,
{
    reveal_strlit("explain");
    reveal_strlit("list");
    reveal_strlit("trace");
    assert("explain"@.len() == 7);
    assert("list"@.len() == 4);
    assert("trace"@.len() == 5);
}

/// True when `text` reads exactly as `word`.
fn reads(text: &String, word: &str) -> (same: bool)
    ensures
        same == (text@ == word@),
{
    let other = String::from_str(word);
    *text == other
}

/// Decides what a command line asks for. Nothing is done yet: the plan lists
/// what the driver is to do.
pub fn run_impl(args: Args, parallelism: usize, fake_ninja_compat: bool, version: &str) -> (plan:
    Plan)
    ensures
        plan@ == plan_of(args, parallelism, fake_ninja_compat, version@),
{
    proof {
        lemma_words_differ();
    }
    let ghost wanted = plan_of(args, parallelism, fake_ninja_compat, version@);
    let Args { chdir, build_file, debug, tool, parallelism: _, keep_going, version: only_version, verbose, targets } =
        args;
    let mut options = Options { parallelism, keep_going, explain: false };
    let mut steps: Vec<Task> = Vec::new();

    if only_version {
        if fake_ninja_compat {
            steps.push(Task::Print(String::from_str("1.10.2")));
        } else {
            steps.push(Task::Print(String::from_str(version)));
        }
        assert(steps.deep_view() =~= wanted.steps);
        return Plan { steps, ending: Ending::Exit(0) };
    }
    if let Some(debug) = debug {
        if reads(&debug, "explain") {
            options.explain = true;
        } else if reads(&debug, "list") {
            steps.push(Task::Print(String::from_str("debug tools:")));
            steps.push(
                Task::Print(
                    String::from_str("  explain  print why each target is considered out of date"),
                ),
            );
            steps.push(Task::Print(String::from_str("  trace    generate json performance trace")));
            assert(steps.deep_view() =~= wanted.steps);
            return Plan { steps, ending: Ending::Exit(1) };
        } else if reads(&debug, "trace") {
            steps.push(Task::OpenTrace(String::from_str("trace.json")));
            assert(steps.deep_view() =~= seq![TaskView::OpenTrace("trace.json"@)]);
        } else {
            assert(steps.deep_view() =~= wanted.steps);
            return Plan { steps, ending: Ending::Fail(RunError::UnknownDebug(debug)) };
        }
    }
    let ghost tracing = steps.deep_view();
    assert(tracing =~= if text_of(args.debug) == Some("trace"@) {
        seq![TaskView::OpenTrace("trace.json"@)]
    } else {
        Seq::empty()
    });
    if let Some(tool) = tool {
        if reads(&tool, "list") {
            steps.push(Task::Print(String::from_str("subcommands:")));
            steps.push(
                Task::Print(
                    String::from_str(
                        "  (none yet, but see README if you're looking here trying to get CMake to work)",
                    ),
                ),
            );
            assert(steps.deep_view() =~= tracing + subcommands_help());
            return Plan { steps, ending: Ending::Exit(1) };
        } else if fake_ninja_compat {
            assert(steps.deep_view() =~= wanted.steps);
            return Plan { steps, ending: Ending::Exit(0) };
        } else {
            assert(steps.deep_view() =~= wanted.steps);
            return Plan { steps, ending: Ending::Fail(RunError::UnknownTool(tool)) };
        }
    }
    if let Some(dir) = chdir {
        steps.push(Task::Chdir(dir));
    }
    steps.push(Task::Build { options, build_file, targets, verbose });
    assert(steps.deep_view() =~= wanted.steps);
    Plan { steps, ending: Ending::Summarize }
}

/// The line that reports how many tasks a build ran.
pub open spec fn summary_line(count: usize) -> Seq<char> {
    if count == 0 {
        "n2: no work to do"@
    } else if count == 1 {
        "n2: ran 1 task, now up to date"@
    } else {
        "n2: ran "@ + decimal(count as nat) + " tasks, now up to date"@
    }
}

/// What follows a build: an error is passed on; a failed build leaves with
/// code 1 and prints nothing, since the failing task has said enough; a
/// build that succeeded prints how much it did and leaves with code 0.
pub open spec fn summary_of(result: Result<Option<usize>, BuildErrorView>) -> PlanView {
    match result {
        Err(error) => PlanView {
            steps: Seq::empty(),
            ending: EndingView::Fail(RunErrorView::Build(error)),
        },
        Ok(None) => PlanView { steps: Seq::empty(), ending: EndingView::Exit(1) },
        Ok(Some(count)) => PlanView {
            steps: seq![TaskView::Print(summary_line(count))],
            ending: EndingView::Exit(0),
        },
    }
}

/// Decides what follows a build that ended with `result`.
pub fn summary(result: Result<Option<usize>, BuildError>) -> (plan: Plan)
    ensures
        plan@ == summary_of(build_result_view(result)),
{
    let mut steps: Vec<Task> = Vec::new();
    match result {
        Err(error) => {
            assert(steps.deep_view() =~= Seq::empty());
            Plan { steps, ending: Ending::Fail(RunError::Build(error)) }
        },
        Ok(None) => {
            assert(steps.deep_view() =~= Seq::empty());
            Plan { steps, ending: Ending::Exit(1) }
        },
        Ok(Some(count)) => {
            let line = if count == 0 {
                String::from_str("n2: no work to do")
            } else if count == 1 {
                String::from_str("n2: ran 1 task, now up to date")
            } else {
                let mut line = String::from_str("n2: ran ");
                push_decimal(&mut line, count as u128);
                line.append(" tasks, now up to date");
                line
            };
            steps.push(Task::Print(line));
            assert(steps.deep_view() =~= seq![TaskView::Print(summary_line(count))]);
            Plan { steps, ending: Ending::Exit(0) }
        },
    }
}

/// How a task went, as the driver reports it.
#[derive(Debug, PartialEq, Eq)]
pub enum Outcome {
    /// The task was done. Answers `Print`, `OpenTrace`, `Chdir` and
    /// `CloseTrace`.
    Done,
    /// The number of commands that the machine can run at the same time.
    /// Answers `DetectParallelism`.
    Parallelism(usize),
    /// The result of the build. Answers `Build`.
    Built(Result<Option<usize>, BuildError>),
    /// The task failed, with what there is to say about it.
    Failed(String),
}

/// The mathematical value of an `Outcome`.
pub enum OutcomeView {
    Done,
    Parallelism(usize),
    Built(Result<Option<usize>, BuildErrorView>),
    Failed(Seq<char>),
}

impl View for Outcome {
    type V = OutcomeView;

    open spec fn view(&self) -> OutcomeView {
        match self {
            Outcome::Done => OutcomeView::Done,
            Outcome::Parallelism(count) => OutcomeView::Parallelism(*count),
            Outcome::Built(result) => OutcomeView::Built(build_result_view(*result)),
            Outcome::Failed(text) => OutcomeView::Failed(text@),
        }
    }
}

/// Where a session stands.
#[derive(Debug, Copy, Clone, PartialEq, Eq, Structural)]
pub enum Stage {
    /// Waiting to learn the machine's parallelism; nothing is planned yet.
    Detecting,
    /// Waiting for the outcome of a planned task.
    Stepping,
    /// Waiting for the trace to be closed; the result is settled.
    Closing,
    /// The result was handed out.
    Exited,
}

/// The kind of task whose outcome a session waits for.
enum Pending {
    /// A task that is done or fails.
    Plain,
    /// A change to this directory.
    Chdir(String),
    /// A build.
    Build,
}

/// The mathematical value of the kind of task that is pending.
pub enum PendingView {
    Plain,
    Chdir(Seq<char>),
    Build,
}

impl View for Pending {
    type V = PendingView;

    closed spec fn view(&self) -> PendingView {
        match self {
            Pending::Plain => PendingView::Plain,
            Pending::Chdir(dir) => PendingView::Chdir(dir@),
            Pending::Build => PendingView::Build,
        }
    }
}

/// One run of the program, from its command line to its exit code.
pub struct Session {
    stage: Stage,
    fake_ninja_compat: bool,
    version: String,
    /// The command line, kept while the parallelism is detected.
    args: Option<Args>,
    /// The planned tasks that were not handed out yet.
    steps: Vec<Task>,
    ending: Ending,
    pending: Pending,
    /// The result to leave with, once the session is closing.
    result: Result<i32, RunError>,
}

/// The mathematical value of a `Session`.
pub struct SessionView {
    pub stage: Stage,
    pub fake_ninja_compat: bool,
    pub version: Seq<char>,
    pub args: Option<Args>,
    pub steps: Seq<TaskView>,
    pub ending: EndingView,
    pub pending: PendingView,
    pub result: Result<i32, RunErrorView>,
}

impl View for Session {
    type V = SessionView;

    closed spec fn view(&self) -> SessionView {
        SessionView {
            stage: self.stage,
            fake_ninja_compat: self.fake_ninja_compat,
            version: self.version@,
            args: self.args,
            steps: self.steps.deep_view(),
            ending: self.ending@,
            pending: self.pending@,
            result: exit_view(self.result),
        }
    }
}

/// The kind of outcome that `task` is answered with.
pub open spec fn pending_of(task: TaskView) -> PendingView {
    match task {
        TaskView::Chdir(dir) => PendingView::Chdir(dir),
        TaskView::Build { .. } => PendingView::Build,
        _ => PendingView::Plain,
    }
}

/// The result that a session leaves with when its planned tasks are done.
pub open spec fn result_of(ending: EndingView) -> Result<i32, RunErrorView> {
    match ending {
        EndingView::Exit(code) => Ok(code),
        EndingView::Fail(error) => Err(error),
        EndingView::Summarize => Err(RunErrorView::Protocol),
    }
}

/// Settles the result of the session and asks for the trace to be closed.
pub open spec fn close(s: SessionView, result: Result<i32, RunErrorView>) -> (
    SessionView,
    TaskView,
) {
    (
        SessionView {
            stage: Stage::Closing,
            args: None,
            steps: Seq::empty(),
            ending: EndingView::Exit(0),
            pending: PendingView::Plain,
            result,
            ..s
        },
        TaskView::CloseTrace,
    )
}

/// Hands out the next planned task; closes the session when none is left.
pub open spec fn advance(s: SessionView) -> (SessionView, TaskView) {
    if s.steps.len() > 0 {
        (
            SessionView {
                stage: Stage::Stepping,
                steps: s.steps.drop_first(),
                pending: pending_of(s.steps[0]),
                ..s
            },
            s.steps[0],
        )
    } else {
        close(s, result_of(s.ending))
    }
}

/// Replaces what is planned.
pub open spec fn with_plan(s: SessionView, plan: PlanView) -> SessionView {
    SessionView { args: None, steps: plan.steps, ending: plan.ending, ..s }
}

/// The session that a command line starts, and its first task. Where `-j`
/// gives no number, the first task is to detect one.
pub open spec fn start_of(args: Args, fake_ninja_compat: bool, version: Seq<char>) -> (
    SessionView,
    TaskView,
) {
    let fresh = SessionView {
        stage: Stage::Detecting,
        fake_ninja_compat,
        version,
        args: Some(args),
        steps: Seq::empty(),
        ending: EndingView::Exit(0),
        pending: PendingView::Plain,
        result: Ok(0),
    };
    match args.parallelism {
        Some(count) => advance(
            with_plan(fresh, plan_of(args, count, fake_ninja_compat, version)),
        ),
        None => (fresh, TaskView::DetectParallelism),
    }
}

/// The session after `outcome`, and its next task.
///
/// A failed task ends the session with what it reported; changing directory
/// says which directory. An outcome that does not answer the pending task
/// ends the session with `Protocol`. However the session ends, the trace is
/// closed before the result is handed out, and the reply to that carries no
/// information. After `Exit` every outcome is answered with `Exit` and
/// `Protocol`.
pub open spec fn step_of(s: SessionView, outcome: OutcomeView) -> (SessionView, TaskView) {
    match s.stage {
        Stage::Detecting => match outcome {
            OutcomeView::Parallelism(count) => {
                if s.args is Some {
                    advance(
                        with_plan(s, plan_of(s.args->0, count, s.fake_ninja_compat, s.version)),
                    )
                } else {
                    close(s, Err(RunErrorView::Protocol))
                }
            },
            OutcomeView::Failed(text) => close(s, Err(RunErrorView::Failed(text))),
            _ => close(s, Err(RunErrorView::Protocol)),
        },
        Stage::Stepping => match (s.pending, outcome) {
            (PendingView::Build, OutcomeView::Built(result)) => advance(
                with_plan(s, summary_of(result)),
            ),
            (PendingView::Plain, OutcomeView::Done) => advance(s),
            (PendingView::Chdir(_), OutcomeView::Done) => advance(s),
            (PendingView::Plain, OutcomeView::Failed(text)) => close(
                s,
                Err(RunErrorView::Failed(text)),
            ),
            (PendingView::Chdir(dir), OutcomeView::Failed(cause)) => close(
                s,
                Err(RunErrorView::Chdir { dir, cause }),
            ),
            _ => close(s, Err(RunErrorView::Protocol)),
        },
        Stage::Closing => (
            SessionView { stage: Stage::Exited, result: Err(RunErrorView::Protocol), ..s },
            TaskView::Exit(s.result),
        ),
        Stage::Exited => (s, TaskView::Exit(Err(RunErrorView::Protocol))),
    }
}

impl Session {
    /// Settles the result and asks for the trace to be closed.
    fn close(&mut self, result: Result<i32, RunError>) -> (task: Task)
        ensures
            (final(self)@, task@) == close(old(self)@, exit_view(result)),
    {
        self.stage = Stage::Closing;
        self.args = None;
        self.steps = Vec::new();
        self.ending = Ending::Exit(0);
        self.pending = Pending::Plain;
        self.result = result;
        assert(self.steps.deep_view() =~= Seq::empty());
        Task::CloseTrace
    }

    /// Hands out the next planned task; closes the session when none is left.
    fn advance(&mut self) -> (task: Task)
        ensures
            (final(self)@, task@) == advance(old(self)@),
    {
        if self.steps.len() > 0 {
            let task = self.steps.remove(0);
            assert(self.steps.deep_view() =~= old(self).steps.deep_view().drop_first());
            assert(task@ == old(self).steps.deep_view()[0]);
            self.pending = match &task {
                Task::Chdir(dir) => Pending::Chdir(dir.clone()),
                Task::Build { .. } => Pending::Build,
                _ => Pending::Plain,
            };
            self.stage = Stage::Stepping;
            task
        } else {
            let mut ending = Ending::Exit(0);
            core::mem::swap(&mut self.ending, &mut ending);
            let result = match ending {
                Ending::Exit(code) => Ok(code),
                Ending::Fail(error) => Err(error),
                Ending::Summarize => Err(RunError::Protocol),
            };
            assert(old(self).steps.deep_view().len() == 0);
            self.close(result)
        }
    }

    /// Replaces what is planned.
    fn plan(&mut self, plan: Plan)
        ensures
            final(self)@ == with_plan(old(self)@, plan@),
    {
        let Plan { steps, ending } = plan;
        self.args = None;
        self.steps = steps;
        self.ending = ending;
    }

    /// Where the session stands.
    pub fn stage(&self) -> (stage: Stage)
        ensures
            stage == self@.stage,
    {
        self.stage
    }

    /// Tells the session how the pending task went, and gets the next task.
    pub fn step(&mut self, outcome: Outcome) -> (task: Task)
        ensures
            (final(self)@, task@) == step_of(old(self)@, outcome@),
    {
        match self.stage {
            Stage::Detecting => match outcome {
                Outcome::Parallelism(count) => {
                    match self.args.take() {
                        Some(args) => {
                            let plan = run_impl(
                                args,
                                count,
                                self.fake_ninja_compat,
                                self.version.as_str(),
                            );
                            self.plan(plan);
                            self.advance()
                        },
                        None => self.close(Err(RunError::Protocol)),
                    }
                },
                Outcome::Failed(text) => self.close(Err(RunError::Failed(text))),
                _ => self.close(Err(RunError::Protocol)),
            },
            Stage::Stepping => {
                let mut pending = Pending::Plain;
                core::mem::swap(&mut self.pending, &mut pending);
                match (pending, outcome) {
                    (Pending::Build, Outcome::Built(result)) => {
                        self.plan(summary(result));
                        self.advance()
                    },
                    (Pending::Plain, Outcome::Done) => self.advance(),
                    (Pending::Chdir(_), Outcome::Done) => self.advance(),
                    (Pending::Plain, Outcome::Failed(text)) => self.close(
                        Err(RunError::Failed(text)),
                    ),
                    (Pending::Chdir(dir), Outcome::Failed(cause)) => self.close(
                        Err(RunError::Chdir { dir, cause }),
                    ),
                    _ => self.close(Err(RunError::Protocol)),
                }
            },
            Stage::Closing => {
                let mut result = Err(RunError::Protocol);
                core::mem::swap(&mut self.result, &mut result);
                self.stage = Stage::Exited;
                Task::Exit(result)
            },
            Stage::Exited => Task::Exit(Err(RunError::Protocol)),
        }
    }
}

/// Starts the session of one command line and names its first task.
///
/// `fake_ninja_compat` is set where the program runs under the name of ninja;
/// `version` is the version of this program. The driver does each task and
/// hands its outcome to `Session::step`, until the task is `Exit`.
pub fn run(args: Args, fake_ninja_compat: bool, version: String) -> (started: (Session, Task))
    ensures
        (started.0@, started.1@) == start_of(args, fake_ninja_compat, version@),
{
    let mut session = Session {
        stage: Stage::Detecting,
        fake_ninja_compat,
        version,
        args: None,
        steps: Vec::new(),
        ending: Ending::Exit(0),
        pending: Pending::Plain,
        result: Ok(0),
    };
    assert(session.steps.deep_view() =~= Seq::empty());
    match args.parallelism {
        Some(count) => {
            let plan = run_impl(args, count, fake_ninja_compat, session.version.as_str());
            session.plan(plan);
            let task = session.advance();
            (session, task)
        },
        None => {
            session.args = Some(args);
            (session, Task::DetectParallelism)
        },
    }
}

/// The tasks given in answer to `outcomes`, one for each, from the session
/// `s` on.
pub open spec fn tasks(s: SessionView, outcomes: Seq<OutcomeView>) -> Seq<TaskView>
    decreases outcomes.len(),
{
    if outcomes.len() == 0 {
        Seq::empty()
    } else {
        seq![step_of(s, outcomes[0]).1] + tasks(step_of(s, outcomes[0]).0, outcomes.drop_first())
    }
}

/// All the tasks of the session of a command line whose driver reports
/// `outcomes`: the first task, then one for each outcome.
pub open spec fn session_tasks(
    args: Args,
    fake_ninja_compat: bool,
    version: Seq<char>,
    outcomes: Seq<OutcomeView>,
) -> Seq<TaskView> {
    seq![start_of(args, fake_ninja_compat, version).1] + tasks(
        start_of(args, fake_ninja_compat, version).0,
        outcomes,
    )
}

/// True when every task of `tasks` hands out a result.
pub open spec fn only_exits(tasks: Seq<TaskView>) -> bool {
    forall|i: int| 0 <= i < tasks.len() ==> #[trigger] tasks[i] is Exit
}

/// True when `tasks` hand out no result before the trace was closed, and
/// close it once: they are tasks that neither close nor exit, then
/// `CloseTrace`, then nothing but `Exit`. The tasks may stop anywhere.
pub open spec fn closes_before_exit(tasks: Seq<TaskView>) -> bool
    decreases tasks.len(),
{
    tasks.len() == 0 || match tasks[0] {
        TaskView::Exit(_) => false,
        TaskView::CloseTrace => only_exits(tasks.drop_first()),
        _ => closes_before_exit(tasks.drop_first()),
    }
}

/// True when none of `steps` closes the trace or hands out a result.
pub open spec fn ordinary(steps: Seq<TaskView>) -> bool {
    forall|i: int|
        0 <= i < steps.len() ==> !(#[trigger] steps[i] is CloseTrace) && !(steps[i] is Exit)
}

/// A plan never closes the trace or hands out a result by itself.
proof fn lemma_plans_are_ordinary(
    args: Args,
    parallelism: usize,
    fake_ninja_compat: bool,
    version: Seq<char>,
    result: Result<Option<usize>, BuildErrorView>,
)
    ensures
        ordinary(plan_of(args, parallelism, fake_ninja_compat, version).steps),
        ordinary(summary_of(result).steps),
{
}

/// From a session that is closing or has exited, every task is `Exit`; from
/// one that has not begun to close, the tasks close the trace before any
/// result.
proof fn lemma_session_closes(s: SessionView, outcomes: Seq<OutcomeView>)
    requires
        ordinary(s.steps),
    ensures
        s.stage is Closing || s.stage is Exited ==> only_exits(tasks(s, outcomes)),
        s.stage is Detecting || s.stage is Stepping ==> closes_before_exit(tasks(s, outcomes)),
    decreases outcomes.len(),
{
    if outcomes.len() > 0 {
        let next = step_of(s, outcomes[0]).0;
        let task = step_of(s, outcomes[0]).1;
        let rest = tasks(next, outcomes.drop_first());
        assert(tasks(s, outcomes).drop_first() =~= rest);
        assert(tasks(s, outcomes)[0] == task);
        if s.stage is Detecting {
            match outcomes[0] {
                OutcomeView::Parallelism(count) => {
                    if s.args is Some {
                        lemma_plans_are_ordinary(
                            s.args->0,
                            count,
                            s.fake_ninja_compat,
                            s.version,
                            Ok(None),
                        );
                        lemma_advance_is_ordinary(
                            with_plan(
                                s,
                                plan_of(s.args->0, count, s.fake_ninja_compat, s.version),
                            ),
                        );
                    }
                },
                _ => {},
            }
        } else if s.stage is Stepping {
            match outcomes[0] {
                OutcomeView::Built(result) => {
                    lemma_plans_are_ordinary(s.args->0, 0, s.fake_ninja_compat, s.version, result);
                    lemma_advance_is_ordinary(with_plan(s, summary_of(result)));
                },
                _ => {},
            }
            lemma_advance_is_ordinary(s);
        }
        assert(ordinary(next.steps));
        lemma_session_closes(next, outcomes.drop_first());
        if s.stage is Closing || s.stage is Exited {
            assert forall|i: int| 0 <= i < tasks(s, outcomes).len() implies #[trigger] tasks(
                s,
                outcomes,
            )[i] is Exit by {
                if i > 0 {
                    assert(tasks(s, outcomes)[i] == rest[i - 1]);
                }
            }
        }
    }
}

/// Handing out the next planned task leaves a plan that is ordinary, and
/// hands out either an ordinary task or the request to close the trace.
proof fn lemma_advance_is_ordinary(s: SessionView)
    requires
        ordinary(s.steps),
    ensures
        ordinary(advance(s).0.steps),
        advance(s).0.stage is Stepping ==> !(advance(s).1 is CloseTrace) && !(advance(s).1 is Exit),
        advance(s).0.stage is Closing ==> advance(s).1 is CloseTrace,
        advance(s).0.stage is Stepping || advance(s).0.stage is Closing,
{
    if s.steps.len() > 0 {
        assert(!(s.steps[0] is CloseTrace) && !(s.steps[0] is Exit));
        assert forall|i: int| 0 <= i < s.steps.drop_first().len() implies !(
        #[trigger] s.steps.drop_first()[i] is CloseTrace) && !(s.steps.drop_first()[i] is Exit) by {
            assert(s.steps.drop_first()[i] == s.steps[i + 1]);
        }
    }
}

/// However a session goes, it closes the trace exactly once before it hands
/// out its result, whether that is an exit code or an error, and does
/// nothing after that but hand out a result: for every command line and all
/// outcomes that a driver may report, the tasks of the session are tasks
/// that neither close nor exit, then `CloseTrace`, then nothing but `Exit`.
pub proof fn lemma_trace_is_closed_before_exit(
    args: Args,
    fake_ninja_compat: bool,
    version: Seq<char>,
    outcomes: Seq<OutcomeView>,
)
    ensures
        closes_before_exit(session_tasks(args, fake_ninja_compat, version, outcomes)),
{
    let start = start_of(args, fake_ninja_compat, version);
    let all = session_tasks(args, fake_ninja_compat, version, outcomes);
    assert(all.drop_first() =~= tasks(start.0, outcomes));
    assert(all[0] == start.1);
    if args.parallelism is Some {
        let count = args.parallelism->0;
        lemma_plans_are_ordinary(args, count, fake_ninja_compat, version, Ok(None));
        let fresh = SessionView {
            stage: Stage::Detecting,
            fake_ninja_compat,
            version,
            args: Some(args),
            steps: Seq::empty(),
            ending: EndingView::Exit(0),
            pending: PendingView::Plain,
            result: Ok(0),
        };
        lemma_advance_is_ordinary(
            with_plan(fresh, plan_of(args, count, fake_ninja_compat, version)),
        );
    }
    lemma_session_closes(start.0, outcomes);
}

} // verus!
