use n2::orchestrator::{BuildError, Options};
use n2::run::{
    run, run_impl, runs_as_ninja, summary, Args, Ending, Outcome, Plan, RunError, Session, Stage,
    Task,
};

fn args() -> Args {
    Args {
        chdir: None,
        build_file: "build.ninja".to_string(),
        debug: None,
        tool: None,
        parallelism: Some(8),
        keep_going: 1,
        version: false,
        verbose: false,
        targets: vec![],
    }
}

fn text(s: &str) -> Option<String> {
    Some(s.to_string())
}

fn print(line: &str) -> Task {
    Task::Print(line.to_string())
}

fn build_task(parallelism: usize, explain: bool) -> Task {
    Task::Build {
        options: Options { parallelism, keep_going: 1, explain },
        build_file: "build.ninja".to_string(),
        targets: vec![],
        verbose: false,
    }
}

fn plan(args: Args) -> Plan {
    let parallelism = args.parallelism.unwrap_or(1);
    run_impl(args, parallelism, false, "0.1.0")
}

fn as_ninja(args: Args) -> Plan {
    let parallelism = args.parallelism.unwrap_or(1);
    run_impl(args, parallelism, true, "0.1.0")
}

/// Runs a session to its end; every task succeeds, and a build ends with `built`.
fn drive(
    started: (Session, Task),
    built: Result<Option<usize>, BuildError>,
) -> (Vec<Task>, Result<i32, RunError>) {
    let (mut session, mut task) = started;
    let mut built = Some(built);
    let mut done = vec![];
    loop {
        let outcome = match &task {
            Task::Exit(_) => break,
            Task::DetectParallelism => Outcome::Parallelism(3),
            Task::Build { .. } => Outcome::Built(built.take().unwrap()),
            _ => Outcome::Done,
        };
        done.push(task);
        task = session.step(outcome);
    }
    assert_eq!(session.stage(), Stage::Exited);
    match task {
        Task::Exit(result) => (done, result),
        _ => unreachable!(),
    }
}

#[test]
fn plan_of_a_plain_build() {
    let mut given = args();
    given.targets = vec!["all".to_string(), "docs".to_string()];
    given.keep_going = 0;
    given.verbose = true;
    given.build_file = "other.ninja".to_string();
    assert_eq!(
        plan(given),
        Plan {
            steps: vec![Task::Build {
                options: Options { parallelism: 8, keep_going: 0, explain: false },
                build_file: "other.ninja".to_string(),
                targets: vec!["all".to_string(), "docs".to_string()],
                verbose: true,
            }],
            ending: Ending::Summarize,
        }
    );
}

#[test]
fn plan_of_version() {
    let mut given = args();
    given.version = true;
    // The version wins over everything else on the command line.
    given.debug = text("nonsense");
    given.tool = text("nonsense");
    given.chdir = text("elsewhere");
    assert_eq!(
        plan(given.clone()),
        Plan { steps: vec![print("0.1.0")], ending: Ending::Exit(0) }
    );
    assert_eq!(as_ninja(given), Plan { steps: vec![print("1.10.2")], ending: Ending::Exit(0) });
}

#[test]
fn plan_of_debug_list() {
    let mut given = args();
    given.debug = text("list");
    given.tool = text("list");
    assert_eq!(
        plan(given),
        Plan {
            steps: vec![
                print("debug tools:"),
                print("  explain  print why each target is considered out of date"),
                print("  trace    generate json performance trace"),
            ],
            ending: Ending::Exit(1),
        }
    );
}

#[test]
fn plan_of_debug_explain() {
    let mut given = args();
    given.debug = text("explain");
    assert_eq!(
        plan(given),
        Plan { steps: vec![build_task(8, true)], ending: Ending::Summarize }
    );
}

#[test]
fn plan_of_debug_trace() {
    let mut given = args();
    given.debug = text("trace");
    given.chdir = text("out");
    assert_eq!(
        plan(given),
        Plan {
            steps: vec![
                Task::OpenTrace("trace.json".to_string()),
                Task::Chdir("out".to_string()),
                build_task(8, false),
            ],
            ending: Ending::Summarize,
        }
    );
}

#[test]
fn plan_of_unknown_debug() {
    let mut given = args();
    given.debug = text("explian");
    given.tool = text("list");
    assert_eq!(
        plan(given),
        Plan { steps: vec![], ending: Ending::Fail(RunError::UnknownDebug("explian".to_string())) }
    );
}

#[test]
fn plan_of_tool_list() {
    let mut given = args();
    given.tool = text("list");
    given.chdir = text("out");
    let help = || {
        vec![
            print("subcommands:"),
            print("  (none yet, but see README if you're looking here trying to get CMake to work)"),
        ]
    };
    assert_eq!(plan(given.clone()), Plan { steps: help(), ending: Ending::Exit(1) });
    assert_eq!(as_ninja(given.clone()), Plan { steps: help(), ending: Ending::Exit(1) });
    // The trace is opened before the subcommand is looked at.
    given.debug = text("trace");
    let mut traced = vec![Task::OpenTrace("trace.json".to_string())];
    traced.extend(help());
    assert_eq!(plan(given), Plan { steps: traced, ending: Ending::Exit(1) });
}

#[test]
fn plan_of_unknown_tool() {
    let mut given = args();
    given.tool = text("restat");
    assert_eq!(
        plan(given.clone()),
        Plan { steps: vec![], ending: Ending::Fail(RunError::UnknownTool("restat".to_string())) }
    );
    // Run as ninja, an unknown subcommand succeeds and does nothing.
    assert_eq!(as_ninja(given.clone()), Plan { steps: vec![], ending: Ending::Exit(0) });
    given.debug = text("trace");
    assert_eq!(
        as_ninja(given),
        Plan { steps: vec![Task::OpenTrace("trace.json".to_string())], ending: Ending::Exit(0) }
    );
}

#[test]
fn plan_changes_directory_before_the_build() {
    let mut given = args();
    given.chdir = text("some dir");
    assert_eq!(
        plan(given),
        Plan {
            steps: vec![Task::Chdir("some dir".to_string()), build_task(8, false)],
            ending: Ending::Summarize,
        }
    );
}

#[test]
fn summary_of_each_result() {
    assert_eq!(summary(Ok(None)), Plan { steps: vec![], ending: Ending::Exit(1) });
    assert_eq!(
        summary(Ok(Some(0))),
        Plan { steps: vec![print("n2: no work to do")], ending: Ending::Exit(0) }
    );
    assert_eq!(
        summary(Ok(Some(1))),
        Plan { steps: vec![print("n2: ran 1 task, now up to date")], ending: Ending::Exit(0) }
    );
    assert_eq!(
        summary(Ok(Some(2))),
        Plan { steps: vec![print("n2: ran 2 tasks, now up to date")], ending: Ending::Exit(0) }
    );
    assert_eq!(
        summary(Ok(Some(1234))),
        Plan { steps: vec![print("n2: ran 1234 tasks, now up to date")], ending: Ending::Exit(0) }
    );
    assert_eq!(
        summary(Err(BuildError::NoTarget)),
        Plan { steps: vec![], ending: Ending::Fail(RunError::Build(BuildError::NoTarget)) }
    );
}

#[test]
fn messages_of_errors() {
    assert_eq!(
        RunError::UnknownDebug("explian".to_string()).message(),
        "unknown -d \"explian\", use -d list to list"
    );
    assert_eq!(
        RunError::UnknownTool("re\"stat".to_string()).message(),
        "unknown -t \"re\\\"stat\", use -t list to list"
    );
    assert_eq!(
        RunError::Chdir { dir: "no/where".to_string(), cause: "No such file or directory".to_string() }
            .message(),
        "chdir \"no/where\": No such file or directory"
    );
    assert_eq!(RunError::Failed("trace.json: denied".to_string()).message(), "trace.json: denied");
    assert_eq!(
        RunError::Build(BuildError::NoTarget).message(),
        "no path specified and no default"
    );
    assert_eq!(
        RunError::Build(BuildError::Failed("unknown path".to_string())).message(),
        "unknown path"
    );
    assert_eq!(RunError::Protocol.message(), "outcome does not answer the pending task");
}

#[test]
fn session_of_a_build_that_ran_tasks() {
    let (done, result) = drive(run(args(), false, "0.1.0".to_string()), Ok(Some(3)));
    assert_eq!(
        done,
        vec![build_task(8, false), print("n2: ran 3 tasks, now up to date"), Task::CloseTrace]
    );
    assert_eq!(result, Ok(0));
}

#[test]
fn session_of_a_build_with_nothing_to_do() {
    let (done, result) = drive(run(args(), false, "0.1.0".to_string()), Ok(Some(0)));
    assert_eq!(done, vec![build_task(8, false), print("n2: no work to do"), Task::CloseTrace]);
    assert_eq!(result, Ok(0));
}

#[test]
fn session_of_a_build_that_failed() {
    let (done, result) = drive(run(args(), false, "0.1.0".to_string()), Ok(None));
    assert_eq!(done, vec![build_task(8, false), Task::CloseTrace]);
    assert_eq!(result, Ok(1));
}

#[test]
fn session_of_a_build_with_an_error() {
    let (done, result) = drive(run(args(), false, "0.1.0".to_string()), Err(BuildError::NoTarget));
    assert_eq!(done, vec![build_task(8, false), Task::CloseTrace]);
    assert_eq!(result, Err(RunError::Build(BuildError::NoTarget)));
}

#[test]
fn session_detects_parallelism_where_none_is_given() {
    let mut given = args();
    given.parallelism = None;
    let (session, first) = run(given, false, "0.1.0".to_string());
    assert_eq!(first, Task::DetectParallelism);
    assert_eq!(session.stage(), Stage::Detecting);
    let (done, result) = drive((session, first), Ok(Some(1)));
    assert_eq!(
        done,
        vec![
            Task::DetectParallelism,
            build_task(3, false),
            print("n2: ran 1 task, now up to date"),
            Task::CloseTrace,
        ]
    );
    assert_eq!(result, Ok(0));
}

#[test]
fn session_fails_where_parallelism_cannot_be_detected() {
    let mut given = args();
    given.parallelism = None;
    given.version = true;
    let (mut session, first) = run(given, false, "0.1.0".to_string());
    assert_eq!(first, Task::DetectParallelism);
    assert_eq!(session.step(Outcome::Failed("unsupported platform".to_string())), Task::CloseTrace);
    assert_eq!(session.stage(), Stage::Closing);
    assert_eq!(
        session.step(Outcome::Done),
        Task::Exit(Err(RunError::Failed("unsupported platform".to_string())))
    );
}

#[test]
fn session_of_version() {
    let mut given = args();
    given.version = true;
    let (done, result) = drive(run(given, true, "0.1.0".to_string()), Ok(None));
    assert_eq!(done, vec![print("1.10.2"), Task::CloseTrace]);
    assert_eq!(result, Ok(0));
}

#[test]
fn session_of_unknown_debug_closes_the_trace() {
    let mut given = args();
    given.debug = text("what");
    let (mut session, first) = run(given, false, "0.1.0".to_string());
    assert_eq!(first, Task::CloseTrace);
    assert_eq!(session.stage(), Stage::Closing);
    assert_eq!(
        session.step(Outcome::Done),
        Task::Exit(Err(RunError::UnknownDebug("what".to_string())))
    );
    assert_eq!(session.stage(), Stage::Exited);
}

#[test]
fn session_with_trace_and_directory() {
    let mut given = args();
    given.debug = text("trace");
    given.chdir = text("out");
    let (done, result) = drive(run(given, false, "0.1.0".to_string()), Ok(Some(0)));
    assert_eq!(
        done,
        vec![
            Task::OpenTrace("trace.json".to_string()),
            Task::Chdir("out".to_string()),
            build_task(8, false),
            print("n2: no work to do"),
            Task::CloseTrace,
        ]
    );
    assert_eq!(result, Ok(0));
}

#[test]
fn session_fails_where_the_trace_cannot_be_opened() {
    let mut given = args();
    given.debug = text("trace");
    let (mut session, first) = run(given, false, "0.1.0".to_string());
    assert_eq!(first, Task::OpenTrace("trace.json".to_string()));
    assert_eq!(session.step(Outcome::Failed("denied".to_string())), Task::CloseTrace);
    assert_eq!(
        session.step(Outcome::Done),
        Task::Exit(Err(RunError::Failed("denied".to_string())))
    );
}

#[test]
fn session_fails_where_the_directory_cannot_be_changed() {
    let mut given = args();
    given.chdir = text("no/where");
    let (mut session, first) = run(given, false, "0.1.0".to_string());
    assert_eq!(first, Task::Chdir("no/where".to_string()));
    assert_eq!(session.step(Outcome::Failed("not found".to_string())), Task::CloseTrace);
    assert_eq!(
        session.step(Outcome::Done),
        Task::Exit(Err(RunError::Chdir {
            dir: "no/where".to_string(),
            cause: "not found".to_string()
        }))
    );
}

#[test]
fn session_closes_the_trace_on_an_outcome_that_answers_nothing() {
    // A build is answered with its result, not with `Done`.
    let (mut session, first) = run(args(), false, "0.1.0".to_string());
    assert_eq!(first, build_task(8, false));
    assert_eq!(session.step(Outcome::Done), Task::CloseTrace);
    assert_eq!(session.step(Outcome::Done), Task::Exit(Err(RunError::Protocol)));

    // A line that was printed is not answered with a build result.
    let mut given = args();
    given.version = true;
    let (mut session, first) = run(given, false, "0.1.0".to_string());
    assert_eq!(first, print("0.1.0"));
    assert_eq!(session.step(Outcome::Built(Ok(Some(1)))), Task::CloseTrace);
    assert_eq!(session.step(Outcome::Done), Task::Exit(Err(RunError::Protocol)));

    // Parallelism is not answered with `Done`.
    let mut given = args();
    given.parallelism = None;
    let (mut session, _) = run(given, false, "0.1.0".to_string());
    assert_eq!(session.step(Outcome::Done), Task::CloseTrace);
    assert_eq!(session.step(Outcome::Done), Task::Exit(Err(RunError::Protocol)));
}

#[test]
fn session_hands_out_its_result_whatever_closing_reports() {
    let mut given = args();
    given.version = true;
    let (mut session, _) = run(given, false, "0.1.0".to_string());
    assert_eq!(session.step(Outcome::Done), Task::CloseTrace);
    assert_eq!(session.step(Outcome::Failed("flush".to_string())), Task::Exit(Ok(0)));
}

#[test]
fn nothing_follows_the_exit() {
    let mut given = args();
    given.version = true;
    let (mut session, _) = run(given, false, "0.1.0".to_string());
    assert_eq!(session.step(Outcome::Done), Task::CloseTrace);
    assert_eq!(session.step(Outcome::Done), Task::Exit(Ok(0)));
    assert_eq!(session.step(Outcome::Done), Task::Exit(Err(RunError::Protocol)));
    assert_eq!(session.step(Outcome::Parallelism(2)), Task::Exit(Err(RunError::Protocol)));
    assert_eq!(session.stage(), Stage::Exited);
}

#[test]
fn trace_is_closed_once_before_every_exit() {
    let mut lines = vec![];
    for debug in [None, text("explain"), text("list"), text("trace"), text("bogus")] {
        for tool in [None, text("list"), text("bogus")] {
            for version in [false, true] {
                for parallelism in [None, Some(2)] {
                    let mut given = args();
                    given.debug = debug.clone();
                    given.tool = tool.clone();
                    given.version = version;
                    given.parallelism = parallelism;
                    lines.push(given);
                }
            }
        }
    }
    for given in lines {
        for fake in [false, true] {
            for built in [Ok(None), Ok(Some(0)), Ok(Some(9)), Err(BuildError::NoTarget)] {
                let (done, _) = drive(run(given.clone(), fake, "0.1.0".to_string()), built);
                let closes = done.iter().filter(|task| **task == Task::CloseTrace).count();
                assert_eq!(closes, 1);
                assert_eq!(done.last(), Some(&Task::CloseTrace));
            }
        }
    }
}

#[test]
fn program_named_ninja_runs_as_ninja() {
    assert!(runs_as_ninja("ninja", ""));
    assert!(runs_as_ninja("ninja.exe", ".exe"));
    assert!(!runs_as_ninja("ninja", ".exe"));
    assert!(!runs_as_ninja("ninja.exe", ""));
    assert!(!runs_as_ninja("n2", ""));
    assert!(!runs_as_ninja("Ninja", ""));
    assert!(!runs_as_ninja("", ""));
}
