use n2::graph::FileId;
use n2::orchestrator::{build, BuildError, Options, Orchestrator, Phase, Reply, Request};

fn options() -> Options {
    Options { parallelism: 4, keep_going: 1, explain: false }
}

fn names(list: &[&str]) -> Vec<String> {
    list.iter().map(|name| name.to_string()).collect()
}

fn ids(list: &[u32]) -> Vec<FileId> {
    list.iter().map(|i| FileId(*i)).collect()
}

fn loaded(manifest_target: Option<u32>, default: &[u32]) -> Reply {
    Reply::Loaded { manifest_target: manifest_target.map(FileId), default: ids(default) }
}

/// What a scheduler was asked to bring up to date.
#[derive(Debug, Clone, PartialEq, Eq)]
enum Want {
    Id(FileId),
    Name(String),
}

/// Stands for the loader and the scheduler, and counts what they are asked.
struct Collaborators {
    /// What each load yields, in order.
    loads: Vec<Result<Reply, String>>,
    /// What each run of the scheduler yields, in order.
    runs: Vec<Result<Option<usize>, String>>,
    /// Names that the scheduler does not know.
    unknown: Vec<String>,
    load_calls: usize,
    run_calls: usize,
    /// What each scheduler was asked for; a load starts a new one.
    wanted: Vec<Vec<Want>>,
}

impl Collaborators {
    fn new(loads: Vec<Result<Reply, String>>, runs: Vec<Result<Option<usize>, String>>) -> Self {
        Collaborators { loads, runs, unknown: vec![], load_calls: 0, run_calls: 0, wanted: vec![] }
    }

    fn answer(&mut self, request: &Request) -> Reply {
        match request {
            Request::Load => {
                let reply = self.loads[self.load_calls].clone();
                self.load_calls += 1;
                self.wanted.push(vec![]);
                match reply {
                    Ok(reply) => reply,
                    Err(text) => Reply::Failed(text),
                }
            }
            Request::WantFileId(id) => {
                self.wanted.last_mut().unwrap().push(Want::Id(*id));
                Reply::Wanted
            }
            Request::WantFile(name) => {
                if self.unknown.contains(name) {
                    Reply::Failed(format!("unknown path requested: {:?}", name))
                } else {
                    self.wanted.last_mut().unwrap().push(Want::Name(name.clone()));
                    Reply::Wanted
                }
            }
            Request::Run => {
                let result = self.runs[self.run_calls].clone();
                self.run_calls += 1;
                match result {
                    Ok(count) => Reply::Ran(count),
                    Err(text) => Reply::Failed(text),
                }
            }
            Request::Done(_) => unreachable!(),
        }
    }
}

/// Runs a build against the collaborators, as a driver does.
fn drive(
    collaborators: &mut Collaborators,
    targets: &[&str],
) -> (Result<Option<usize>, BuildError>, Orchestrator) {
    let (mut orchestrator, mut request) = build(options(), "build.ninja".to_string(), names(targets));
    loop {
        if let Request::Done(result) = request {
            return (result, orchestrator);
        }
        let reply = collaborators.answer(&request);
        request = orchestrator.step(reply);
    }
}

#[test]
fn build_begins_with_a_load() {
    let (orchestrator, request) = build(options(), "dir/build.ninja".to_string(), names(&["all"]));
    assert_eq!(request, Request::Load);
    assert_eq!(orchestrator.phase(), Phase::Loading);
    assert_eq!(orchestrator.options(), options());
    assert_eq!(orchestrator.build_filename(), "dir/build.ninja");
}

#[test]
fn stale_manifest_is_rebuilt_and_loaded_again() {
    let mut collaborators = Collaborators::new(
        vec![Ok(loaded(Some(7), &[1])), Ok(loaded(Some(7), &[2, 3]))],
        vec![Ok(Some(1)), Ok(Some(5))],
    );
    let (result, orchestrator) = drive(&mut collaborators, &[]);
    assert_eq!(result, Ok(Some(5)));
    assert_eq!(collaborators.load_calls, 2);
    assert_eq!(collaborators.run_calls, 2);
    // The first scheduler built the manifest only; the second one built the
    // default targets of the manifest as loaded the second time.
    assert_eq!(
        collaborators.wanted,
        vec![
            vec![Want::Id(FileId(7))],
            vec![Want::Id(FileId(2)), Want::Id(FileId(3))],
        ]
    );
    assert_eq!(orchestrator.phase(), Phase::Finished);
}

#[test]
fn stale_manifest_is_loaded_again_only_once() {
    // The manifest is still a target after the reload: it is not rebuilt again.
    let mut collaborators = Collaborators::new(
        vec![Ok(loaded(Some(7), &[])), Ok(loaded(Some(7), &[]))],
        vec![Ok(Some(3)), Ok(Some(0))],
    );
    let (result, _) = drive(&mut collaborators, &["all", "test"]);
    assert_eq!(result, Ok(Some(0)));
    assert_eq!(collaborators.load_calls, 2);
    assert_eq!(
        collaborators.wanted,
        vec![
            vec![Want::Id(FileId(7))],
            vec![Want::Name("all".to_string()), Want::Name("test".to_string())],
        ]
    );
}

#[test]
fn current_manifest_is_not_loaded_again() {
    let mut collaborators =
        Collaborators::new(vec![Ok(loaded(Some(7), &[4, 5]))], vec![Ok(Some(0)), Ok(Some(2))]);
    let (result, _) = drive(&mut collaborators, &[]);
    assert_eq!(result, Ok(Some(2)));
    assert_eq!(collaborators.load_calls, 1);
    assert_eq!(collaborators.run_calls, 2);
    // The one scheduler was asked for the manifest, then for the default
    // targets of the state loaded first.
    assert_eq!(
        collaborators.wanted,
        vec![vec![Want::Id(FileId(7)), Want::Id(FileId(4)), Want::Id(FileId(5))]]
    );
}

#[test]
fn manifest_that_is_no_target_is_not_built() {
    let mut collaborators = Collaborators::new(vec![Ok(loaded(None, &[9]))], vec![Ok(Some(1))]);
    let (result, _) = drive(&mut collaborators, &[]);
    assert_eq!(result, Ok(Some(1)));
    assert_eq!(collaborators.load_calls, 1);
    assert_eq!(collaborators.run_calls, 1);
    assert_eq!(collaborators.wanted, vec![vec![Want::Id(FileId(9))]]);
}

#[test]
fn no_target_and_no_default_is_an_error() {
    let mut collaborators = Collaborators::new(vec![Ok(loaded(None, &[]))], vec![]);
    let (result, orchestrator) = drive(&mut collaborators, &[]);
    assert_eq!(result, Err(BuildError::NoTarget));
    assert_ne!(result, Ok(Some(0)));
    assert_eq!(collaborators.run_calls, 0);
    assert_eq!(orchestrator.phase(), Phase::Finished);
    assert_eq!(BuildError::NoTarget.message(), "no path specified and no default");
}

#[test]
fn no_target_after_a_current_manifest_is_an_error() {
    let mut collaborators = Collaborators::new(vec![Ok(loaded(Some(0), &[]))], vec![Ok(Some(0))]);
    let (result, _) = drive(&mut collaborators, &[]);
    assert_eq!(result, Err(BuildError::NoTarget));
    assert_eq!(collaborators.load_calls, 1);
    assert_eq!(collaborators.run_calls, 1);
}

#[test]
fn no_target_after_a_reload_is_an_error() {
    // The first load had a default target, the manifest as regenerated has none.
    let mut collaborators = Collaborators::new(
        vec![Ok(loaded(Some(0), &[1])), Ok(loaded(Some(0), &[]))],
        vec![Ok(Some(2))],
    );
    let (result, _) = drive(&mut collaborators, &[]);
    assert_eq!(result, Err(BuildError::NoTarget));
    assert_eq!(collaborators.load_calls, 2);
}

#[test]
fn named_targets_come_before_default_targets() {
    let mut collaborators = Collaborators::new(vec![Ok(loaded(None, &[1, 2]))], vec![Ok(Some(3))]);
    let (result, _) = drive(&mut collaborators, &["b", "a", "b"]);
    assert_eq!(result, Ok(Some(3)));
    assert_eq!(
        collaborators.wanted,
        vec![vec![
            Want::Name("b".to_string()),
            Want::Name("a".to_string()),
            Want::Name("b".to_string()),
        ]]
    );
}

#[test]
fn failed_load_is_passed_on() {
    let mut collaborators =
        Collaborators::new(vec![Err("read build.ninja: no such file".to_string())], vec![]);
    let (result, _) = drive(&mut collaborators, &["all"]);
    assert_eq!(result, Err(BuildError::Failed("read build.ninja: no such file".to_string())));
    assert_eq!(collaborators.load_calls, 1);
    assert_eq!(
        result.unwrap_err().message(),
        "read build.ninja: no such file"
    );
}

#[test]
fn failed_reload_is_passed_on() {
    let mut collaborators = Collaborators::new(
        vec![Ok(loaded(Some(7), &[1])), Err("parse error".to_string())],
        vec![Ok(Some(1))],
    );
    let (result, _) = drive(&mut collaborators, &[]);
    assert_eq!(result, Err(BuildError::Failed("parse error".to_string())));
    assert_eq!(collaborators.load_calls, 2);
    assert_eq!(collaborators.run_calls, 1);
}

#[test]
fn unknown_target_is_passed_on() {
    let mut collaborators = Collaborators::new(vec![Ok(loaded(None, &[1]))], vec![]);
    collaborators.unknown = names(&["nope"]);
    let (result, _) = drive(&mut collaborators, &["all", "nope", "more"]);
    assert_eq!(
        result,
        Err(BuildError::Failed("unknown path requested: \"nope\"".to_string()))
    );
    // The targets after the unknown one were not asked for, and nothing ran.
    assert_eq!(collaborators.wanted, vec![vec![Want::Name("all".to_string())]]);
    assert_eq!(collaborators.run_calls, 0);
}

#[test]
fn failed_manifest_build_ends_without_a_count() {
    let mut collaborators = Collaborators::new(vec![Ok(loaded(Some(7), &[1]))], vec![Ok(None)]);
    let (result, _) = drive(&mut collaborators, &["all"]);
    assert_eq!(result, Ok(None));
    assert_eq!(collaborators.load_calls, 1);
    assert_eq!(collaborators.run_calls, 1);
    assert_eq!(collaborators.wanted, vec![vec![Want::Id(FileId(7))]]);
}

#[test]
fn scheduler_error_on_the_manifest_is_passed_on() {
    let mut collaborators =
        Collaborators::new(vec![Ok(loaded(Some(7), &[1]))], vec![Err("db write".to_string())]);
    let (result, _) = drive(&mut collaborators, &["all"]);
    assert_eq!(result, Err(BuildError::Failed("db write".to_string())));
    assert_eq!(collaborators.load_calls, 1);
}

#[test]
fn result_of_the_scheduler_is_the_result_of_the_build() {
    for outcome in [Ok(None), Ok(Some(0)), Ok(Some(1)), Ok(Some(usize::MAX))] {
        let mut collaborators =
            Collaborators::new(vec![Ok(loaded(None, &[1]))], vec![outcome.clone()]);
        let (result, _) = drive(&mut collaborators, &[]);
        assert_eq!(result, outcome.map_err(BuildError::Failed));
    }
    let mut collaborators =
        Collaborators::new(vec![Ok(loaded(None, &[1]))], vec![Err("interrupted".to_string())]);
    let (result, _) = drive(&mut collaborators, &[]);
    assert_eq!(result, Err(BuildError::Failed("interrupted".to_string())));
}

#[test]
fn steps_of_a_self_rebuild() {
    let (mut orchestrator, request) = build(options(), "build.ninja".to_string(), names(&["all"]));
    assert_eq!(request, Request::Load);
    assert_eq!(orchestrator.step(loaded(Some(3), &[8])), Request::WantFileId(FileId(3)));
    assert_eq!(orchestrator.phase(), Phase::WantingManifest);
    assert_eq!(orchestrator.step(Reply::Wanted), Request::Run);
    assert_eq!(orchestrator.phase(), Phase::RunningManifest);
    assert_eq!(orchestrator.step(Reply::Ran(Some(2))), Request::Load);
    assert_eq!(orchestrator.phase(), Phase::Reloading);
    assert_eq!(orchestrator.step(loaded(Some(3), &[9])), Request::WantFile("all".to_string()));
    assert_eq!(orchestrator.phase(), Phase::WantingNamed);
    assert_eq!(orchestrator.step(Reply::Wanted), Request::Run);
    assert_eq!(orchestrator.phase(), Phase::Running);
    assert_eq!(orchestrator.step(Reply::Ran(Some(4))), Request::Done(Ok(Some(4))));
    assert_eq!(orchestrator.phase(), Phase::Finished);
}

#[test]
fn reply_that_answers_nothing_is_a_protocol_error() {
    let wrong: Vec<(Vec<Reply>, Reply)> = vec![
        (vec![], Reply::Wanted),
        (vec![], Reply::Ran(Some(1))),
        (vec![loaded(Some(3), &[8])], Reply::Ran(Some(0))),
        (vec![loaded(Some(3), &[8])], loaded(None, &[])),
        (vec![loaded(Some(3), &[8]), Reply::Wanted], Reply::Wanted),
        (vec![loaded(Some(3), &[8]), Reply::Wanted, Reply::Ran(Some(1))], Reply::Wanted),
        (vec![loaded(None, &[8])], Reply::Ran(Some(0))),
        (vec![loaded(None, &[8]), Reply::Wanted], Reply::Wanted),
        (vec![loaded(None, &[8]), Reply::Wanted], loaded(None, &[8])),
    ];
    for (before, reply) in wrong {
        let (mut orchestrator, _) = build(options(), "build.ninja".to_string(), names(&[]));
        for earlier in before {
            assert!(!matches!(orchestrator.step(earlier), Request::Done(_)));
        }
        assert_eq!(orchestrator.step(reply), Request::Done(Err(BuildError::Protocol)));
        assert_eq!(orchestrator.phase(), Phase::Finished);
    }
    assert_eq!(BuildError::Protocol.message(), "reply does not answer the pending request");
}

#[test]
fn nothing_follows_the_end_of_a_build() {
    let (mut orchestrator, _) = build(options(), "build.ninja".to_string(), names(&[]));
    assert_eq!(orchestrator.step(loaded(None, &[])), Request::Done(Err(BuildError::NoTarget)));
    for reply in [loaded(None, &[1]), Reply::Wanted, Reply::Ran(Some(1)), Reply::Failed("x".to_string())] {
        assert_eq!(orchestrator.step(reply), Request::Done(Err(BuildError::Protocol)));
        assert_eq!(orchestrator.phase(), Phase::Finished);
    }
}
