use bollard_stubs::models::{ContainerCreateResponse, ContainerWaitResponse};
use nonempty::NonEmpty;
use nova::docker::container::{CreateContainerConfig, CreateContainerOptions, WaitContainerOptions};
use nova::docker::errors::Error;
use nova::docker::Docker;
use nova::pipeline::engine::{Build, BuildAction, CompletedSteps};
use nova::pipeline::{
    BuildResult, BuildRunningState, BuildState, ContainerExitCode, Image, Pipeline, Step, StepName,
    StepResult,
};

fn step(name: &str) -> Step {
    Step::new(
        StepName::from(name),
        NonEmpty::from(("echo".to_string(), vec![name.to_string()])),
        Image::from("ubuntu:20.04"),
        None,
    )
}

fn abc() -> Build {
    let pipeline = Pipeline::from_vec(vec![step("A"), step("B"), step("C")]).unwrap();
    Build::new(pipeline, BuildState::BuildReady, Vec::new())
}

fn handle(id: &str) -> ContainerCreateResponse {
    ContainerCreateResponse { id: id.to_string(), warnings: Vec::new() }
}

fn exited(code: i64) -> Result<ContainerWaitResponse, Error> {
    Ok(ContainerWaitResponse { status_code: code, error: None })
}

fn running(name: &str) -> BuildState {
    BuildState::BuildRunning(BuildRunningState { step: StepName::from(name) })
}

fn entry(name: &str, result: StepResult) -> (StepName, StepResult) {
    (StepName::from(name), result)
}

/// Launches the next step and returns the name that the container got.
fn launch(build: &mut Build) -> String {
    match build.progress() {
        BuildAction::CreateContainer { options, .. } => {
            let id = build.container_created(Ok(handle("id"))).unwrap();
            assert_eq!(id, "id");
            build.container_started(Ok(()));
            options.name
        }
        other => panic!("no container asked for: {:?}", other),
    }
}

/// Asks for the wait and answers it with the given items.
fn finish(build: &mut Build, name: &str, items: Vec<Result<ContainerWaitResponse, Error>>) {
    match build.progress() {
        BuildAction::WaitContainer { name: waited, condition } => {
            assert_eq!(waited, name);
            assert_eq!(condition, WaitContainerOptions::new("not-running".to_string()));
        }
        other => panic!("no wait asked for: {:?}", other),
    }
    build.handle_running_state(items);
}

#[test]
fn new_build_is_ready_with_a_clear_latch() {
    let build = abc();
    assert_eq!(build.state, BuildState::BuildReady);
    assert!(build.completed_steps.is_empty());
    assert!(!build.fail_through);
}

#[test]
fn all_steps_succeed() {
    let mut build = abc();
    for name in ["A", "B", "C"] {
        assert_eq!(launch(&mut build), name);
        assert_eq!(build.state, running(name));
        finish(&mut build, name, vec![exited(0)]);
        assert_eq!(build.state, BuildState::BuildReady);
    }
    assert_eq!(build.progress(), BuildAction::Nothing);
    assert_eq!(build.state, BuildState::BuildFinished(BuildResult::BuildSucceeded));
    assert_eq!(
        build.completed_steps,
        vec![
            entry("A", StepResult::StepSucceeded),
            entry("B", StepResult::StepSucceeded),
            entry("C", StepResult::StepSucceeded),
        ]
    );
    assert!(!build.fail_through);
    assert!(build.all_steps_succeeded());
}

#[test]
fn failure_in_the_middle_skips_the_rest() {
    let mut build = abc();
    launch(&mut build);
    finish(&mut build, "A", vec![exited(0)]);
    launch(&mut build);
    let reported = Docker::wait_result(exited(2));
    assert_eq!(
        reported,
        Err(Error::DockerContainerWaitError { error: String::new(), code: 2 })
    );
    finish(&mut build, "B", vec![reported]);
    assert_eq!(build.state, BuildState::BuildReady);
    assert!(build.fail_through);
    assert_eq!(
        build.completed_steps,
        vec![
            entry("A", StepResult::StepSucceeded),
            entry("B", StepResult::StepFailed(ContainerExitCode(2))),
        ]
    );

    // The next call skips C and asks nothing of the runtime.
    assert_eq!(build.progress(), BuildAction::Nothing);
    assert_eq!(build.state, BuildState::BuildReady);
    assert_eq!(build.completed_steps.len(), 3);
    assert_eq!(build.completed_steps[2], entry("C", StepResult::StepSkipped));

    assert_eq!(build.progress(), BuildAction::Nothing);
    assert_eq!(build.state, BuildState::BuildFinished(BuildResult::BuildSucceeded));
    assert_eq!(build.completed_steps.len(), 3);
    assert!(build.fail_through);
    assert!(!build.all_steps_succeeded());
}

#[test]
fn refused_create_ends_the_build() {
    let mut build = abc();
    launch(&mut build);
    finish(&mut build, "A", vec![exited(0)]);
    let ledger: CompletedSteps = build.completed_steps.clone();
    assert!(matches!(build.progress(), BuildAction::CreateContainer { .. }));
    let answer = Docker::process_into_value(500, b"{\"message\":\"no such image\"}");
    assert_eq!(
        answer,
        Err(Error::DockerResponseServerError {
            status_code: 500,
            message: "no such image".to_string()
        })
    );
    assert_eq!(build.container_created(answer), None);
    assert_eq!(build.state, BuildState::BuildFinished(BuildResult::BuildFailed));
    assert_eq!(build.completed_steps, ledger);
}

#[test]
fn refused_create_on_the_first_step_leaves_the_ledger_empty() {
    let mut build = abc();
    assert!(matches!(build.progress(), BuildAction::CreateContainer { .. }));
    let refused = Error::DockerResponseServerError { status_code: 404, message: String::new() };
    assert_eq!(build.container_created(Err(refused)), None);
    assert_eq!(build.state, BuildState::BuildFinished(BuildResult::BuildFailed));
    assert!(build.completed_steps.is_empty());
}

#[test]
fn refused_start_ends_the_build() {
    let mut build = abc();
    assert!(matches!(build.progress(), BuildAction::CreateContainer { .. }));
    assert_eq!(build.container_created(Ok(handle("abc"))), Some("abc".to_string()));
    assert_eq!(build.state, BuildState::BuildReady);
    build.container_started(Err(Error::RequestTimeoutError));
    assert_eq!(build.state, BuildState::BuildFinished(BuildResult::BuildFailed));
    assert!(build.completed_steps.is_empty());
}

#[test]
fn timeout_while_waiting_ends_the_build() {
    let mut build = abc();
    launch(&mut build);
    finish(&mut build, "A", vec![Err(Error::RequestTimeoutError)]);
    assert_eq!(build.state, BuildState::BuildFinished(BuildResult::BuildFailed));
    assert!(build.completed_steps.is_empty());
    assert!(!build.fail_through);
}

#[test]
fn broken_wait_record_ends_the_build() {
    let mut build = abc();
    launch(&mut build);
    let broken = Error::JsonDataError {
        message: "expected value".to_string(),
        column: 1,
        contents: "x".to_string(),
    };
    finish(&mut build, "A", vec![Err(broken)]);
    assert_eq!(build.state, BuildState::BuildFinished(BuildResult::BuildFailed));
    assert!(build.completed_steps.is_empty());
}

#[test]
fn nonzero_exit_on_the_normal_path_fails_the_step_only() {
    let mut build = abc();
    launch(&mut build);
    finish(&mut build, "A", vec![exited(-3)]);
    assert_eq!(build.state, BuildState::BuildReady);
    assert!(!build.fail_through);
    assert_eq!(
        build.completed_steps,
        vec![entry("A", StepResult::StepFailed(ContainerExitCode(-3)))]
    );
    // The latch is clear, so B runs.
    assert_eq!(launch(&mut build), "B");
}

#[test]
fn finished_build_does_not_move() {
    let mut build = abc();
    assert!(matches!(build.progress(), BuildAction::CreateContainer { .. }));
    build.container_created(Err(Error::RequestTimeoutError));
    let finished = build.clone();
    assert_eq!(build.progress(), BuildAction::Nothing);
    assert_eq!(build, finished);
    assert_eq!(build.container_created(Ok(handle("x"))), None);
    assert_eq!(build, finished);
    build.container_started(Ok(()));
    assert_eq!(build, finished);
    build.handle_running_state(vec![exited(0)]);
    assert_eq!(build, finished);
}

#[test]
fn only_the_first_outcome_of_a_wait_counts() {
    let mut build = abc();
    launch(&mut build);
    finish(&mut build, "A", vec![exited(0), exited(1), Err(Error::RequestTimeoutError)]);
    assert_eq!(build.state, BuildState::BuildReady);
    assert_eq!(build.completed_steps, vec![entry("A", StepResult::StepSucceeded)]);
}

#[test]
fn empty_wait_answer_changes_nothing() {
    let mut build = abc();
    launch(&mut build);
    let before = build.clone();
    finish(&mut build, "A", Vec::new());
    assert_eq!(build, before);
    assert_eq!(build.state, running("A"));
}

#[test]
fn answers_out_of_place_are_ignored() {
    let mut build = abc();
    launch(&mut build);
    let before = build.clone();
    assert_eq!(build.container_created(Ok(handle("x"))), None);
    build.container_started(Ok(()));
    build.container_started(Err(Error::RequestTimeoutError));
    assert_eq!(build, before);
    let mut ready = abc();
    ready.handle_running_state(vec![exited(0)]);
    assert_eq!(ready, abc());
}

#[test]
fn container_of_a_step() {
    let pipeline = Pipeline::from_vec(vec![Step::new(
        StepName::from("build"),
        NonEmpty::from(("make".to_string(), vec!["make test".to_string(), "ls".to_string()])),
        Image::from("rust:1"),
        Some(vec![StepName::from("never-run")]),
    )])
    .unwrap();
    let mut build = Build::new(pipeline, BuildState::BuildReady, Vec::new());
    let before = build.clone();
    let action = build.progress();
    assert_eq!(
        action,
        BuildAction::CreateContainer {
            options: CreateContainerOptions::new("build".to_string(), None),
            config: CreateContainerConfig::new(
                "rust:1".to_string(),
                true,
                vec![("nova".to_string(), String::new())],
                vec!["/bin/sh".to_string(), "-c".to_string()],
                "make make test ls".to_string(),
            ),
        }
    );
    assert_eq!(build, before);
}

#[test]
fn next_step_is_the_first_that_is_not_in_the_ledger() {
    let pipeline = Pipeline::from_vec(vec![step("A"), step("B"), step("C")]).unwrap();
    let ledger = vec![entry("C", StepResult::StepSucceeded), entry("A", StepResult::StepSkipped)];
    let build = Build::new(pipeline.clone(), BuildState::BuildReady, ledger);
    assert_eq!(build.next_step(), Some(step("B")));
    assert_eq!(build.has_next_step(), Ok(step("B")));
    let all = vec![
        entry("B", StepResult::StepSucceeded),
        entry("C", StepResult::StepSucceeded),
        entry("A", StepResult::StepSucceeded),
    ];
    let done = Build::new(pipeline, BuildState::BuildReady, all);
    assert_eq!(done.next_step(), None);
    assert_eq!(done.has_next_step(), Err(BuildResult::BuildSucceeded));
}

#[test]
fn dependencies_do_not_gate_a_step() {
    let gated = Step::new(
        StepName::from("deploy"),
        NonEmpty::new("uname".to_string()),
        Image::from("ubuntu:20.04"),
        Some(vec![StepName::from("test")]),
    );
    let pipeline = Pipeline::from_vec(vec![gated.clone()]).unwrap();
    let build = Build::new(pipeline, BuildState::BuildReady, Vec::new());
    assert_eq!(build.has_next_step(), Ok(gated));
}

#[test]
fn ledger_queries() {
    let ledger = vec![
        entry("A", StepResult::StepSucceeded),
        entry("B", StepResult::StepFailed(ContainerExitCode(1))),
    ];
    assert!(Build::find_completed_steps(&ledger, &StepName::from("A")));
    assert!(Build::find_completed_steps(&ledger, &StepName::from("B")));
    assert!(!Build::find_completed_steps(&ledger, &StepName::from("C")));
    assert!(!Build::find_completed_steps(&Vec::new(), &StepName::from("A")));
    assert!(Build::find_depends_on(&ledger, &vec![StepName::from("C"), StepName::from("B")]));
    assert!(!Build::find_depends_on(&ledger, &vec![StepName::from("C")]));
    assert!(!Build::find_depends_on(&ledger, &Vec::new()));
    let pipeline = Pipeline::from_vec(vec![step("A")]).unwrap();
    let build = Build::new(pipeline.clone(), BuildState::BuildReady, ledger);
    assert!(!build.all_steps_succeeded());
    let empty = Build::new(pipeline, BuildState::BuildReady, Vec::new());
    assert!(empty.all_steps_succeeded());
}

#[test]
fn latch_stays_set_and_ledger_only_grows() {
    let mut build = abc();
    launch(&mut build);
    let failure = Error::DockerContainerWaitError { error: "oom".to_string(), code: 137 };
    finish(&mut build, "A", vec![Err(failure)]);
    assert!(build.fail_through);
    let mut seen = build.completed_steps.clone();
    for _ in 0..5 {
        build.progress();
        assert!(build.fail_through);
        assert!(build.completed_steps.len() >= seen.len());
        assert_eq!(build.completed_steps[..seen.len()], seen[..]);
        seen = build.completed_steps.clone();
    }
    assert_eq!(
        seen,
        vec![
            entry("A", StepResult::StepFailed(ContainerExitCode(137))),
            entry("B", StepResult::StepSkipped),
            entry("C", StepResult::StepSkipped),
        ]
    );
    assert_eq!(build.state, BuildState::BuildFinished(BuildResult::BuildSucceeded));
}

#[test]
fn step_of_a_repeated_name_runs_once() {
    let pipeline = Pipeline::from_vec(vec![step("A"), step("A"), step("B")]).unwrap();
    let mut build = Build::new(pipeline, BuildState::BuildReady, Vec::new());
    assert_eq!(launch(&mut build), "A");
    finish(&mut build, "A", vec![exited(0)]);
    assert_eq!(launch(&mut build), "B");
}

#[test]
fn reported_failure_fails_the_step_whatever_its_code() {
    let mut build = abc();
    launch(&mut build);
    let failure = Error::DockerContainerWaitError { error: String::new(), code: 0 };
    finish(&mut build, "A", vec![Err(failure)]);
    assert!(build.fail_through);
    assert_eq!(build.state, BuildState::BuildReady);
    assert_eq!(
        build.completed_steps,
        vec![entry("A", StepResult::StepFailed(ContainerExitCode(0)))]
    );
}

#[test]
fn every_nonzero_record_sets_the_latch() {
    for code in [-1i64, 3, i64::MIN] {
        let mut build = abc();
        launch(&mut build);
        finish(&mut build, "A", vec![Docker::wait_result(exited(code))]);
        assert!(build.fail_through);
        assert_eq!(
            build.completed_steps,
            vec![entry("A", StepResult::StepFailed(ContainerExitCode(code)))]
        );
        assert_eq!(build.progress(), BuildAction::Nothing);
        assert_eq!(build.completed_steps[1], entry("B", StepResult::StepSkipped));
    }
    let mut build = abc();
    launch(&mut build);
    finish(&mut build, "A", vec![Docker::wait_result(exited(0))]);
    assert!(!build.fail_through);
    assert_eq!(build.completed_steps, vec![entry("A", StepResult::StepSucceeded)]);
}
