use nonempty::NonEmpty;
use nova::pipeline::{
    BuildResult, BuildRunningState, BuildState, ContainerExitCode, Image, Pipeline, Step, StepName,
    StepResult,
};

fn step(name: &str, command: &str) -> Step {
    Step::new(
        StepName::from(name),
        NonEmpty::new(command.to_string()),
        Image::from("ubuntu:20.04"),
        None,
    )
}

#[test]
fn exit_code_zero_is_success() {
    assert_eq!(StepResult::from(ContainerExitCode(0)), StepResult::StepSucceeded);
}

#[test]
fn any_other_exit_code_is_failure_with_that_code() {
    assert_eq!(
        StepResult::from(ContainerExitCode(2)),
        StepResult::StepFailed(ContainerExitCode(2))
    );
    assert_eq!(
        StepResult::from(ContainerExitCode(-1)),
        StepResult::StepFailed(ContainerExitCode(-1))
    );
    assert_eq!(
        StepResult::from(ContainerExitCode(i64::MAX)),
        StepResult::StepFailed(ContainerExitCode(i64::MAX))
    );
}

#[test]
fn exit_code_gives_its_number() {
    assert_eq!(i64::from(ContainerExitCode(137)), 137);
}

#[test]
fn empty_pipeline_is_refused() {
    assert!(Pipeline::from_vec(vec![]).is_none());
    assert!(Pipeline::from_vec(Vec::new()).is_none());
}

#[test]
fn pipeline_keeps_its_steps_in_order() {
    let pipeline = Pipeline::from_vec(vec![step("a", "date"), step("b", "ps")]).unwrap();
    assert_eq!(pipeline.steps.len(), 2);
    assert_eq!(pipeline.steps.head.name, StepName::from("a"));
    assert_eq!(pipeline.steps.tail[0].name, StepName::from("b"));
    assert_eq!(pipeline, Pipeline::new(NonEmpty::from((step("a", "date"), vec![step("b", "ps")]))));
}

#[test]
fn pipeline_of_one_step() {
    let pipeline = Pipeline::from_vec(vec![step("only", "true")]).unwrap();
    assert_eq!(pipeline.steps.len(), 1);
    assert_eq!(pipeline.steps.head, step("only", "true"));
}

#[test]
fn names_and_images_convert_to_and_from_text() {
    let name = StepName::from("build");
    assert_eq!(name.0, "build");
    assert_eq!(String::from(name), "build");
    let image = Image::from("ubuntu:20.04");
    assert_eq!(image.0, "ubuntu:20.04");
    assert_eq!(String::from(image), "ubuntu:20.04");
}

#[test]
fn step_keeps_its_parts() {
    let commands = NonEmpty::from(("make".to_string(), vec!["make test".to_string()]));
    let s = Step::new(
        StepName::from("test"),
        commands.clone(),
        Image::from("rust:1"),
        Some(vec![StepName::from("build")]),
    );
    assert_eq!(s.name, StepName::from("test"));
    assert_eq!(s.commands, commands);
    assert_eq!(s.image, Image::from("rust:1"));
    assert_eq!(s.depends_on, Some(vec![StepName::from("build")]));
}

#[test]
fn clones_are_equal() {
    let s = Step::new(
        StepName::from("test"),
        NonEmpty::from(("make".to_string(), vec!["make test".to_string(), "ls".to_string()])),
        Image::from("rust:1"),
        Some(vec![StepName::from("build"), StepName::from("lint")]),
    );
    assert_eq!(s.clone(), s);
    let pipeline = Pipeline::from_vec(vec![s.clone(), step("b", "ps"), step("c", "id")]).unwrap();
    assert_eq!(pipeline.clone(), pipeline);
    let state = BuildState::BuildRunning(BuildRunningState { step: StepName::from("b") });
    assert_eq!(state.clone(), state);
    assert_eq!(BuildState::BuildReady.clone(), BuildState::BuildReady);
    let finished = BuildState::BuildFinished(BuildResult::BuildFailed);
    assert_eq!(finished.clone(), finished);
    assert_eq!(StepResult::StepSkipped.clone(), StepResult::StepSkipped);
    let failed = StepResult::StepFailed(ContainerExitCode(3));
    assert_eq!(failed.clone(), failed);
}
