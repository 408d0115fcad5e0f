//! The build engine: a state machine over a pipeline.
//!
//! A build runs the steps of its pipeline one after the other, each in a
//! container of its own. The engine decides; it does not talk to the runtime.
//! `progress` says what to ask of the runtime next, and the caller hands the
//! answer to `container_created`, `container_started` or
//! `handle_running_state`.
//!
//! A finished build stays as it is: every call on it changes nothing.

use crate::docker::container::{
    CreateContainerConfig, CreateContainerConfigView, CreateContainerOptions,
    CreateContainerOptionsView, WaitContainerOptions,
};
use crate::docker::container::{wait_item_view, wait_outcome};
use crate::docker::errors::{Error, ErrorView};
use crate::docker::json::WaitRecord;
use crate::docker::utils::{join, joined};
use crate::pipeline::{
    result_of_exit, BuildResult, BuildRunningState, BuildState, BuildStateView, ContainerExitCode,
    Pipeline, Step, StepName, StepResult, StepView,
};
use bollard_stubs::models::{ContainerCreateResponse, ContainerWaitResponse};
use vstd::prelude::*;
use vstd::string::StringExecFns;

verus! {

/// The ledger of a build: each completed step with its outcome, in the order
/// of completion.
pub type CompletedSteps = Vec<(StepName, StepResult)>;

/// A ledger with its names as characters.
pub open spec fn ledger_view(ledger: Seq<(StepName, StepResult)>) -> Seq<(Seq<char>, StepResult)> {
    ledger.map_values(|entry: (StepName, StepResult)| (entry.0@, entry.1))
}

/// A build as the contracts see it.
pub struct BuildView {
    pub pipeline: Seq<StepView>,
    pub state: BuildStateView,
    pub completed_steps: Seq<(Seq<char>, StepResult)>,
    pub fail_through: bool,
}

/// Whether a ledger holds an entry of the given name.
pub open spec fn is_completed(ledger: Seq<(Seq<char>, StepResult)>, name: Seq<char>) -> bool {
    exists|i: int| 0 <= i < ledger.len() && (#[trigger] ledger[i]).0 == name
}

impl BuildView {
    /// Whether the step at `index` is the first of the pipeline whose name
    /// the ledger does not hold.
    pub open spec fn is_next(self, index: int) -> bool {
        &&& 0 <= index < self.pipeline.len()
        &&& !is_completed(self.completed_steps, self.pipeline[index].name)
        &&& forall|before: int|
            0 <= before < index ==> is_completed(
                self.completed_steps,
                (#[trigger] self.pipeline[before]).name,
            )
    }

    /// The place of the step to run next: the first in pipeline order whose
    /// name the ledger does not hold. What a step depends on is not asked.
    pub open spec fn next_index(self) -> Option<int> {
        if exists|index: int| self.is_next(index) {
            Some(choose|index: int| self.is_next(index))
        } else {
            None
        }
    }

    /// The build in another state.
    pub open spec fn with_state(self, state: BuildStateView) -> BuildView {
        BuildView { state, ..self }
    }

    /// The build with one more entry in its ledger.
    pub open spec fn with_entry(self, name: Seq<char>, result: StepResult) -> BuildView {
        BuildView { completed_steps: self.completed_steps.push((name, result)), ..self }
    }

    /// Whether the build is one that the engine can have brought about from
    /// a fresh one: no name stands twice in the ledger, the running step is
    /// not in the ledger, every skipped step comes after a failed one, and
    /// the latch is set only after a failed step.
    pub open spec fn wf(self) -> bool {
        &&& forall|i: int, j: int|
            0 <= i < j < self.completed_steps.len() ==> (#[trigger] self.completed_steps[i]).0 != (
            #[trigger] self.completed_steps[j]).0
        &&& self.state matches BuildStateView::Running(name) ==> !is_completed(
            self.completed_steps,
            name,
        )
        &&& forall|i: int|
            0 <= i < self.completed_steps.len() && (#[trigger] self.completed_steps[i]).1
                is StepSkipped ==> has_failure(self.completed_steps.take(i))
        &&& self.fail_through ==> has_failure(self.completed_steps)
    }
}

/// Whether a ledger holds a failed step.
pub open spec fn has_failure(ledger: Seq<(Seq<char>, StepResult)>) -> bool {
    exists|j: int| 0 <= j < ledger.len() && (#[trigger] ledger[j]).1 is StepFailed
}

/// Whether `after` can follow `before` in the life of a build: the pipeline
/// is the same, the ledger has only grown, a set latch is still set, and a
/// finished build has not changed at all.
pub open spec fn follows(before: BuildView, after: BuildView) -> bool {
    &&& after.pipeline == before.pipeline
    &&& before.completed_steps.len() <= after.completed_steps.len()
    &&& after.completed_steps.take(before.completed_steps.len() as int) == before.completed_steps
    &&& before.fail_through ==> after.fail_through
    &&& before.state is Finished ==> after == before
}

/// The text `nova`, the label that marks a container of a build.
pub open spec fn marker_label() -> Seq<char> {
    "nova"@
}

/// The text `/bin/sh`.
pub open spec fn shell() -> Seq<char> {
    "/bin/sh"@
}

/// The text `-c`.
pub open spec fn shell_flag() -> Seq<char> {
    "-c"@
}

/// The text `not-running`, the condition that a build waits for.
pub open spec fn not_running() -> Seq<char> {
    "not-running"@
}

/// The query that creates the container of a step: the container is named
/// after the step.
pub open spec fn launch_options(step: StepView) -> CreateContainerOptionsView {
    CreateContainerOptionsView { name: step.name, platform: None }
}

/// The body that creates the container of a step: the step's image, a
/// terminal, the marker label, a shell as the program, and the step's
/// commands, joined by blanks, as what the shell runs.
pub open spec fn launch_config(step: StepView) -> CreateContainerConfigView {
    CreateContainerConfigView {
        image: step.image,
        tty: true,
        labels: seq![(marker_label(), Seq::empty())],
        entry_point: seq![shell(), shell_flag()],
        cmd: joined(step.commands, " "@),
    }
}

/// What a build asks of the runtime, with its texts as characters.
pub enum BuildActionView {
    Nothing,
    CreateContainer { options: CreateContainerOptionsView, config: CreateContainerConfigView },
    WaitContainer { name: Seq<char>, condition: Seq<char> },
}

/// What a build asks of the runtime.
#[derive(Debug, PartialEq, Eq)]
pub enum BuildAction {
    /// Nothing: the build went on by itself, or is finished.
    Nothing,
    /// Create the container of the next step, and start it.
    CreateContainer { options: CreateContainerOptions, config: CreateContainerConfig },
    /// Wait for the container of the given name.
    WaitContainer { name: String, condition: WaitContainerOptions },
}

impl View for BuildAction {
    type V = BuildActionView;

    open spec fn view(&self) -> BuildActionView {
        match self {
            BuildAction::Nothing => BuildActionView::Nothing,
            BuildAction::CreateContainer { options, config } => BuildActionView::CreateContainer {
                options: options@,
                config: config@,
            },
            BuildAction::WaitContainer { name, condition } => BuildActionView::WaitContainer {
                name: name@,
                condition: condition.condition@,
            },
        }
    }
}

/// What a build asks of the runtime in its state: a container for the next
/// step where it is ready and the latch is clear, a wait for the running
/// step where one runs, and nothing otherwise.
pub open spec fn planned(build: BuildView) -> BuildActionView {
    match build.state {
        BuildStateView::Ready => match build.next_index() {
            Some(index) => if build.fail_through {
                BuildActionView::Nothing
            } else {
                BuildActionView::CreateContainer {
                    options: launch_options(build.pipeline[index]),
                    config: launch_config(build.pipeline[index]),
                }
            },
            None => BuildActionView::Nothing,
        },
        BuildStateView::Running(name) => BuildActionView::WaitContainer {
            name,
            condition: not_running(),
        },
        BuildStateView::Finished(_) => BuildActionView::Nothing,
    }
}

/// What a build becomes by itself. A ready build without a step left is
/// finished, and has succeeded whatever its steps came to. A ready build
/// whose latch is set records the next step as skipped. Every other build
/// stays as it is until the runtime has answered.
pub open spec fn progressed(build: BuildView) -> BuildView {
    match build.state {
        BuildStateView::Ready => match build.next_index() {
            Some(index) => if build.fail_through {
                build.with_entry(build.pipeline[index].name, StepResult::StepSkipped)
            } else {
                build
            },
            None => build.with_state(BuildStateView::Finished(BuildResult::BuildSucceeded)),
        },
        _ => build,
    }
}

/// What a ready build becomes when the runtime has answered the request to
/// create a container: it has failed where the runtime refused.
pub open spec fn created(build: BuildView, refused: bool) -> BuildView {
    if build.state is Ready && refused {
        build.with_state(BuildStateView::Finished(BuildResult::BuildFailed))
    } else {
        build
    }
}

/// What a ready build becomes when the runtime has answered the request to
/// start the container of the next step: it runs that step, or has failed
/// where the runtime refused.
pub open spec fn started(build: BuildView, refused: bool) -> BuildView {
    if build.state is Ready {
        if refused {
            build.with_state(BuildStateView::Finished(BuildResult::BuildFailed))
        } else {
            match build.next_index() {
                Some(index) => build.with_state(
                    BuildStateView::Running(build.pipeline[index].name),
                ),
                None => build,
            }
        }
    } else {
        build
    }
}

/// What a build that runs a step becomes by one item of the wait's answer.
/// A record gives the step the outcome of its exit code. A reported failure
/// of the container gives it that failure and sets the latch, and the build
/// goes on. Any other error ends the build as failed. A build that runs no
/// step takes no item.
pub open spec fn waited(build: BuildView, item: Result<WaitRecord, ErrorView>) -> BuildView {
    match build.state {
        BuildStateView::Running(name) => match item {
            Ok(record) => build.with_entry(name, result_of_exit(record.status_code)).with_state(
                BuildStateView::Ready,
            ),
            Err(ErrorView::DockerContainerWaitError { code, .. }) => BuildView {
                fail_through: true,
                ..build.with_entry(
                    name,
                    StepResult::StepFailed(ContainerExitCode(code)),
                ).with_state(BuildStateView::Ready)
            },
            Err(_) => build.with_state(BuildStateView::Finished(BuildResult::BuildFailed)),
        },
        _ => build,
    }
}

/// What a build becomes by the items of a wait's answer, one after the
/// other.
pub open spec fn waited_all(build: BuildView, items: Seq<Result<WaitRecord, ErrorView>>) -> BuildView
    decreases items.len(),
{
    if items.len() == 0 {
        build
    } else {
        waited_all(waited(build, items[0]), items.skip(1))
    }
}

/// The items of a wait's answer as the contracts see them.
pub open spec fn wait_items_view(items: Seq<Result<ContainerWaitResponse, Error>>) -> Seq<
    Result<WaitRecord, ErrorView>,
> {
    items.map_values(|item: Result<ContainerWaitResponse, Error>| wait_item_view(item))
}

/// There is one next step at most.
pub proof fn lemma_next_is(build: BuildView, index: int)
    requires
        build.is_next(index),
    ensures
        build.next_index() == Some(index),
{
    let other = choose|i: int| build.is_next(i);
    assert(build.is_next(other));
    if other < index {
        assert(is_completed(build.completed_steps, build.pipeline[other].name));
    } else if index < other {
        assert(is_completed(build.completed_steps, build.pipeline[index].name));
    }
}

/// A pipeline whose every name is in the ledger has no next step.
pub proof fn lemma_next_none(build: BuildView)
    requires
        forall|index: int|
            0 <= index < build.pipeline.len() ==> is_completed(
                build.completed_steps,
                (#[trigger] build.pipeline[index]).name,
            ),
    ensures
        build.next_index() is None,
{
    if exists|index: int| build.is_next(index) {
        let index = choose|index: int| build.is_next(index);
        assert(is_completed(build.completed_steps, build.pipeline[index].name));
    }
}

/// One more entry under a name that the ledger does not hold yet keeps a
/// build well-formed, where a skipped step is entered only after a failed
/// one.
pub proof fn lemma_entry_keeps_wf(build: BuildView, name: Seq<char>, result: StepResult)
    requires
        build.wf(),
        !is_completed(build.completed_steps, name),
        !(build.state is Running),
        result is StepSkipped ==> has_failure(build.completed_steps),
    ensures
        build.with_entry(name, result).wf(),
        follows(build, build.with_entry(name, result)) || build.state is Finished,
{
    let after = build.with_entry(name, result);
    let old_len = build.completed_steps.len() as int;
    assert(after.completed_steps.take(old_len) =~= build.completed_steps);
    assert forall|i: int, j: int| 0 <= i < j < after.completed_steps.len() implies (
    #[trigger] after.completed_steps[i]).0 != (#[trigger] after.completed_steps[j]).0 by {
        if j == old_len {
            assert(build.completed_steps[i].0 != name);
        } else {
            assert(after.completed_steps[i] == build.completed_steps[i]);
            assert(after.completed_steps[j] == build.completed_steps[j]);
        }
    }
    assert forall|i: int|
        0 <= i < after.completed_steps.len() && (#[trigger] after.completed_steps[i]).1
            is StepSkipped implies has_failure(after.completed_steps.take(i)) by {
        if i == old_len {
            assert(after.completed_steps.take(i) =~= build.completed_steps);
        } else {
            assert(after.completed_steps[i] == build.completed_steps[i]);
            assert(after.completed_steps.take(i) =~= build.completed_steps.take(i));
        }
    }
    if build.fail_through {
        let j = choose|j: int|
            0 <= j < build.completed_steps.len() && (#[trigger] build.completed_steps[j]).1
                is StepFailed;
        assert(after.completed_steps[j] == build.completed_steps[j]);
    }
}

/// What a build becomes by itself is well-formed where the build was, and
/// can follow it.
pub proof fn lemma_progressed(build: BuildView)
    ensures
        follows(build, progressed(build)),
        build.wf() ==> progressed(build).wf(),
{
    let after = progressed(build);
    assert(build.completed_steps.take(build.completed_steps.len() as int)
        =~= build.completed_steps);
    if build.state is Ready {
        match build.next_index() {
            Some(index) => {
                if build.fail_through {
                    assert(build.is_next(index));
                    assert(after.completed_steps.take(build.completed_steps.len() as int)
                        =~= build.completed_steps);
                    if build.wf() {
                        lemma_entry_keeps_wf(
                            build,
                            build.pipeline[index].name,
                            StepResult::StepSkipped,
                        );
                    }
                }
            },
            None => {},
        }
    }
}

/// What a build becomes by the answer to a request to create a container is
/// well-formed where the build was, and can follow it.
pub proof fn lemma_created(build: BuildView, refused: bool)
    ensures
        follows(build, created(build, refused)),
        build.wf() ==> created(build, refused).wf(),
{
    assert(build.completed_steps.take(build.completed_steps.len() as int)
        =~= build.completed_steps);
}

/// What a build becomes by the answer to a request to start a container is
/// well-formed where the build was, and can follow it.
pub proof fn lemma_started(build: BuildView, refused: bool)
    ensures
        follows(build, started(build, refused)),
        build.wf() ==> started(build, refused).wf(),
{
    assert(build.completed_steps.take(build.completed_steps.len() as int)
        =~= build.completed_steps);
    if build.state is Ready && !refused {
        match build.next_index() {
            Some(index) => {
                assert(build.is_next(index));
            },
            None => {},
        }
    }
}

/// What a build becomes by an item of a wait's answer is well-formed where
/// the build was, and can follow it.
pub proof fn lemma_waited(build: BuildView, item: Result<WaitRecord, ErrorView>)
    ensures
        follows(build, waited(build, item)),
        build.wf() ==> waited(build, item).wf(),
{
    let after = waited(build, item);
    let old_len = build.completed_steps.len() as int;
    assert(build.completed_steps.take(old_len) =~= build.completed_steps);
    match build.state {
        BuildStateView::Running(name) => {
            let ready = build.with_state(BuildStateView::Ready);
            match item {
                Ok(record) => {
                    let result = result_of_exit(record.status_code);
                    assert(after == ready.with_entry(name, result));
                    assert(after.completed_steps.take(old_len) =~= build.completed_steps);
                    if build.wf() {
                        lemma_entry_keeps_wf(ready, name, result);
                    }
                },
                Err(ErrorView::DockerContainerWaitError { code, .. }) => {
                    let result = StepResult::StepFailed(ContainerExitCode(code));
                    let entered = ready.with_entry(name, result);
                    assert(after == BuildView { fail_through: true, ..entered });
                    assert(after.completed_steps.take(old_len) =~= build.completed_steps);
                    if build.wf() {
                        lemma_entry_keeps_wf(ready, name, result);
                        assert(entered.completed_steps[old_len].1 is StepFailed);
                    }
                },
                Err(_) => {},
            }
        },
        _ => {},
    }
}

/// A wait record as the gateway hands it on decides the step and the latch.
/// The step that runs gets the outcome of the record's exit code, and the
/// build is ready again. Any exit code other than zero sets the latch, so
/// that every step behind it is skipped; the exit code zero leaves the latch
/// as it is.
pub proof fn lemma_wait_record(build: BuildView, name: Seq<char>, record: WaitRecord)
    requires
        build.state == BuildStateView::Running(name),
    ensures
        waited(build, wait_outcome(record)) == (BuildView {
            state: BuildStateView::Ready,
            completed_steps: build.completed_steps.push(
                (name, result_of_exit(record.status_code)),
            ),
            fail_through: build.fail_through || record.status_code != 0,
            ..build
        }),
{
}

/// `follows` links up.
pub proof fn lemma_follows_trans(first: BuildView, second: BuildView, third: BuildView)
    requires
        follows(first, second),
        follows(second, third),
    ensures
        follows(first, third),
{
    assert(third.completed_steps.take(first.completed_steps.len() as int) =~= second.completed_steps.take(
        first.completed_steps.len() as int,
    ));
}

/// What a build becomes by the items of a wait's answer is well-formed where
/// the build was, and can follow it.
pub proof fn lemma_waited_all(build: BuildView, items: Seq<Result<WaitRecord, ErrorView>>)
    ensures
        follows(build, waited_all(build, items)),
        build.wf() ==> waited_all(build, items).wf(),
    decreases items.len(),
{
    if items.len() == 0 {
        assert(build.completed_steps.take(build.completed_steps.len() as int)
            =~= build.completed_steps);
    } else {
        lemma_waited(build, items[0]);
        lemma_waited_all(waited(build, items[0]), items.skip(1));
        lemma_follows_trans(build, waited(build, items[0]), waited_all(build, items));
    }
}

/// Whether no two steps of a pipeline have the same name.
pub open spec fn distinct_names(pipeline: Seq<StepView>) -> bool {
    forall|i: int, j: int|
        0 <= i < j < pipeline.len() ==> (#[trigger] pipeline[i]).name != (#[trigger] pipeline[j]).name
}

/// The ledger in which the first steps of a pipeline have the given
/// outcomes, one after the other.
pub open spec fn ledger_of(pipeline: Seq<StepView>, results: Seq<StepResult>) -> Seq<
    (Seq<char>, StepResult),
> {
    Seq::new(results.len(), |i: int| (pipeline[i].name, results[i]))
}

/// Whether a build stands between two steps with the first steps of its
/// pipeline done, in their order and with the given outcomes.
pub open spec fn stands_after(build: BuildView, results: Seq<StepResult>) -> bool {
    &&& build.state is Ready
    &&& distinct_names(build.pipeline)
    &&& results.len() <= build.pipeline.len()
    &&& build.completed_steps == ledger_of(build.pipeline, results)
}

/// A wait record of an exit code and nothing else.
pub open spec fn exit_record(code: i64) -> WaitRecord {
    WaitRecord { status_code: code, error: None }
}

/// What a build becomes by a whole round for one step: the build goes on by
/// itself, the container is created and started without a failure, and the
/// wait is answered by one item.
pub open spec fn round(build: BuildView, item: Result<WaitRecord, ErrorView>) -> BuildView {
    waited(started(created(progressed(build), false), false), item)
}

/// What a fresh build becomes when the first `count` steps have each run
/// and exited with zero.
pub open spec fn after_successes(build: BuildView, count: nat) -> BuildView
    decreases count,
{
    if count == 0 {
        build
    } else {
        round(after_successes(build, (count - 1) as nat), Ok(exit_record(0)))
    }
}

/// What a build becomes by going on by itself `count` times.
pub open spec fn progressed_times(build: BuildView, count: nat) -> BuildView
    decreases count,
{
    if count == 0 {
        build
    } else {
        progressed(progressed_times(build, (count - 1) as nat))
    }
}

/// The next step of a build that stands between two steps is the first one
/// that is not done, and there is none when all are done.
pub proof fn lemma_next_after(build: BuildView, results: Seq<StepResult>)
    requires
        stands_after(build, results),
    ensures
        results.len() < build.pipeline.len() ==> build.next_index() == Some(results.len() as int),
        results.len() == build.pipeline.len() ==> build.next_index() is None,
{
    let done = results.len() as int;
    let ledger = build.completed_steps;
    assert forall|index: int| 0 <= index < done implies is_completed(
        ledger,
        (#[trigger] build.pipeline[index]).name,
    ) by {
        assert(ledger[index].0 == build.pipeline[index].name);
    }
    if done < build.pipeline.len() {
        if is_completed(ledger, build.pipeline[done].name) {
            let i = choose|i: int|
                0 <= i < ledger.len() && (#[trigger] ledger[i]).0 == build.pipeline[done].name;
            assert(build.pipeline[i].name != build.pipeline[done].name);
        }
        lemma_next_is(build, done);
    } else {
        lemma_next_none(build);
    }
}

/// A round for a step. A build that stands between two steps with a clear
/// latch asks for the container of the first step that is not done, and
/// waits for the container of that name. A record gives the step the outcome
/// of its exit code; a reported failure of the container gives it that
/// failure and sets the latch. Either way the build then stands behind that
/// step, and every earlier entry of the ledger is as it was.
pub proof fn lemma_round(
    build: BuildView,
    results: Seq<StepResult>,
    item: Result<WaitRecord, ErrorView>,
)
    requires
        stands_after(build, results),
        !build.fail_through,
        results.len() < build.pipeline.len(),
    ensures
        planned(build) == (BuildActionView::CreateContainer {
            options: launch_options(build.pipeline[results.len() as int]),
            config: launch_config(build.pipeline[results.len() as int]),
        }),
        planned(started(created(progressed(build), false), false)) == (
        BuildActionView::WaitContainer {
            name: build.pipeline[results.len() as int].name,
            condition: not_running(),
        }),
        item matches Ok(record) ==> stands_after(
            round(build, item),
            results.push(result_of_exit(record.status_code)),
        ) && !round(build, item).fail_through,
        item matches Err(ErrorView::DockerContainerWaitError { code, .. }) ==> stands_after(
            round(build, item),
            results.push(StepResult::StepFailed(ContainerExitCode(code))),
        ) && round(build, item).fail_through,
        item is Err && !(item matches Err(ErrorView::DockerContainerWaitError { .. })) ==> round(
            build,
            item,
        ) == build.with_state(BuildStateView::Finished(BuildResult::BuildFailed)),
{
    lemma_next_after(build, results);
    let done = results.len() as int;
    let name = build.pipeline[done].name;
    let running = build.with_state(BuildStateView::Running(name));
    assert(started(created(progressed(build), false), false) == running);
    match item {
        Ok(record) => {
            let next = results.push(result_of_exit(record.status_code));
            assert(round(build, item).completed_steps =~= ledger_of(build.pipeline, next));
        },
        Err(ErrorView::DockerContainerWaitError { code, .. }) => {
            let next = results.push(StepResult::StepFailed(ContainerExitCode(code)));
            assert(round(build, item).completed_steps =~= ledger_of(build.pipeline, next));
        },
        Err(_) => {},
    }
}

/// A runtime that refuses to create or to start a container ends the build
/// at once as failed, and the ledger is as it was.
pub proof fn lemma_refused(build: BuildView)
    requires
        build.state is Ready,
    ensures
        created(progressed(build), true).completed_steps == progressed(build).completed_steps,
        progressed(build).state is Ready ==> created(progressed(build), true).state
            == BuildStateView::Finished(BuildResult::BuildFailed),
        started(build, true) == build.with_state(
            BuildStateView::Finished(BuildResult::BuildFailed),
        ),
{
}

/// With the latch set, a build that stands between two steps records the
/// first step that is not done as skipped, asks nothing of the runtime, and
/// stands behind that step.
pub proof fn lemma_skip(build: BuildView, results: Seq<StepResult>)
    requires
        stands_after(build, results),
        build.fail_through,
        results.len() < build.pipeline.len(),
    ensures
        planned(build) == BuildActionView::Nothing,
        stands_after(progressed(build), results.push(StepResult::StepSkipped)),
        progressed(build).fail_through,
{
    lemma_next_after(build, results);
    let next = results.push(StepResult::StepSkipped);
    assert(progressed(build).completed_steps =~= ledger_of(build.pipeline, next));
}

/// A build that stands behind its last step is finished by its next
/// transition, and has succeeded whatever its steps came to.
pub proof fn lemma_finish(build: BuildView, results: Seq<StepResult>)
    requires
        stands_after(build, results),
        results.len() == build.pipeline.len(),
    ensures
        planned(build) == BuildActionView::Nothing,
        progressed(build) == build.with_state(
            BuildStateView::Finished(BuildResult::BuildSucceeded),
        ),
{
    lemma_next_after(build, results);
}

/// Where every step exits with zero, the steps are done in the order of the
/// pipeline, each has succeeded, and the latch stays clear.
pub proof fn lemma_after_successes(build: BuildView, count: nat)
    requires
        stands_after(build, Seq::empty()),
        !build.fail_through,
        count <= build.pipeline.len(),
    ensures
        stands_after(
            after_successes(build, count),
            Seq::new(count, |i: int| StepResult::StepSucceeded),
        ),
        !after_successes(build, count).fail_through,
        after_successes(build, count).pipeline == build.pipeline,
    decreases count,
{
    let all = Seq::new(count, |i: int| StepResult::StepSucceeded);
    if count == 0 {
        assert(all =~= Seq::<StepResult>::empty());
    } else {
        let before = after_successes(build, (count - 1) as nat);
        let earlier = Seq::new((count - 1) as nat, |i: int| StepResult::StepSucceeded);
        lemma_after_successes(build, (count - 1) as nat);
        lemma_round(before, earlier, Ok(exit_record(0)));
        assert(earlier.push(result_of_exit(0)) =~= all);
        lemma_progressed(before);
        lemma_created(progressed(before), false);
        lemma_started(created(progressed(before), false), false);
        lemma_waited(started(created(progressed(before), false), false), Ok(exit_record(0)));
    }
}

/// A build of steps of distinct names whose every container exits with zero
/// ends as succeeded, with every step in the ledger as succeeded, in the
/// order of the pipeline.
pub proof fn lemma_all_succeed(build: BuildView)
    requires
        stands_after(build, Seq::empty()),
        !build.fail_through,
    ensures
        ({
            let end = progressed(after_successes(build, build.pipeline.len()));
            &&& end.state == BuildStateView::Finished(BuildResult::BuildSucceeded)
            &&& end.completed_steps == ledger_of(
                build.pipeline,
                Seq::new(build.pipeline.len(), |i: int| StepResult::StepSucceeded),
            )
            &&& !end.fail_through
        }),
{
    let count = build.pipeline.len();
    lemma_after_successes(build, count);
    lemma_finish(
        after_successes(build, count),
        Seq::new(count, |i: int| StepResult::StepSucceeded),
    );
}

/// Once the latch is set, every step that is not done is skipped, in the
/// order of the pipeline and without a request to the runtime, and the build
/// then ends as succeeded.
pub proof fn lemma_skip_rest(build: BuildView, results: Seq<StepResult>, count: nat)
    requires
        stands_after(build, results),
        build.fail_through,
        results.len() + count <= build.pipeline.len(),
    ensures
        stands_after(
            progressed_times(build, count),
            results + Seq::new(count, |i: int| StepResult::StepSkipped),
        ),
        progressed_times(build, count).fail_through,
        progressed_times(build, count).pipeline == build.pipeline,
        forall|earlier: nat|
            earlier < count ==> planned(#[trigger] progressed_times(build, earlier))
                == BuildActionView::Nothing,
        results.len() + count == build.pipeline.len() ==> progressed(
            progressed_times(build, count),
        ).state == BuildStateView::Finished(BuildResult::BuildSucceeded),
    decreases count,
{
    let skipped = Seq::new(count, |i: int| StepResult::StepSkipped);
    if count == 0 {
        assert(results + skipped =~= results);
    } else {
        let before = progressed_times(build, (count - 1) as nat);
        let fewer = Seq::new((count - 1) as nat, |i: int| StepResult::StepSkipped);
        lemma_skip_rest(build, results, (count - 1) as nat);
        lemma_skip(before, results + fewer);
        lemma_progressed(before);
        assert((results + fewer).push(StepResult::StepSkipped) =~= results + skipped);
        assert forall|earlier: nat| earlier < count implies planned(
            #[trigger] progressed_times(build, earlier),
        ) == BuildActionView::Nothing by {
            if earlier == count - 1 {
            }
        }
    }
    if results.len() + count == build.pipeline.len() {
        lemma_finish(progressed_times(build, count), results + skipped);
    }
}

/// One run of a pipeline.
#[derive(Debug, PartialEq, Eq)]
pub struct Build {
    pub pipeline: Pipeline,
    pub state: BuildState,
    pub completed_steps: CompletedSteps,
    pub fail_through: bool,
}

impl View for Build {
    type V = BuildView;

    open spec fn view(&self) -> BuildView {
        BuildView {
            pipeline: self.pipeline@,
            state: self.state@,
            completed_steps: ledger_view(self.completed_steps@),
            fail_through: self.fail_through,
        }
    }
}

impl Clone for Build {
    fn clone(&self) -> (res: Build)
        ensures
            res@ == self@,
    {
        let mut completed_steps: CompletedSteps = Vec::new();
        let mut i: usize = 0;
        while i < self.completed_steps.len()
            invariant
                i <= self.completed_steps.len(),
                completed_steps@.len() == i,
                forall|k: int|
                    0 <= k < i ==> completed_steps@[k].0@ == self.completed_steps@[k].0@
                        && completed_steps@[k].1 == self.completed_steps@[k].1,
            decreases self.completed_steps.len() - i,
        {
            completed_steps.push(
                (self.completed_steps[i].0.clone(), self.completed_steps[i].1.clone()),
            );
            i += 1;
        }
        assert(ledger_view(completed_steps@) =~= ledger_view(self.completed_steps@));
        Build {
            pipeline: self.pipeline.clone(),
            state: self.state.clone(),
            completed_steps,
            fail_through: self.fail_through,
        }
    }
}

impl Build {
    /// A build of the given parts, with its latch clear. A build that is
    /// ready and has an empty ledger is well-formed.
    pub fn new(pipeline: Pipeline, state: BuildState, completed_steps: CompletedSteps) -> (res:
        Build)
        ensures
            res.pipeline == pipeline,
            res.state == state,
            res.completed_steps == completed_steps,
            !res.fail_through,
            state is BuildReady && completed_steps@.len() == 0 ==> res@.wf(),
    {
        Build { pipeline, state, completed_steps, fail_through: false }
    }

    /// Tells whether a ledger holds an entry of the given name.
    pub fn find_completed_steps(completed_steps: &CompletedSteps, step_name_to_match: &StepName) -> (res:
        bool)
        ensures
            res == is_completed(ledger_view(completed_steps@), step_name_to_match@),
    {
        let ghost ledger = ledger_view(completed_steps@);
        let mut i: usize = 0;
        while i < completed_steps.len()
            invariant
                i <= completed_steps.len(),
                ledger == ledger_view(completed_steps@),
                forall|k: int| 0 <= k < i ==> (#[trigger] ledger[k]).0 != step_name_to_match@,
            decreases completed_steps.len() - i,
        {
            if completed_steps[i].0.0 == step_name_to_match.0 {
                assert(ledger[i as int].0 == step_name_to_match@);
                return true;
            }
            i += 1;
        }
        false
    }

    /// The step to run next: the first in pipeline order whose name the
    /// ledger does not hold.
    pub fn next_step(&self) -> (res: Option<Step>)
        ensures
            match res {
                Some(step) => self@.next_index() matches Some(index) && step@
                    == self@.pipeline[index],
                None => self@.next_index() is None,
            },
    {
        let steps = &self.pipeline.steps;
        let ghost build = self@;
        assert(build.pipeline[0] == steps.head@);
        if !Build::find_completed_steps(&self.completed_steps, &steps.head.name) {
            proof {
                lemma_next_is(build, 0);
            }
            return Some(steps.head.clone());
        }
        let mut i: usize = 0;
        while i < steps.tail.len()
            invariant
                i <= steps.tail.len(),
                build == self@,
                steps == &self.pipeline.steps,
                forall|before: int|
                    0 <= before <= i ==> is_completed(
                        build.completed_steps,
                        (#[trigger] build.pipeline[before]).name,
                    ),
            decreases steps.tail.len() - i,
        {
            assert(build.pipeline[i + 1] == steps.tail@[i as int]@);
            if !Build::find_completed_steps(&self.completed_steps, &steps.tail[i].name) {
                proof {
                    lemma_next_is(build, i + 1);
                }
                return Some(steps.tail[i].clone());
            }
            i += 1;
        }
        proof {
            lemma_next_none(build);
        }
        None
    }

    /// Tells whether every step in the ledger has succeeded.
    pub fn all_steps_succeeded(&self) -> (res: bool)
        ensures
            res == forall|i: int|
                0 <= i < self@.completed_steps.len() ==> (#[trigger] self@.completed_steps[i]).1
                    is StepSucceeded,
    {
        let ghost ledger = self@.completed_steps;
        let mut i: usize = 0;
        while i < self.completed_steps.len()
            invariant
                i <= self.completed_steps.len(),
                ledger == ledger_view(self.completed_steps@),
                forall|k: int| 0 <= k < i ==> (#[trigger] ledger[k]).1 is StepSucceeded,
            decreases self.completed_steps.len() - i,
        {
            match self.completed_steps[i].1 {
                StepResult::StepSucceeded => {},
                _ => {
                    assert(!(ledger[i as int].1 is StepSucceeded));
                    return false;
                },
            }
            i += 1;
        }
        true
    }

    /// Tells whether a ledger holds an entry of one of the given names.
    pub fn find_depends_on(completed_steps: &CompletedSteps, step_depends_on: &Vec<StepName>) -> (res:
        bool)
        ensures
            res == exists|i: int|
                0 <= i < step_depends_on@.len() && is_completed(
                    ledger_view(completed_steps@),
                    (#[trigger] step_depends_on@[i])@,
                ),
    {
        let mut i: usize = 0;
        while i < step_depends_on.len()
            invariant
                i <= step_depends_on.len(),
                forall|k: int|
                    0 <= k < i ==> !is_completed(
                        ledger_view(completed_steps@),
                        (#[trigger] step_depends_on@[k])@,
                    ),
            decreases step_depends_on.len() - i,
        {
            if Build::find_completed_steps(completed_steps, &step_depends_on[i]) {
                return true;
            }
            i += 1;
        }
        false
    }

    /// The step to run next, or the result of the build where no step is
    /// left: success, whatever the steps came to.
    pub fn has_next_step(&self) -> (res: Result<Step, BuildResult>)
        ensures
            match res {
                Ok(step) => self@.next_index() matches Some(index) && step@
                    == self@.pipeline[index],
                Err(result) => self@.next_index() is None && result == BuildResult::BuildSucceeded,
            },
    {
        match self.next_step() {
            Some(step) => Ok(step),
            None => Err(BuildResult::BuildSucceeded),
        }
    }

    /// What to ask of the runtime for a step: a container named after the
    /// step, of the step's image, that runs the step's commands in a shell.
    pub fn launch(step: Step) -> (res: BuildAction)
        ensures
            res@ == (BuildActionView::CreateContainer {
                options: launch_options(step@),
                config: launch_config(step@),
            }),
            res matches BuildAction::CreateContainer { config, .. } && config.wf(),
    {
        proof {
            reveal_strlit("");
            assert(""@ =~= Seq::<char>::empty());
        }
        let commands: Vec<String> = Vec::from(step.commands);
        let commands = join(&commands, " ");
        let mut labels: Vec<(String, String)> = Vec::new();
        labels.push((String::from_str("nova"), String::from_str("")));
        let mut entry_point: Vec<String> = Vec::new();
        entry_point.push(String::from_str("/bin/sh"));
        entry_point.push(String::from_str("-c"));
        let options = CreateContainerOptions::new(step.name.0, None);
        let config = CreateContainerConfig::new(step.image.0, true, labels, entry_point, commands);
        assert(config@.labels =~= launch_config(step@).labels);
        assert(config@.entry_point =~= launch_config(step@).entry_point);
        BuildAction::CreateContainer { options, config }
    }

    /// Takes the build one step on and says what to ask of the runtime. The
    /// build goes on by itself as `progressed` says; what is asked is what
    /// `planned` says of the build before the call.
    pub fn progress(&mut self) -> (res: BuildAction)
        ensures
            final(self)@ == progressed(old(self)@),
            res@ == planned(old(self)@),
            follows(old(self)@, final(self)@),
            old(self)@.wf() ==> final(self)@.wf(),
    {
        proof {
            lemma_progressed(self@);
        }
        match &self.state {
            BuildState::BuildReady => match self.has_next_step() {
                Ok(step) => {
                    if !self.fail_through {
                        Build::launch(step)
                    } else {
                        self.completed_steps.push((step.name, StepResult::StepSkipped));
                        self.state = BuildState::BuildReady;
                        assert(self@.completed_steps =~= progressed(old(self)@).completed_steps);
                        BuildAction::Nothing
                    }
                },
                Err(res) => {
                    self.state = BuildState::BuildFinished(res);
                    BuildAction::Nothing
                },
            },
            BuildState::BuildRunning(state) => {
                BuildAction::WaitContainer {
                    name: state.step.0.clone(),
                    condition: WaitContainerOptions::new(String::from_str("not-running")),
                }
            },
            BuildState::BuildFinished(_) => BuildAction::Nothing,
        }
    }

    /// Takes the runtime's answer to the request to create a container. A
    /// ready build hands out the id of the container to start, or has failed
    /// where the runtime refused. Any other build takes no answer.
    pub fn container_created(&mut self, answer: Result<ContainerCreateResponse, Error>) -> (res:
        Option<String>)
        ensures
            final(self)@ == created(old(self)@, answer is Err),
            match res {
                Some(id) => old(self)@.state is Ready && (answer matches Ok(response) && id@
                    == response.id@),
                None => !(old(self)@.state is Ready) || answer is Err,
            },
            follows(old(self)@, final(self)@),
            old(self)@.wf() ==> final(self)@.wf(),
    {
        proof {
            lemma_created(self@, answer is Err);
        }
        match &self.state {
            BuildState::BuildReady => match answer {
                Ok(container) => Some(container.id),
                Err(_) => {
                    self.state = BuildState::BuildFinished(BuildResult::BuildFailed);
                    None
                },
            },
            _ => None,
        }
    }

    /// Takes the runtime's answer to the request to start the container of
    /// the next step. A ready build runs that step from now on, or has failed
    /// where the runtime refused. Any other build takes no answer.
    pub fn container_started(&mut self, answer: Result<(), Error>)
        ensures
            final(self)@ == started(old(self)@, answer is Err),
            follows(old(self)@, final(self)@),
            old(self)@.wf() ==> final(self)@.wf(),
    {
        proof {
            lemma_started(self@, answer is Err);
        }
        match &self.state {
            BuildState::BuildReady => match answer {
                Ok(_) => match self.next_step() {
                    Some(step) => {
                        self.state = BuildState::BuildRunning(BuildRunningState { step: step.name });
                    },
                    None => {},
                },
                Err(_) => {
                    self.state = BuildState::BuildFinished(BuildResult::BuildFailed);
                },
            },
            _ => {},
        }
    }

    /// Takes one item of the answer to a wait, as `waited` says.
    pub fn handle_wait_item(&mut self, item: &Result<ContainerWaitResponse, Error>)
        ensures
            final(self)@ == waited(old(self)@, wait_item_view(*item)),
            follows(old(self)@, final(self)@),
            old(self)@.wf() ==> final(self)@.wf(),
    {
        proof {
            lemma_waited(self@, wait_item_view(*item));
        }
        let name = match &self.state {
            BuildState::BuildRunning(state) => state.step.clone(),
            _ => {
                return ;
            },
        };
        match item {
            Ok(res) => {
                let exit = ContainerExitCode(res.status_code);
                let result: StepResult = StepResult::from(exit);
                self.state = BuildState::BuildReady;
                self.completed_steps.push((name, result));
                assert(self@.completed_steps =~= waited(
                    old(self)@,
                    wait_item_view(*item),
                ).completed_steps);
            },
            Err(Error::DockerContainerWaitError { code, .. }) => {
                self.fail_through = true;
                let result = StepResult::StepFailed(ContainerExitCode(*code));
                self.state = BuildState::BuildReady;
                self.completed_steps.push((name, result));
                assert(self@.completed_steps =~= waited(
                    old(self)@,
                    wait_item_view(*item),
                ).completed_steps);
            },
            Err(_) => {
                self.state = BuildState::BuildFinished(BuildResult::BuildFailed);
            },
        }
    }

    /// Takes the answer to a wait, item by item in their order, as
    /// `waited_all` says.
    pub fn handle_running_state(&mut self, wait: Vec<Result<ContainerWaitResponse, Error>>)
        ensures
            final(self)@ == waited_all(old(self)@, wait_items_view(wait@)),
            follows(old(self)@, final(self)@),
            old(self)@.wf() ==> final(self)@.wf(),
    {
        let ghost items = wait_items_view(wait@);
        proof {
            lemma_waited_all(self@, items);
            assert(items.skip(0) =~= items);
        }
        let mut i: usize = 0;
        while i < wait.len()
            invariant
                i <= wait.len(),
                items == wait_items_view(wait@),
                waited_all(self@, items.skip(i as int)) == waited_all(old(self)@, items),
            decreases wait.len() - i,
        {
            assert(items.skip(i as int)[0] == wait_item_view(wait@[i as int]));
            assert(items.skip(i as int).skip(1) =~= items.skip(i + 1));
            self.handle_wait_item(&wait[i]);
            i += 1;
        }
    }
}

} // verus!
