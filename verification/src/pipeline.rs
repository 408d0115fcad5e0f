//! The data model of a build: steps, pipelines and their outcomes.
//!
//! Everything here is plain data. The contracts speak of these types through
//! their views, in which every string is a sequence of characters and every
//! list a sequence.

pub mod engine;

use nonempty::NonEmpty;
use vstd::prelude::*;
use vstd::std_specs::convert::FromSpecImpl;

verus! {

/// `nonempty::NonEmpty`: a first item and the items after it. Verus reads the
/// two public fields of the type as they are declared.
#[verifier::external_type_specification]
#[verifier::reject_recursive_types(T)]
pub struct ExNonEmpty<T>(NonEmpty<T>);

/// The items of a non-empty list in order: the head, then the tail.
pub open spec fn items<T>(list: NonEmpty<T>) -> Seq<T> {
    seq![list.head] + list.tail@
}

/// `NonEmpty::from_vec` refuses an empty vector and otherwise keeps every
/// item in its place.
pub assume_specification<T>[ NonEmpty::<T>::from_vec ](vec: Vec<T>) -> (res: Option<NonEmpty<T>>)
    ensures
        vec@.len() == 0 ==> res is None,
        vec@.len() > 0 ==> res is Some && items(res->0) == vec@,
;

/// `Vec::from` of a `nonempty::NonEmpty` gives the head and then the tail.
pub assume_specification<T>[ <Vec<T> as From<NonEmpty<T>>>::from ](list: NonEmpty<T>) -> (res: Vec<
    T,
>)
    ensures
        res@ == items(list),
;

/// The characters of each string of a sequence.
pub open spec fn texts(strings: Seq<String>) -> Seq<Seq<char>> {
    strings.map_values(|s: String| s@)
}

/// The characters of each name of a sequence.
pub open spec fn names(list: Seq<StepName>) -> Seq<Seq<char>> {
    list.map_values(|n: StepName| n@)
}

/// A copy of a list of strings.
pub fn clone_strings(list: &Vec<String>) -> (res: Vec<String>)
    ensures
        texts(res@) == texts(list@),
{
    let mut res: Vec<String> = Vec::new();
    let mut i: usize = 0;
    while i < list.len()
        invariant
            i <= list.len(),
            res@.len() == i,
            forall|k: int| 0 <= k < i ==> res@[k]@ == list@[k]@,
        decreases list.len() - i,
    {
        res.push(list[i].clone());
        i += 1;
    }
    assert(texts(res@) =~= texts(list@));
    res
}

/// A copy of a list of step names.
pub fn clone_names(list: &Vec<StepName>) -> (res: Vec<StepName>)
    ensures
        names(res@) == names(list@),
{
    let mut res: Vec<StepName> = Vec::new();
    let mut i: usize = 0;
    while i < list.len()
        invariant
            i <= list.len(),
            res@.len() == i,
            forall|k: int| 0 <= k < i ==> res@[k]@ == list@[k]@,
        decreases list.len() - i,
    {
        res.push(list[i].clone());
        i += 1;
    }
    assert(names(res@) =~= names(list@));
    res
}

/// The unique name of a step within a pipeline.
#[derive(Debug, PartialEq, Eq, Hash)]
pub struct StepName(pub String);

impl View for StepName {
    type V = Seq<char>;

    open spec fn view(&self) -> Seq<char> {
        self.0@
    }
}

impl Clone for StepName {
    fn clone(&self) -> (res: StepName)
        ensures
            res@ == self@,
    {
        StepName(self.0.clone())
    }
}

impl From<&str> for StepName {
    fn from(value: &str) -> (res: StepName)
        ensures
            res@ == value@,
    {
        StepName(value.to_owned())
    }
}

impl FromSpecImpl<&str> for StepName {
    open spec fn obeys_from_spec() -> bool {
        false
    }

    open spec fn from_spec(value: &str) -> StepName {
        choose|name: StepName| name@ == value@
    }
}

impl From<StepName> for String {
    fn from(value: StepName) -> (res: String)
        ensures
            res@ == value@,
    {
        value.0
    }
}

impl FromSpecImpl<StepName> for String {
    open spec fn obeys_from_spec() -> bool {
        true
    }

    open spec fn from_spec(value: StepName) -> String {
        value.0
    }
}

/// A reference to a container image, passed on as it was given.
#[derive(Debug, PartialEq, Eq)]
pub struct Image(pub String);

impl View for Image {
    type V = Seq<char>;

    open spec fn view(&self) -> Seq<char> {
        self.0@
    }
}

impl Clone for Image {
    fn clone(&self) -> (res: Image)
        ensures
            res@ == self@,
    {
        Image(self.0.clone())
    }
}

impl From<&str> for Image {
    fn from(value: &str) -> (res: Image)
        ensures
            res@ == value@,
    {
        Image(value.to_owned())
    }
}

impl FromSpecImpl<&str> for Image {
    open spec fn obeys_from_spec() -> bool {
        false
    }

    open spec fn from_spec(value: &str) -> Image {
        choose|image: Image| image@ == value@
    }
}

impl From<Image> for String {
    fn from(value: Image) -> (res: String)
        ensures
            res@ == value@,
    {
        value.0
    }
}

impl FromSpecImpl<Image> for String {
    open spec fn obeys_from_spec() -> bool {
        true
    }

    open spec fn from_spec(value: Image) -> String {
        value.0
    }
}

/// What a step is, with every string as its characters.
pub struct StepView {
    pub name: Seq<char>,
    pub commands: Seq<Seq<char>>,
    pub image: Seq<char>,
    pub depends_on: Option<Seq<Seq<char>>>,
}

/// One unit of work: shell commands to run in a container of an image.
#[derive(Debug, PartialEq, Eq)]
pub struct Step {
    pub name: StepName,
    pub commands: NonEmpty<String>,
    pub image: Image,
    pub depends_on: Option<Vec<StepName>>,
}

impl View for Step {
    type V = StepView;

    open spec fn view(&self) -> StepView {
        StepView {
            name: self.name@,
            commands: texts(items(self.commands)),
            image: self.image@,
            depends_on: match self.depends_on {
                Some(list) => Some(names(list@)),
                None => None,
            },
        }
    }
}

impl Step {
    /// A step of the given parts.
    pub fn new(
        name: StepName,
        commands: NonEmpty<String>,
        image: Image,
        depends_on: Option<Vec<StepName>>,
    ) -> (res: Step)
        ensures
            res.name == name,
            res.commands == commands,
            res.image == image,
            res.depends_on == depends_on,
            res@.commands.len() >= 1,
    {
        Step { name, commands, image, depends_on }
    }
}

impl Clone for Step {
    fn clone(&self) -> (res: Step)
        ensures
            res@ == self@,
    {
        let commands = NonEmpty {
            head: self.commands.head.clone(),
            tail: clone_strings(&self.commands.tail),
        };
        let depends_on = match &self.depends_on {
            Some(list) => Some(clone_names(list)),
            None => None,
        };
        let res = Step { name: self.name.clone(), commands, image: self.image.clone(), depends_on };
        proof {
            let old_tail = texts(self.commands.tail@);
            let new_tail = texts(res.commands.tail@);
            assert(res@.commands.len() == self@.commands.len()) by {
                assert(new_tail.len() == old_tail.len());
            }
            assert forall|k: int| 0 <= k < res@.commands.len() implies res@.commands[k]
                == self@.commands[k] by {
                if k > 0 {
                    assert(res@.commands[k] == new_tail[k - 1]);
                    assert(self@.commands[k] == old_tail[k - 1]);
                }
            }
            assert(res@.commands =~= self@.commands);
        }
        res
    }
}

/// The steps of a list, each by its view.
pub open spec fn step_views(steps: Seq<Step>) -> Seq<StepView> {
    steps.map_values(|s: Step| s@)
}

/// An ordered build plan of at least one step.
#[derive(Debug, PartialEq, Eq)]
pub struct Pipeline {
    pub steps: NonEmpty<Step>,
}

impl View for Pipeline {
    type V = Seq<StepView>;

    open spec fn view(&self) -> Seq<StepView> {
        step_views(items(self.steps))
    }
}

impl Pipeline {
    /// The pipeline of the given steps.
    pub fn new(steps: NonEmpty<Step>) -> (res: Pipeline)
        ensures
            res.steps == steps,
            res@.len() >= 1,
    {
        Pipeline { steps }
    }

    /// The pipeline that runs `steps` in their order. There is none of no
    /// steps at all: an empty list is refused, and only an empty list.
    pub fn from_vec(steps: Vec<Step>) -> (res: Option<Pipeline>)
        ensures
            steps@.len() == 0 <==> res is None,
            res matches Some(pipeline) ==> items(pipeline.steps) == steps@ && pipeline@.len()
                == steps@.len(),
    {
        match NonEmpty::from_vec(steps) {
            Some(list) => Some(Pipeline { steps: list }),
            None => None,
        }
    }
}

impl Clone for Pipeline {
    fn clone(&self) -> (res: Pipeline)
        ensures
            res@ == self@,
    {
        let mut tail: Vec<Step> = Vec::new();
        let mut i: usize = 0;
        while i < self.steps.tail.len()
            invariant
                i <= self.steps.tail.len(),
                tail@.len() == i,
                forall|k: int| 0 <= k < i ==> tail@[k]@ == self.steps.tail@[k]@,
            decreases self.steps.tail.len() - i,
        {
            tail.push(self.steps.tail[i].clone());
            i += 1;
        }
        let res = Pipeline { steps: NonEmpty { head: self.steps.head.clone(), tail } };
        assert(res@ =~= self@);
        res
    }
}

/// The exit code that a container reported.
#[derive(Debug, PartialEq, Eq, Structural)]
pub struct ContainerExitCode(pub i64);

impl Clone for ContainerExitCode {
    fn clone(&self) -> (res: ContainerExitCode)
        ensures
            res == *self,
    {
        ContainerExitCode(self.0)
    }
}

impl From<ContainerExitCode> for i64 {
    fn from(value: ContainerExitCode) -> (res: i64) {
        value.0
    }
}

impl FromSpecImpl<ContainerExitCode> for i64 {
    open spec fn obeys_from_spec() -> bool {
        true
    }

    open spec fn from_spec(value: ContainerExitCode) -> i64 {
        value.0
    }
}

/// The outcome of one step.
#[derive(Debug, PartialEq, Eq, Structural)]
pub enum StepResult {
    StepFailed(ContainerExitCode),
    StepSucceeded,
    StepSkipped,
}

impl Clone for StepResult {
    fn clone(&self) -> (res: StepResult)
        ensures
            res == *self,
    {
        match self {
            StepResult::StepFailed(code) => StepResult::StepFailed(ContainerExitCode(code.0)),
            StepResult::StepSucceeded => StepResult::StepSucceeded,
            StepResult::StepSkipped => StepResult::StepSkipped,
        }
    }
}

/// The outcome that an exit code stands for: success for zero, failure with
/// the code for anything else.
pub open spec fn result_of_exit(code: i64) -> StepResult {
    if code == 0 {
        StepResult::StepSucceeded
    } else {
        StepResult::StepFailed(ContainerExitCode(code))
    }
}

impl From<ContainerExitCode> for StepResult {
    fn from(value: ContainerExitCode) -> (res: StepResult) {
        let v: i64 = value.0;
        if v == 0 {
            StepResult::StepSucceeded
        } else {
            StepResult::StepFailed(ContainerExitCode(v))
        }
    }
}

impl FromSpecImpl<ContainerExitCode> for StepResult {
    open spec fn obeys_from_spec() -> bool {
        true
    }

    open spec fn from_spec(value: ContainerExitCode) -> StepResult {
        result_of_exit(value.0)
    }
}

/// How a build ended.
#[derive(Debug, PartialEq, Eq, Structural)]
pub enum BuildResult {
    BuildSucceeded,
    BuildFailed,
}

impl Clone for BuildResult {
    fn clone(&self) -> (res: BuildResult)
        ensures
            res == *self,
    {
        match self {
            BuildResult::BuildSucceeded => BuildResult::BuildSucceeded,
            BuildResult::BuildFailed => BuildResult::BuildFailed,
        }
    }
}

/// The step whose container is running.
#[derive(Debug, PartialEq, Eq)]
pub struct BuildRunningState {
    pub step: StepName,
}

impl View for BuildRunningState {
    type V = Seq<char>;

    open spec fn view(&self) -> Seq<char> {
        self.step@
    }
}

impl Clone for BuildRunningState {
    fn clone(&self) -> (res: BuildRunningState)
        ensures
            res@ == self@,
    {
        BuildRunningState { step: self.step.clone() }
    }
}

/// The phase of a build, with the running step by the characters of its name.
pub enum BuildStateView {
    Ready,
    Running(Seq<char>),
    Finished(BuildResult),
}

/// The phase of a build.
#[derive(Debug, PartialEq, Eq)]
pub enum BuildState {
    BuildReady,
    BuildRunning(BuildRunningState),
    BuildFinished(BuildResult),
}

impl View for BuildState {
    type V = BuildStateView;

    open spec fn view(&self) -> BuildStateView {
        match self {
            BuildState::BuildReady => BuildStateView::Ready,
            BuildState::BuildRunning(running) => BuildStateView::Running(running@),
            BuildState::BuildFinished(result) => BuildStateView::Finished(*result),
        }
    }
}

impl Clone for BuildState {
    fn clone(&self) -> (res: BuildState)
        ensures
            res@ == self@,
    {
        match self {
            BuildState::BuildReady => BuildState::BuildReady,
            BuildState::BuildRunning(running) => BuildState::BuildRunning(running.clone()),
            BuildState::BuildFinished(result) => BuildState::BuildFinished(result.clone()),
        }
    }
}

} // verus!
