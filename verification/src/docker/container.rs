//! The three operations on containers: create, start, and wait.
//!
//! Each operation is one request. The functions here build the request and
//! say what an answer means; to send the one and receive the other is the
//! caller's part.

use crate::docker::errors::{Error, ErrorView};
use crate::docker::json::{wait_record, WaitRecord};
use crate::docker::uri::pair_texts;
use crate::docker::{is_built_request, payload_view, Docker, Method, Request};
use bollard_stubs::models::{ContainerWaitExitError, ContainerWaitResponse};
use vstd::prelude::*;
use vstd::string::StringExecFns;

verus! {

/// The query of a request to create a container.
#[derive(Debug, PartialEq, Eq)]
pub struct CreateContainerOptions {
    /// The name of the container.
    pub name: String,
    /// The platform of the container, where one is asked for.
    pub platform: Option<String>,
}

/// The body of a request to create a container.
#[derive(Debug, PartialEq, Eq)]
pub struct CreateContainerConfig {
    /// The image to run.
    pub image: String,
    /// Whether the container gets a terminal.
    pub tty: bool,
    /// The labels of the container, each key once.
    pub labels: Vec<(String, String)>,
    /// The program to start with, and its first arguments.
    pub entry_point: Vec<String>,
    /// What the program is handed after them.
    pub cmd: String,
}

/// The query of a request to create a container, with its texts as
/// characters.
pub struct CreateContainerOptionsView {
    pub name: Seq<char>,
    pub platform: Option<Seq<char>>,
}

impl View for CreateContainerOptions {
    type V = CreateContainerOptionsView;

    open spec fn view(&self) -> CreateContainerOptionsView {
        CreateContainerOptionsView {
            name: self.name@,
            platform: match self.platform {
                Some(platform) => Some(platform@),
                None => None,
            },
        }
    }
}

/// The body of a request to create a container, with its texts as
/// characters.
pub struct CreateContainerConfigView {
    pub image: Seq<char>,
    pub tty: bool,
    pub labels: Seq<(Seq<char>, Seq<char>)>,
    pub entry_point: Seq<Seq<char>>,
    pub cmd: Seq<char>,
}

impl View for CreateContainerConfig {
    type V = CreateContainerConfigView;

    open spec fn view(&self) -> CreateContainerConfigView {
        CreateContainerConfigView {
            image: self.image@,
            tty: self.tty,
            labels: pair_texts(self.labels@),
            entry_point: self.entry_point@.map_values(|s: String| s@),
            cmd: self.cmd@,
        }
    }
}

/// Whether no key stands twice among labels.
pub open spec fn distinct_keys(labels: Seq<(Seq<char>, Seq<char>)>) -> bool {
    forall|i: int, j: int| 0 <= i < j < labels.len() ==> labels[i].0 != labels[j].0
}

/// The query of a request to start a container.
#[derive(Debug, PartialEq, Eq)]
pub struct StartContainerOptions {
    /// The keys that detach from the container.
    pub detach_keys: String,
}

/// The query of a request to wait for a container.
#[derive(Debug, PartialEq, Eq)]
pub struct WaitContainerOptions {
    /// The condition to wait for: `not-running`, `next-exit` or `removed`.
    pub condition: String,
}

/// The text `name`.
pub open spec fn name_key() -> Seq<char> {
    "name"@
}

/// The text `platform`.
pub open spec fn platform_key() -> Seq<char> {
    "platform"@
}

/// The text `detachKeys`.
pub open spec fn detach_keys_key() -> Seq<char> {
    "detachKeys"@
}

/// The text `condition`.
pub open spec fn condition_key() -> Seq<char> {
    "condition"@
}

impl CreateContainerOptions {
    /// The options of the given parts.
    pub fn new(name: String, platform: Option<String>) -> (res: CreateContainerOptions)
        ensures
            res.name == name,
            res.platform == platform,
    {
        CreateContainerOptions { name, platform }
    }

    /// The pairs of the query: the name, then the platform where there is
    /// one.
    pub open spec fn query(self) -> Seq<(Seq<char>, Seq<char>)> {
        match self.platform {
            Some(platform) => seq![(name_key(), self.name@), (platform_key(), platform@)],
            None => seq![(name_key(), self.name@)],
        }
    }

    /// The pairs of the query.
    pub fn to_query(self) -> (res: Vec<(String, String)>)
        ensures
            pair_texts(res@) == self.query(),
    {
        let mut res: Vec<(String, String)> = Vec::new();
        res.push((String::from_str("name"), self.name));
        if let Some(platform) = self.platform {
            res.push((String::from_str("platform"), platform));
        }
        assert(pair_texts(res@) =~= self.query());
        res
    }
}

impl CreateContainerConfig {
    /// Whether no key stands twice among the labels, as in the map that the
    /// runtime takes them for.
    pub open spec fn wf(self) -> bool {
        distinct_keys(self@.labels)
    }

    /// The body of the given parts. The labels are taken as they are:
    /// `labels_distinct` tells whether a key stands twice among them.
    pub fn new(
        image: String,
        tty: bool,
        labels: Vec<(String, String)>,
        entry_point: Vec<String>,
        cmd: String,
    ) -> (res: CreateContainerConfig)
        ensures
            res.image == image,
            res.tty == tty,
            res.labels == labels,
            res.entry_point == entry_point,
            res.cmd == cmd,
    {
        CreateContainerConfig { image, tty, labels, entry_point, cmd }
    }

    /// Tells whether no key stands twice among the labels.
    pub fn labels_distinct(&self) -> (res: bool)
        ensures
            res == self.wf(),
    {
        let ghost labels = self@.labels;
        let mut j: usize = 0;
        while j < self.labels.len()
            invariant
                j <= self.labels.len(),
                labels == pair_texts(self.labels@),
                forall|a: int, b: int| 0 <= a < b < j ==> labels[a].0 != labels[b].0,
            decreases self.labels.len() - j,
        {
            let mut i: usize = 0;
            while i < j
                invariant
                    i <= j < self.labels.len(),
                    labels == pair_texts(self.labels@),
                    forall|a: int| 0 <= a < i ==> labels[a].0 != labels[j as int].0,
                decreases j - i,
            {
                if self.labels[i].0 == self.labels[j].0 {
                    assert(labels[i as int].0 == labels[j as int].0);
                    return false;
                }
                i += 1;
            }
            j += 1;
        }
        true
    }
}

impl StartContainerOptions {
    /// The options of the given keys.
    pub fn new(detach_keys: String) -> (res: StartContainerOptions)
        ensures
            res.detach_keys == detach_keys,
    {
        StartContainerOptions { detach_keys }
    }

    /// The one pair of the query.
    pub open spec fn query(self) -> Seq<(Seq<char>, Seq<char>)> {
        seq![(detach_keys_key(), self.detach_keys@)]
    }

    /// The pairs of the query.
    pub fn to_query(self) -> (res: Vec<(String, String)>)
        ensures
            pair_texts(res@) == self.query(),
    {
        let mut res: Vec<(String, String)> = Vec::new();
        res.push((String::from_str("detachKeys"), self.detach_keys));
        assert(pair_texts(res@) =~= self.query());
        res
    }
}

impl WaitContainerOptions {
    /// The options of the given condition.
    pub fn new(condition: String) -> (res: WaitContainerOptions)
        ensures
            res.condition == condition,
    {
        WaitContainerOptions { condition }
    }

    /// The one pair of the query.
    pub open spec fn query(self) -> Seq<(Seq<char>, Seq<char>)> {
        seq![(condition_key(), self.condition@)]
    }

    /// The pairs of the query.
    pub fn to_query(self) -> (res: Vec<(String, String)>)
        ensures
            pair_texts(res@) == self.query(),
    {
        let mut res: Vec<(String, String)> = Vec::new();
        res.push((String::from_str("condition"), self.condition));
        assert(pair_texts(res@) =~= self.query());
        res
    }
}

/// The path under which containers are created.
pub open spec fn create_path() -> Seq<char> {
    "/containers/create"@
}

/// The path of an action on the container of a name or an id.
pub open spec fn container_path(id: Seq<char>, action: Seq<char>) -> Seq<char> {
    "/containers/"@ + id + "/"@ + action
}

/// The text `start`.
pub open spec fn start_action() -> Seq<char> {
    "start"@
}

/// The text `wait`.
pub open spec fn wait_action() -> Seq<char> {
    "wait"@
}

/// Writes the path of an action on a container.
fn path_of(container_name_or_id: &str, action: &str) -> (res: String)
    ensures
        res@ == container_path(container_name_or_id@, action@),
{
    let mut path = String::from_str("/containers/");
    path.append(container_name_or_id);
    path.append("/");
    path.append(action);
    assert(path@ =~= container_path(container_name_or_id@, action@));
    path
}

/// The runtime's message on a failed exit: the one that the record carries,
/// and an empty one where it carries none.
pub open spec fn wait_message(record: WaitRecord) -> Seq<char> {
    match record.error {
        Some(Some(message)) => message,
        _ => Seq::empty(),
    }
}

/// What a wait record means to the one who waited. A record of an exit code
/// other than zero is the failure of the container, with the runtime's
/// message or an empty one. A record of the exit code zero is handed on.
pub open spec fn wait_outcome(record: WaitRecord) -> Result<WaitRecord, ErrorView> {
    if record.status_code != 0 {
        Err(
            ErrorView::DockerContainerWaitError {
                error: wait_message(record),
                code: record.status_code,
            },
        )
    } else {
        Ok(record)
    }
}

/// An item of a wait's answer as the contracts see it.
pub open spec fn wait_item_view(item: Result<ContainerWaitResponse, Error>) -> Result<
    WaitRecord,
    ErrorView,
> {
    match item {
        Ok(response) => Ok(wait_record(response)),
        Err(error) => Err(error@),
    }
}

impl Docker {
    /// The request that creates a container. `payload` is the serialized
    /// body.
    pub fn create_container(
        &self,
        options: Option<CreateContainerOptions>,
        payload: Result<Vec<u8>, Error>,
    ) -> (res: Result<Request, Error>)
        ensures
            is_built_request(
                res,
                self@,
                create_path(),
                Method::Post,
                match options {
                    Some(options) => Some(options.query()),
                    None => None,
                },
                payload_view(payload),
            ),
    {
        let url = "/containers/create";
        let query = match options {
            Some(options) => Some(options.to_query()),
            None => None,
        };
        self.build_request(url, Method::Post, query, payload)
    }

    /// The request that starts the container of a name or an id. Its body is
    /// empty.
    pub fn start_container(
        &self,
        container_name_or_id: &str,
        query: Option<StartContainerOptions>,
    ) -> (res: Result<Request, Error>)
        ensures
            is_built_request(
                res,
                self@,
                container_path(container_name_or_id@, start_action()),
                Method::Post,
                match query {
                    Some(options) => Some(options.query()),
                    None => None,
                },
                Ok(Seq::empty()),
            ),
    {
        let path = path_of(container_name_or_id, "start");
        let query = match query {
            Some(options) => Some(options.to_query()),
            None => None,
        };
        let body: Vec<u8> = Vec::new();
        assert(body@ =~= Seq::<u8>::empty());
        self.build_request(path.as_str(), Method::Post, query, Ok(body))
    }

    /// The request that waits for the container of a name or an id. Its
    /// body is empty; the answer is a stream of wait records.
    pub fn wait_container(
        &self,
        container_name_or_id: &str,
        options: Option<WaitContainerOptions>,
    ) -> (res: Result<Request, Error>)
        ensures
            is_built_request(
                res,
                self@,
                container_path(container_name_or_id@, wait_action()),
                Method::Post,
                match options {
                    Some(options) => Some(options.query()),
                    None => None,
                },
                Ok(Seq::empty()),
            ),
    {
        let path = path_of(container_name_or_id, "wait");
        let query = match options {
            Some(options) => Some(options.to_query()),
            None => None,
        };
        let body: Vec<u8> = Vec::new();
        assert(body@ =~= Seq::<u8>::empty());
        self.build_request(path.as_str(), Method::Post, query, Ok(body))
    }

    /// What an item of a wait's answer means to the one who waited: a record
    /// is looked at as `wait_outcome` says, and an error is handed on.
    pub fn wait_result(item: Result<ContainerWaitResponse, Error>) -> (res: Result<
        ContainerWaitResponse,
        Error,
    >)
        ensures
            wait_item_view(res) == match wait_item_view(item) {
                Ok(record) => wait_outcome(record),
                Err(error) => Err(error),
            },
    {
        match item {
            Ok(response) => {
                if response.status_code != 0 {
                    let code = response.status_code;
                    let error = match response.error {
                        Some(ContainerWaitExitError { message: Some(error) }) => error,
                        _ => String::new(),
                    };
                    Err(Error::DockerContainerWaitError { error, code })
                } else {
                    Ok(response)
                }
            },
            Err(error) => Err(error),
        }
    }
}

} // verus!
