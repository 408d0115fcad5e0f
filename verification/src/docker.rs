//! The gateway to the container runtime: how requests are addressed and
//! built, and how responses are read.
//!
//! Nothing here touches a socket. A request is built as a value for the
//! caller to send, and a response is taken as the status and the bytes that
//! the caller received.

pub mod buffer;
pub mod container;
pub mod errors;
pub mod json;
pub mod read;
pub mod uri;
pub mod utils;
pub mod version;

use crate::docker::errors::{Error, ErrorView};
use crate::docker::json::{
    create_response_from_slice, create_response_json, created_container, error_message_from_str,
    error_message_json,
};
use crate::docker::read::{decode_error, json_error};
use crate::docker::uri::{
    http_uri_check, http_uri_refusal, pair_texts, request_uri, Uri, UriFailure,
};
use crate::docker::utils::{
    has_prefix, lossy_text, remove_first, starts_with, utf8_lossy, without_first,
};
use bollard_stubs::models::ContainerCreateResponse;
use std::time::Duration;
use vstd::prelude::*;
use vstd::string::{StrSliceExecFns, StringExecFns};
use vstd::utf8::{decode_utf8, encode_utf8, valid_utf8};

pub use version::ClientVersion;

verus! {

/// The socket that the runtime listens on when nothing else is said.
pub const DEFAULT_SOCKET: &'static str = "unix:///var/run/docker.sock";

/// The address of the runtime when nothing else is said.
pub const DEFAULT_DOCKER_HOST: &'static str = DEFAULT_SOCKET;

/// The major number of the API version that a client speaks when nothing
/// else is said.
pub const API_DEFAULT_MAJOR_VERSION: usize = 1;

/// The minor number of the API version that a client speaks when nothing
/// else is said.
pub const API_DEFAULT_MINOR_VERSION: usize = 42;

/// The API version that a client speaks when nothing else is said.
pub open spec fn api_default_version() -> ClientVersion {
    ClientVersion {
        major_version: API_DEFAULT_MAJOR_VERSION,
        minor_version: API_DEFAULT_MINOR_VERSION,
    }
}

/// The seconds that a request may take when nothing else is said.
pub const DEFAULT_TIMEOUT: u64 = 120;

/// The kind of transport that reaches the runtime.
#[derive(Debug, Clone, Copy, PartialEq, Eq, Structural)]
pub enum ClientType {
    Unix,
}

/// The method of a request.
#[derive(Debug, Clone, Copy, PartialEq, Eq, Structural)]
pub enum Method {
    Get,
    Post,
    Put,
    Delete,
}

/// A request with its texts as characters.
pub struct RequestView {
    pub method: Method,
    pub uri: Seq<char>,
    pub headers: Seq<(Seq<char>, Seq<char>)>,
    pub body: Seq<u8>,
}

/// A request to the runtime, ready to be sent.
#[derive(Debug, PartialEq, Eq)]
pub struct Request {
    pub method: Method,
    pub uri: String,
    pub headers: Vec<(String, String)>,
    pub body: Vec<u8>,
}

impl View for Request {
    type V = RequestView;

    open spec fn view(&self) -> RequestView {
        RequestView {
            method: self.method,
            uri: self.uri@,
            headers: pair_texts(self.headers@),
            body: self.body@,
        }
    }
}

/// The name of the header that tells the type of a body.
pub open spec fn content_type_name() -> Seq<char> {
    "content-type"@
}

/// The type of a JSON body.
pub open spec fn json_content_type() -> Seq<char> {
    "application/json"@
}

/// The seconds of a duration, without the part below a second.
pub uninterp spec fn whole_seconds(duration: Duration) -> u64;

/// The duration that `Duration::from_secs` makes of a number of seconds.
pub uninterp spec fn seconds(secs: u64) -> Duration;

/// `Duration::from_secs`: the duration of so many whole seconds and nothing
/// more. It depends on the number alone, and its whole seconds are that
/// number.
#[verifier::external_body]
fn duration_from_secs(secs: u64) -> (res: Duration)
    ensures
        res == seconds(secs),
        whole_seconds(res) == secs,
{
    Duration::from_secs(secs)
}

/// `Duration::as_secs`: the whole seconds of a duration.
#[verifier::external_body]
fn duration_as_secs(duration: &Duration) -> (res: u64)
    ensures
        res == whole_seconds(*duration),
{
    duration.as_secs()
}

/// What a connection is: where the runtime listens, how long a request may
/// take, and the API version spoken.
pub struct DockerView {
    pub client_type: ClientType,
    pub client_addr: Seq<char>,
    pub client_timeout: u64,
    pub version: ClientVersion,
}

/// A connection to the runtime.
#[derive(Debug)]
pub struct Docker {
    pub(crate) client_type: ClientType,
    pub(crate) client_addr: String,
    pub(crate) client_timeout: u64,
    pub(crate) version: ClientVersion,
}

impl View for Docker {
    type V = DockerView;

    closed spec fn view(&self) -> DockerView {
        DockerView {
            client_type: self.client_type,
            client_addr: self.client_addr@,
            client_timeout: self.client_timeout,
            version: self.version,
        }
    }
}

impl Clone for Docker {
    fn clone(&self) -> (res: Docker)
        ensures
            res@ == self@,
    {
        Docker {
            client_type: self.client_type,
            client_addr: self.client_addr.clone(),
            client_timeout: self.client_timeout,
            version: self.version,
        }
    }
}

/// The text of the default socket address.
pub open spec fn default_socket() -> Seq<char> {
    "unix:///var/run/docker.sock"@
}

/// The mark of an address on a local socket.
pub open spec fn unix_prefix() -> Seq<char> {
    "unix://"@
}

/// The address to connect to, given what the variable `DOCKER_HOST` names
/// as the runtime's host: that, where it is an address on a local socket, and
/// the default socket otherwise.
pub open spec fn chosen_socket(docker_host: Option<Seq<char>>) -> Seq<char> {
    match docker_host {
        Some(host) => if has_prefix(host, unix_prefix()) {
            host
        } else {
            default_socket()
        },
        None => default_socket(),
    }
}

/// Whether a status tells success: the 2xx range, 304 (not modified) and 101
/// (switching protocols).
pub open spec fn is_success(status: u16) -> bool {
    200 <= status < 300 || status == 304 || status == 101
}

/// The message of a failed response of the given body text: the message
/// that the body holds where it has the shape `{"message": ...}`, and the
/// body itself where it has not.
pub open spec fn server_message(contents: Seq<char>) -> Seq<char> {
    if contents.len() == 0 {
        contents
    } else {
        match error_message_json(contents) {
            Some(message) => message,
            None => contents,
        }
    }
}

/// The error that a response of a status that is no success stands for.
pub open spec fn server_error(status: u16, body: Seq<u8>) -> ErrorView {
    ErrorView::DockerResponseServerError {
        status_code: status,
        message: server_message(utf8_lossy(body)),
    }
}

/// A payload as the contracts see it.
pub open spec fn payload_view(payload: Result<Vec<u8>, Error>) -> Result<Seq<u8>, ErrorView> {
    match payload {
        Ok(bytes) => Ok(bytes@),
        Err(error) => Err(error@),
    }
}

/// A query as the contracts see it.
pub open spec fn query_view(query: Option<Vec<(String, String)>>) -> Option<
    Seq<(Seq<char>, Seq<char>)>,
> {
    match query {
        Some(pairs) => Some(pair_texts(pairs@)),
        None => None,
    }
}

/// Whether `res` is the request that a connection builds for a path, a
/// method, a query and a payload, or the error that stands in its way. The
/// address is looked at first, then the payload.
pub open spec fn is_built_request(
    res: Result<Request, Error>,
    docker: DockerView,
    path: Seq<char>,
    method: Method,
    query: Option<Seq<(Seq<char>, Seq<char>)>>,
    payload: Result<Seq<u8>, ErrorView>,
) -> bool {
    match request_uri(docker.client_addr, path, query, docker.version) {
        Err(UriFailure::NoUrl) => res matches Err(Error::URLParseError { .. }),
        Err(UriFailure::NoQuery) => res matches Err(Error::URLEncodedError { .. }),
        Err(UriFailure::TooLong) => res matches Err(Error::URLParseError { .. }),
        Ok(uri) => match http_uri_refusal(uri) {
            Some(refusal) => res matches Err(Error::InvalidURIError { message }) && message@
                == refusal,
            None => match payload {
                Err(error) => res matches Err(e) && e@ == error,
                Ok(body) => res matches Ok(request) && request@ == (RequestView {
                    method,
                    uri,
                    headers: seq![(content_type_name(), json_content_type())],
                    body,
                }),
            },
        },
    }
}

impl Docker {
    /// The bytes of a request's body: those of the serialized payload, none
    /// where there is no payload, and an error where the payload could not
    /// be serialized.
    pub fn serialize_payload(body: Option<Result<String, String>>) -> (res: Result<Vec<u8>, Error>)
        ensures
            match body {
                Some(Ok(text)) => res matches Ok(bytes) && bytes@ == encode_utf8(text@),
                Some(Err(message)) => res matches Err(Error::JsonSerdeError { message: m }) && m@
                    == message@,
                None => res matches Ok(bytes) && bytes@.len() == 0,
            },
    {
        match body {
            Some(Ok(text)) => Ok(text.as_str().as_bytes_vec()),
            Some(Err(message)) => Err(Error::JsonSerdeError { message }),
            None => Ok(Vec::new()),
        }
    }

    /// The request for `path` on this connection: the method, the address of
    /// the path with the query, a header that announces JSON, and the
    /// payload as the body.
    pub fn build_request(
        &self,
        path: &str,
        method: Method,
        query: Option<Vec<(String, String)>>,
        payload: Result<Vec<u8>, Error>,
    ) -> (res: Result<Request, Error>)
        ensures
            is_built_request(res, self@, path@, method, query_view(query), payload_view(payload)),
    {
        let uri = match Uri::parse(
            self.client_addr.as_str(),
            &self.client_type,
            path,
            query,
            &self.client_version(),
        ) {
            Ok(uri) => uri,
            Err(e) => {
                return Err(e);
            },
        };
        if let Some(message) = http_uri_check(uri.as_str()) {
            return Err(Error::InvalidURIError { message });
        }
        let body = match payload {
            Ok(body) => body,
            Err(e) => {
                return Err(e);
            },
        };
        let mut headers: Vec<(String, String)> = Vec::new();
        headers.push((String::from_str("content-type"), String::from_str("application/json")));
        let request = Request { method, uri: String::from_str(uri.as_str()), headers, body };
        assert(request@.headers =~= seq![(content_type_name(), json_content_type())]);
        Ok(request)
    }

    /// Tells whether a status tells success.
    pub fn status_is_success(status: u16) -> (res: bool)
        ensures
            res == is_success(status),
    {
        (200 <= status && status < 300) || status == 304 || status == 101
    }

    /// The text of a response's body: the characters that the bytes encode
    /// where they are UTF-8, with a replacement character for every sequence
    /// that is not.
    pub fn decode_into_string(body: &[u8]) -> (res: String)
        ensures
            res@ == utf8_lossy(body@),
            valid_utf8(body@) ==> res@ == decode_utf8(body@),
    {
        lossy_text(body)
    }

    /// The error that a response of a status that is no success stands for:
    /// the status, and the message of the body.
    pub fn response_error(status: u16, body: &[u8]) -> (res: Error)
        ensures
            res@ == server_error(status, body@),
    {
        let contents = Docker::decode_into_string(body);
        let mut message = String::new();
        assert(contents@.len() == 0 ==> message@ =~= contents@);
        if !contents.as_str().is_empty() {
            message =
            match error_message_from_str(contents.as_str()) {
                Some(message) => message,
                None => contents,
            };
        }
        Error::DockerResponseServerError { status_code: status, message }
    }

    /// What a response of the given status and body stands for: nothing to
    /// object to where the status tells success, and otherwise an error with
    /// the status and the message of the body.
    pub fn process_response(status: u16, body: &[u8]) -> (res: Result<(), Error>)
        ensures
            is_success(status) ==> res is Ok,
            !is_success(status) ==> (res matches Err(e) && e@ == server_error(status, body@)),
    {
        if Docker::status_is_success(status) {
            Ok(())
        } else {
            Err(Docker::response_error(status, body))
        }
    }

    /// The handle of a created container that a body holds.
    pub fn decode_response(body: &[u8]) -> (res: Result<ContainerCreateResponse, Error>)
        ensures
            match create_response_json(body@) {
                Ok(created) => res matches Ok(response) && created_container(response) == created,
                Err(failure) => res matches Err(e) && e@ == decode_error(failure, body@),
            },
    {
        match create_response_from_slice(body) {
            Ok(response) => Ok(response),
            Err(failure) => Err(json_error(failure, body)),
        }
    }

    /// A response that should hold the handle of a created container: the
    /// error of a status that is no success, else what the body holds.
    pub fn process_into_value(status: u16, body: &[u8]) -> (res: Result<
        ContainerCreateResponse,
        Error,
    >)
        ensures
            !is_success(status) ==> (res matches Err(e) && e@ == server_error(status, body@)),
            is_success(status) ==> match create_response_json(body@) {
                Ok(created) => res matches Ok(response) && created_container(response) == created,
                Err(failure) => res matches Err(e) && e@ == decode_error(failure, body@),
            },
    {
        match Docker::process_response(status, body) {
            Ok(()) => Docker::decode_response(body),
            Err(e) => Err(e),
        }
    }

    /// A response whose body does not matter: the error of a status that is
    /// no success, else nothing.
    pub fn process_into_unit(status: u16, body: &[u8]) -> (res: Result<(), Error>)
        ensures
            is_success(status) ==> res is Ok,
            !is_success(status) ==> (res matches Err(e) && e@ == server_error(status, body@)),
    {
        Docker::process_response(status, body)
    }
}

impl Docker {
    /// A connection to the local socket that `docker_host` names, or to the
    /// default socket where it names none, with the default timeout and API
    /// version. `docker_host` is the value of the variable `DOCKER_HOST`,
    /// where it has one.
    pub fn connect_with_unix_defaults(docker_host: Option<String>) -> (res: Result<Docker, Error>)
        ensures
            res matches Ok(docker) && docker@ == (DockerView {
                client_type: ClientType::Unix,
                client_addr: without_first(chosen_socket(
                    match docker_host {
                        Some(host) => Some(host@),
                        None => None,
                    },
                ), unix_prefix()),
                client_timeout: DEFAULT_TIMEOUT,
                version: api_default_version(),
            }),
    {
        let socket_path = match docker_host {
            Some(p) => if starts_with(p.as_str(), "unix://") {
                Some(p)
            } else {
                None
            },
            None => None,
        };
        let version = ClientVersion {
            major_version: API_DEFAULT_MAJOR_VERSION,
            minor_version: API_DEFAULT_MINOR_VERSION,
        };
        match &socket_path {
            Some(path) => Docker::connect_with_unix(path.as_str(), DEFAULT_TIMEOUT, &version),
            None => Docker::connect_with_unix(DEFAULT_SOCKET, DEFAULT_TIMEOUT, &version),
        }
    }

    /// A connection to the socket at `path`, which may be written with or
    /// without the mark `unix://`.
    pub fn connect_with_unix(path: &str, timeout: u64, client_version: &ClientVersion) -> (res:
        Result<Docker, Error>)
        ensures
            res matches Ok(docker) && docker@ == (DockerView {
                client_type: ClientType::Unix,
                client_addr: without_first(path@, unix_prefix()),
                client_timeout: timeout,
                version: *client_version,
            }),
    {
        let client_addr = remove_first(path, "unix://");
        Ok(
            Docker {
                client_addr,
                client_timeout: timeout,
                client_type: ClientType::Unix,
                version: *client_version,
            },
        )
    }

    /// The connection with another timeout, of which the whole seconds
    /// count.
    pub fn with_timeout(self, timeout: Duration) -> (res: Docker)
        ensures
            res@ == (DockerView { client_timeout: whole_seconds(timeout), ..self@ }),
    {
        let mut docker = self;
        docker.set_timeout(timeout);
        docker
    }

    /// The time that a request may take: exactly the seconds that the
    /// connection holds.
    pub fn timeout(&self) -> (res: Duration)
        ensures
            res == seconds(self@.client_timeout),
            whole_seconds(res) == self@.client_timeout,
    {
        duration_from_secs(self.client_timeout)
    }

    /// Sets the time that a request may take, of which the whole seconds
    /// count.
    pub fn set_timeout(&mut self, timeout: Duration)
        ensures
            final(self)@ == (DockerView { client_timeout: whole_seconds(timeout), ..old(self)@ }),
    {
        self.client_timeout = duration_as_secs(&timeout);
    }

    /// The API version spoken.
    pub fn client_version(&self) -> (res: ClientVersion)
        ensures
            res == self@.version,
    {
        self.version
    }
}

} // verus!
