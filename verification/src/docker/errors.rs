//! What can go wrong between the build engine and the runtime.

use vstd::prelude::*;

verus! {

/// A failure of a gateway operation.
#[derive(Debug, PartialEq, Eq)]
pub enum Error {
    /// No response came within the configured time.
    RequestTimeoutError,
    /// The runtime answered with a status that is no success.
    DockerResponseServerError { status_code: u16, message: String },
    /// A JSON text that should have held a value did not.
    JsonDataError { message: String, column: usize, contents: String },
    /// A JSON text ended too early or could not be read at all.
    JsonSerdeError { message: String },
    /// The runtime reported that the awaited container exited with a failure.
    DockerContainerWaitError { error: String, code: i64 },
    /// The address of a request is no URL.
    URLParseError { message: String },
    /// The query of a request could not be encoded.
    URLEncodedError { message: String },
    /// The address of a request is no URI that HTTP accepts.
    InvalidURIError { message: String },
    /// The request could not be put together.
    HttpClientError { message: String },
    /// The transport failed while a response was read.
    HyperResponseError { message: String },
    /// Reading or writing failed.
    IOError { message: String },
}

/// A failure with its texts as characters.
pub enum ErrorView {
    RequestTimeoutError,
    DockerResponseServerError { status_code: u16, message: Seq<char> },
    JsonDataError { message: Seq<char>, column: usize, contents: Seq<char> },
    JsonSerdeError { message: Seq<char> },
    DockerContainerWaitError { error: Seq<char>, code: i64 },
    URLParseError { message: Seq<char> },
    URLEncodedError { message: Seq<char> },
    InvalidURIError { message: Seq<char> },
    HttpClientError { message: Seq<char> },
    HyperResponseError { message: Seq<char> },
    IOError { message: Seq<char> },
}

impl View for Error {
    type V = ErrorView;

    open spec fn view(&self) -> ErrorView {
        match self {
            Error::RequestTimeoutError => ErrorView::RequestTimeoutError,
            Error::DockerResponseServerError { status_code, message } => {
                ErrorView::DockerResponseServerError { status_code: *status_code, message: message@ }
            },
            Error::JsonDataError { message, column, contents } => ErrorView::JsonDataError {
                message: message@,
                column: *column,
                contents: contents@,
            },
            Error::JsonSerdeError { message } => ErrorView::JsonSerdeError { message: message@ },
            Error::DockerContainerWaitError { error, code } => {
                ErrorView::DockerContainerWaitError { error: error@, code: *code }
            },
            Error::URLParseError { message } => ErrorView::URLParseError { message: message@ },
            Error::URLEncodedError { message } => ErrorView::URLEncodedError { message: message@ },
            Error::InvalidURIError { message } => ErrorView::InvalidURIError { message: message@ },
            Error::HttpClientError { message } => ErrorView::HttpClientError { message: message@ },
            Error::HyperResponseError { message } => ErrorView::HyperResponseError {
                message: message@,
            },
            Error::IOError { message } => ErrorView::IOError { message: message@ },
        }
    }
}

impl Clone for Error {
    fn clone(&self) -> (res: Error)
        ensures
            res@ == self@,
    {
        match self {
            Error::RequestTimeoutError => Error::RequestTimeoutError,
            Error::DockerResponseServerError { status_code, message } => {
                Error::DockerResponseServerError {
                    status_code: *status_code,
                    message: message.clone(),
                }
            },
            Error::JsonDataError { message, column, contents } => Error::JsonDataError {
                message: message.clone(),
                column: *column,
                contents: contents.clone(),
            },
            Error::JsonSerdeError { message } => Error::JsonSerdeError { message: message.clone() },
            Error::DockerContainerWaitError { error, code } => Error::DockerContainerWaitError {
                error: error.clone(),
                code: *code,
            },
            Error::URLParseError { message } => Error::URLParseError { message: message.clone() },
            Error::URLEncodedError { message } => Error::URLEncodedError {
                message: message.clone(),
            },
            Error::InvalidURIError { message } => Error::InvalidURIError {
                message: message.clone(),
            },
            Error::HttpClientError { message } => Error::HttpClientError {
                message: message.clone(),
            },
            Error::HyperResponseError { message } => Error::HyperResponseError {
                message: message.clone(),
            },
            Error::IOError { message } => Error::IOError { message: message.clone() },
        }
    }
}

} // verus!
