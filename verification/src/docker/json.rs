//! JSON texts of the runtime, read with `serde_json`.
//!
//! What `serde_json` makes of a text is not proved here: each reading has a
//! name, and the functions that read say no more than that their result is
//! the one of that name. What the library does with a reading is verified.

use bollard_stubs::models::{
    ContainerCreateResponse, ContainerWaitExitError, ContainerWaitResponse, ErrorResponse,
};
use serde_json::error::Category;
use vstd::prelude::*;
use vstd::slice::slice_to_vec;

verus! {

/// `bollard_stubs::models::ContainerWaitResponse`: the record that a wait
/// answers with. Verus reads the public fields of the type as they are
/// declared.
#[verifier::external_type_specification]
pub struct ExContainerWaitResponse(ContainerWaitResponse);

/// `bollard_stubs::models::ContainerWaitExitError`: the runtime's note on a
/// failed exit. Verus reads the public field of the type as it is declared.
#[verifier::external_type_specification]
pub struct ExContainerWaitExitError(ContainerWaitExitError);

/// `bollard_stubs::models::ContainerCreateResponse`: the handle of a created
/// container. Verus reads the public fields of the type as they are
/// declared.
#[verifier::external_type_specification]
pub struct ExContainerCreateResponse(ContainerCreateResponse);

/// `serde_json::error::Category`: why a text could not be read as JSON. The
/// text is no JSON (`Syntax`), is JSON of another shape than the one asked
/// for (`Data`), or ends in the middle of a value (`Eof`); `Io` is for bytes
/// that could not be read at all. Verus reads the variants of the type as
/// they are declared.
#[verifier::external_type_specification]
pub struct ExCategory(Category);

/// A failed reading with its message as characters.
pub struct JsonFailureView {
    pub kind: Category,
    pub column: usize,
    pub message: Seq<char>,
}

/// A failed reading: its kind, the column at which it was noticed, and the
/// reader's message.
#[derive(Debug, PartialEq, Eq)]
pub struct JsonFailure {
    pub kind: Category,
    pub column: usize,
    pub message: String,
}

impl View for JsonFailure {
    type V = JsonFailureView;

    open spec fn view(&self) -> JsonFailureView {
        JsonFailureView { kind: self.kind, column: self.column, message: self.message@ }
    }
}

/// A type of values that are read from JSON texts.
pub trait JsonRecord: Sized {
    /// What a value is to the contracts.
    type Model;

    /// The value as the contracts see it.
    spec fn model(&self) -> Self::Model;

    /// What a text holds: a value, nothing (the text `null`), or the reason
    /// why it could not be read.
    spec fn json(text: Seq<u8>) -> Result<Option<Self::Model>, JsonFailureView>;

    /// Reads a text.
    fn from_json(text: &[u8]) -> (res: Result<Option<Self>, JsonFailure>)
        ensures
            match res {
                Ok(Some(value)) => Self::json(text@) == Ok::<
                    Option<Self::Model>,
                    JsonFailureView,
                >(Some(value.model())),
                Ok(None) => Self::json(text@) == Ok::<Option<Self::Model>, JsonFailureView>(None),
                Err(failure) => Self::json(text@) == Err::<Option<Self::Model>, JsonFailureView>(
                    failure@,
                ),
            },
    ;
}

/// A reading as the contracts see it.
pub open spec fn reading<T: JsonRecord>(res: Result<Option<T>, JsonFailure>) -> Result<
    Option<T::Model>,
    JsonFailureView,
> {
    match res {
        Ok(Some(value)) => Ok(Some(value.model())),
        Ok(None) => Ok(None),
        Err(failure) => Err(failure@),
    }
}

/// A wait record with its message as characters.
pub struct WaitRecord {
    pub status_code: i64,
    pub error: Option<Option<Seq<char>>>,
}

/// The wait record that a response holds.
pub open spec fn wait_record(response: ContainerWaitResponse) -> WaitRecord {
    WaitRecord {
        status_code: response.status_code,
        error: match response.error {
            Some(error) => Some(
                match error.message {
                    Some(message) => Some(message@),
                    None => None,
                },
            ),
            None => None,
        },
    }
}

/// What `serde_json` reads out of a text as an optional wait record.
pub uninterp spec fn wait_record_json(text: Seq<u8>) -> Result<Option<WaitRecord>, JsonFailureView>;

/// `serde_json::from_slice` for an optional
/// `bollard_stubs::models::ContainerWaitResponse`. The result depends on the
/// text alone. A failure is handed on by its category, its column and its
/// message.
#[verifier::external_body]
fn wait_record_from_slice(text: &[u8]) -> (res: Result<Option<ContainerWaitResponse>, JsonFailure>)
    ensures
        match res {
            Ok(Some(response)) => wait_record_json(text@) == Ok::<
                Option<WaitRecord>,
                JsonFailureView,
            >(Some(wait_record(response))),
            Ok(None) => wait_record_json(text@) == Ok::<Option<WaitRecord>, JsonFailureView>(None),
            Err(failure) => wait_record_json(text@) == Err::<Option<WaitRecord>, JsonFailureView>(
                failure@,
            ),
        },
{
    match serde_json::from_slice::<Option<ContainerWaitResponse>>(text) {
        Ok(record) => Ok(record),
        Err(e) => Err(JsonFailure { kind: e.classify(), column: e.column(), message: e.to_string() }),
    }
}

impl JsonRecord for ContainerWaitResponse {
    type Model = WaitRecord;

    open spec fn model(&self) -> WaitRecord {
        wait_record(*self)
    }

    open spec fn json(text: Seq<u8>) -> Result<Option<WaitRecord>, JsonFailureView> {
        wait_record_json(text)
    }

    fn from_json(text: &[u8]) -> (res: Result<Option<Self>, JsonFailure>) {
        wait_record_from_slice(text)
    }
}

/// A JSON value by its text.
#[derive(Debug, PartialEq, Eq)]
pub struct RawJson {
    pub text: Vec<u8>,
}

impl Clone for RawJson {
    fn clone(&self) -> (res: RawJson)
        ensures
            res@ == self@,
    {
        RawJson { text: self.text.clone() }
    }
}

impl View for RawJson {
    type V = Seq<u8>;

    open spec fn view(&self) -> Seq<u8> {
        self.text@
    }
}

/// Whether `serde_json` finds a value in a text: `true` for a value, `false`
/// for the text `null`, or the reason why the text is no JSON.
pub uninterp spec fn json_value_json(text: Seq<u8>) -> Result<bool, JsonFailureView>;

/// `serde_json::from_slice` for an optional `serde_json::Value`, which is
/// any one JSON value; nothing of the value is kept. The result depends on
/// the text alone. A failure is handed on by its category, its column and its
/// message.
#[verifier::external_body]
fn json_value_from_slice(text: &[u8]) -> (res: Result<bool, JsonFailure>)
    ensures
        match res {
            Ok(found) => json_value_json(text@) == Ok::<bool, JsonFailureView>(found),
            Err(failure) => json_value_json(text@) == Err::<bool, JsonFailureView>(failure@),
        },
{
    match serde_json::from_slice::<Option<serde_json::Value>>(text) {
        Ok(found) => Ok(found.is_some()),
        Err(e) => Err(JsonFailure { kind: e.classify(), column: e.column(), message: e.to_string() }),
    }
}

impl JsonRecord for RawJson {
    type Model = Seq<u8>;

    open spec fn model(&self) -> Seq<u8> {
        self@
    }

    open spec fn json(text: Seq<u8>) -> Result<Option<Seq<u8>>, JsonFailureView> {
        match json_value_json(text) {
            Ok(found) => if found {
                Ok(Some(text))
            } else {
                Ok(None)
            },
            Err(failure) => Err(failure),
        }
    }

    fn from_json(text: &[u8]) -> (res: Result<Option<Self>, JsonFailure>) {
        match json_value_from_slice(text) {
            Ok(found) => if found {
                Ok(Some(RawJson { text: slice_to_vec(text) }))
            } else {
                Ok(None)
            },
            Err(failure) => Err(failure),
        }
    }
}

/// The handle of a created container with its texts as characters.
pub struct CreatedContainer {
    pub id: Seq<char>,
    pub warnings: Seq<Seq<char>>,
}

/// The handle that a response holds.
pub open spec fn created_container(response: ContainerCreateResponse) -> CreatedContainer {
    CreatedContainer {
        id: response.id@,
        warnings: response.warnings@.map_values(|warning: String| warning@),
    }
}

/// What `serde_json` reads out of a text as the handle of a created
/// container.
pub uninterp spec fn create_response_json(text: Seq<u8>) -> Result<
    CreatedContainer,
    JsonFailureView,
>;

/// `serde_json::from_slice` for a
/// `bollard_stubs::models::ContainerCreateResponse`. The result depends on the
/// text alone. A failure is handed on by its category, its column and its
/// message.
#[verifier::external_body]
pub(crate) fn create_response_from_slice(text: &[u8]) -> (res: Result<
    ContainerCreateResponse,
    JsonFailure,
>)
    ensures
        match res {
            Ok(response) => create_response_json(text@) == Ok::<
                CreatedContainer,
                JsonFailureView,
            >(created_container(response)),
            Err(failure) => create_response_json(text@) == Err::<
                CreatedContainer,
                JsonFailureView,
            >(failure@),
        },
{
    match serde_json::from_slice::<ContainerCreateResponse>(text) {
        Ok(response) => Ok(response),
        Err(e) => Err(JsonFailure { kind: e.classify(), column: e.column(), message: e.to_string() }),
    }
}

/// The message that `serde_json` reads out of a text of the shape
/// `{"message": ...}`, if the text has that shape.
pub uninterp spec fn error_message_json(text: Seq<char>) -> Option<Seq<char>>;

/// `serde_json::from_str` for a `bollard_stubs::models::ErrorResponse`, of
/// which the message is kept. The result depends on the text alone.
#[verifier::external_body]
pub(crate) fn error_message_from_str(text: &str) -> (res: Option<String>)
    ensures
        match res {
            Some(message) => error_message_json(text@) == Some(message@),
            None => error_message_json(text@) is None,
        },
{
    match serde_json::from_str::<ErrorResponse>(text) {
        Ok(response) => Some(response.message),
        Err(_) => None,
    }
}

} // verus!
