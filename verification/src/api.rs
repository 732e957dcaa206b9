//! The HTTP facade's replies: which status, which stable error code and which
//! JSON body each outcome of a request is answered with.

use crate::db::{
    AddCommitteeError, CommitteeRecord, DeleteCommitteeError, GetUserError, RenameCommitteeError,
    UserRecord,
};
use vstd::prelude::*;

verus! {

/// `serde_json::Error`, carried through unread.
#[verifier::external_type_specification]
#[verifier::external_body]
pub struct ExJsonError(serde_json::Error);

/// The media type every reply of the facade declares.
pub open spec fn json_content_type() -> Seq<char> {
    "application/json"@
}

/// The member name under which an error envelope carries its stable code.
pub open spec fn error_code_key() -> Seq<char> {
    "error_code"@
}

/// The member name under which an error envelope carries its message.
pub open spec fn debug_msg_key() -> Seq<char> {
    "debug_msg"@
}

/// The JSON text that `serde_json::to_string` produces for the
/// `serde_json::Value::Object` made of an empty `serde_json::Map` by two
/// insertions: first the integer `number` under `number_key`, then the string
/// `text` under `text_key`.
pub uninterp spec fn json_object_text(
    number_key: Seq<char>,
    number: int,
    text_key: Seq<char>,
    text: Seq<char>,
) -> Seq<char>;

/// Makes a `serde_json::Map` with `serde_json::Map::new`, inserts `number`
/// under `number_key` and then `text` under `text_key` with
/// `serde_json::Map::insert`, and hands the map as a
/// `serde_json::Value::Object` to `serde_json::to_string`.
///
/// Trusted: the encoder succeeds, and its text is the one named by
/// [`json_object_text`]. It succeeds because an object with string keys, an
/// integer and a string gives the serializer nothing to refuse: on this path
/// the only failures it knows are failures of its writer, and
/// `serde_json::to_string` writes into a `Vec<u8>`, which takes every write.
#[verifier::external_body]
fn encode_object(number_key: &str, number: i32, text_key: &str, text: &str) -> (encoded: Result<
    String,
    serde_json::Error,
>)
    ensures
        encoded is Ok,
        encoded matches Ok(json) ==> json@ == json_object_text(
            number_key@,
            number as int,
            text_key@,
            text@,
        ),
{
    let mut object = serde_json::Map::new();
    object.insert(number_key.to_owned(), serde_json::Value::from(number));
    object.insert(text_key.to_owned(), serde_json::Value::from(text));
    serde_json::to_string(&serde_json::Value::Object(object))
}

/// What the facade sends back, as plain values.
#[derive(Debug)]
pub struct Response {
    pub status: u16,
    pub content_type: String,
    pub body: String,
}

/// The ways a request can fail, as the facade reports them.
#[derive(Debug)]
pub enum ApiError {
    Other,
    JsonError(serde_json::Error),
    DuplicateCommittee,
    CommitteeNotFound,
    UserNotFound,
}

impl ApiError {
    /// The HTTP status of this kind of failure.
    pub open spec fn status(self) -> u16 {
        match self {
            ApiError::Other => 500,
            ApiError::JsonError(_) => 500,
            ApiError::DuplicateCommittee => 409,
            ApiError::CommitteeNotFound => 404,
            ApiError::UserNotFound => 404,
        }
    }

    /// The stable integer by which clients tell the failures apart.
    pub open spec fn code(self) -> int {
        match self {
            ApiError::Other => -1,
            ApiError::JsonError(_) => 1,
            ApiError::DuplicateCommittee => 2,
            ApiError::CommitteeNotFound => 3,
            ApiError::UserNotFound => 4,
        }
    }

    /// The human-readable message that accompanies the code.
    pub open spec fn message(self) -> Seq<char> {
        match self {
            ApiError::Other => "Unknown error"@,
            ApiError::JsonError(_) => "JSON error"@,
            ApiError::DuplicateCommittee => "Duplicate committee name"@,
            ApiError::CommitteeNotFound => "Committee not found"@,
            ApiError::UserNotFound => "User not found"@,
        }
    }

    /// The HTTP status this failure goes out under.
    pub fn status_code(&self) -> (status: u16)
        ensures
            status == self.status(),
    {
        match self {
            ApiError::Other => 500,
            ApiError::JsonError(_) => 500,
            ApiError::DuplicateCommittee => 409,
            ApiError::CommitteeNotFound => 404,
            ApiError::UserNotFound => 404,
        }
    }

    /// The stable code of this failure, as the envelope carries it.
    pub fn error_code(&self) -> (code: i32)
        ensures
            code == self.code(),
    {
        match self {
            ApiError::Other => -1,
            ApiError::JsonError(_) => 1,
            ApiError::DuplicateCommittee => 2,
            ApiError::CommitteeNotFound => 3,
            ApiError::UserNotFound => 4,
        }
    }

    /// The message of this failure, as the envelope carries it.
    pub fn debug_msg(&self) -> (msg: &'static str)
        ensures
            msg@ == self.message(),
    {
        match self {
            ApiError::Other => "Unknown error",
            ApiError::JsonError(_) => "JSON error",
            ApiError::DuplicateCommittee => "Duplicate committee name",
            ApiError::CommitteeNotFound => "Committee not found",
            ApiError::UserNotFound => "User not found",
        }
    }

    /// The envelope of this failure: the JSON object that carries its code
    /// under `error_code` and its message under `debug_msg`.
    pub open spec fn envelope(self) -> Seq<char> {
        json_object_text(error_code_key(), self.code(), debug_msg_key(), self.message())
    }

    /// Turns the failure into its reply: the envelope `{error_code, debug_msg}`
    /// under the failure's status.
    pub fn into_response(self) -> (response: Response)
        ensures
            response.status == self.status(),
            response.content_type@ == json_content_type(),
            response.body@ == json_object_text(
                error_code_key(),
                self.code(),
                debug_msg_key(),
                self.message(),
            ),
    {
        let encoded = encode_object(
            "error_code",
            self.error_code(),
            "debug_msg",
            self.debug_msg(),
        );
        error_response(self.status_code(), encoded)
    }
}

/// Frames an error envelope that the encoder has worked on: its text goes out
/// under `status`. Should an encoder ever fail on one, an empty body goes out
/// under 500.
pub fn error_response(status: u16, encoded: Result<String, serde_json::Error>) -> (response:
    Response)
    ensures
        response.content_type@ == json_content_type(),
        match encoded {
            Ok(json) => response.status == status && response.body == json,
            Err(_) => response.status == 500 && response.body@ == Seq::<char>::empty(),
        },
{
    match encoded {
        Ok(json) => Response { status, content_type: "application/json".to_owned(), body: json },
        Err(_) => Response {
            status: 500,
            content_type: "application/json".to_owned(),
            body: String::new(),
        },
    }
}

/// What a request handler hands to the facade: the payload of a success, or
/// the failure.
#[derive(Debug)]
pub enum ApiResult<R> {
    Success(R),
    Error(ApiError),
}

impl ApiResult<Result<String, serde_json::Error>> {
    /// Turns a handler's result into its reply, once the JSON encoder has
    /// worked on the payload of a success.
    ///
    /// An encoded payload goes out under 200. A payload that the encoder
    /// failed on is answered as the failure `JsonError`, and a failure as
    /// [`ApiError::into_response`] answers it: under its status, with its
    /// envelope.
    pub fn into_response(self) -> (response: Response)
        ensures
            response.content_type@ == json_content_type(),
            match self {
                ApiResult::Success(Ok(json)) => response.status == 200 && response.body == json,
                ApiResult::Success(Err(failure)) => {
                    &&& response.status == 500
                    &&& response.body@ == ApiError::JsonError(failure).envelope()
                },
                ApiResult::Error(error) => {
                    &&& response.status == error.status()
                    &&& response.body@ == error.envelope()
                },
            },
    {
        match self {
            ApiResult::Success(encoded) => match encoded {
                Err(failure) => ApiError::JsonError(failure).into_response(),
                Ok(json) => Response {
                    status: 200,
                    content_type: "application/json".to_owned(),
                    body: json,
                },
            },
            ApiResult::Error(error) => error.into_response(),
        }
    }
}

/// Answers a storage failure: the client learns nothing of it but `Other`.
pub fn handle_sqlx_error<R>(error: sqlx::Error) -> (reply: ApiResult<R>)
    ensures
        reply == ApiResult::<R>::Error(ApiError::Other),
{
    ApiResult::Error(ApiError::Other)
}

/// Answers a request for the listing with what storage gave.
pub fn get_all_committees(outcome: Result<Vec<CommitteeRecord>, sqlx::Error>) -> (reply: ApiResult<
    Vec<CommitteeRecord>,
>)
    ensures
        reply == match outcome {
            Ok(list) => ApiResult::Success(list),
            Err(_) => ApiResult::Error(ApiError::Other),
        },
{
    match outcome {
        Ok(all_committees) => ApiResult::Success(all_committees),
        Err(failure) => handle_sqlx_error(failure),
    }
}

/// Answers an add request with what the add write path returned.
pub fn add_committee(outcome: Result<Vec<CommitteeRecord>, AddCommitteeError>) -> (reply: ApiResult<
    Vec<CommitteeRecord>,
>)
    ensures
        reply == match outcome {
            Ok(list) => ApiResult::Success(list),
            Err(AddCommitteeError::Duplicate) => ApiResult::Error(ApiError::DuplicateCommittee),
            Err(AddCommitteeError::Other(_)) => ApiResult::Error(ApiError::Other),
        },
{
    match outcome {
        Ok(results) => ApiResult::Success(results),
        Err(AddCommitteeError::Duplicate) => ApiResult::Error(ApiError::DuplicateCommittee),
        Err(AddCommitteeError::Other(failure)) => handle_sqlx_error(failure),
    }
}

/// Answers a rename request with what the rename write path returned.
pub fn rename_committee(outcome: Result<Vec<CommitteeRecord>, RenameCommitteeError>) -> (reply:
    ApiResult<Vec<CommitteeRecord>>)
    ensures
        reply == match outcome {
            Ok(list) => ApiResult::Success(list),
            Err(RenameCommitteeError::NotFound) => ApiResult::Error(ApiError::CommitteeNotFound),
            Err(RenameCommitteeError::Duplicate) => ApiResult::Error(ApiError::DuplicateCommittee),
            Err(RenameCommitteeError::Other(_)) => ApiResult::Error(ApiError::Other),
        },
{
    match outcome {
        Ok(results) => ApiResult::Success(results),
        Err(RenameCommitteeError::NotFound) => ApiResult::Error(ApiError::CommitteeNotFound),
        Err(RenameCommitteeError::Duplicate) => ApiResult::Error(ApiError::DuplicateCommittee),
        Err(RenameCommitteeError::Other(failure)) => handle_sqlx_error(failure),
    }
}

/// Answers a delete request with what the delete write path returned.
pub fn delete_committee(outcome: Result<Vec<CommitteeRecord>, DeleteCommitteeError>) -> (reply:
    ApiResult<Vec<CommitteeRecord>>)
    ensures
        reply == match outcome {
            Ok(list) => ApiResult::Success(list),
            Err(DeleteCommitteeError::NotFound) => ApiResult::Error(ApiError::CommitteeNotFound),
            Err(DeleteCommitteeError::Other(_)) => ApiResult::Error(ApiError::Other),
        },
{
    match outcome {
        Ok(results) => ApiResult::Success(results),
        Err(DeleteCommitteeError::NotFound) => ApiResult::Error(ApiError::CommitteeNotFound),
        Err(DeleteCommitteeError::Other(failure)) => handle_sqlx_error(failure),
    }
}

/// Answers a request for one user with what the lookup returned.
pub fn get_specific_user(outcome: Result<UserRecord, GetUserError>) -> (reply: ApiResult<
    UserRecord,
>)
    ensures
        reply == match outcome {
            Ok(user) => ApiResult::Success(user),
            Err(GetUserError::NotFound) => ApiResult::Error(ApiError::UserNotFound),
            Err(GetUserError::Other(_)) => ApiResult::Error(ApiError::Other),
        },
{
    match outcome {
        Ok(user_record) => ApiResult::Success(user_record),
        Err(GetUserError::NotFound) => ApiResult::Error(ApiError::UserNotFound),
        Err(GetUserError::Other(failure)) => handle_sqlx_error(failure),
    }
}

} // verus!
