//! What the HTTP layer decides before and after it calls the store:
//! whether a request carries the key, which routes exist, and what status
//! a failure is reported with.
use vstd::prelude::*;
use vstd::string::StringExecFns;
use crate::ident::{hyphenated, id_text};
use crate::utils::{error_text, ApiResult, StoreError};

pub mod author;
pub mod book;
pub mod fragment;
pub mod routes;

verus! {

/// The key a request has presented to change the catalogue. There is one
/// way to come by a value of this type: to present the key of the server
/// to [`ApiKey::from_header`].
#[derive(Debug, Clone, Copy, PartialEq, Eq)]
pub struct ApiKey<'r>(&'r str);

impl<'r> View for ApiKey<'r> {
    type V = Seq<char>;

    /// The characters of the key.
    closed spec fn view(&self) -> Seq<char> {
        self.0@
    }
}

/// Why a request was not let through.
#[derive(Debug, Clone, Copy, PartialEq, Eq, Structural)]
pub enum ApiKeyError {
    /// The request carries no `x-api-key` header.
    Missing,
    /// The header does not hold the key of the server.
    Invalid,
}

/// What becomes of a request whose `x-api-key` header is `header`, on a
/// server whose key is `server_key`.
pub open spec fn key_outcome(header: Option<&str>, server_key: Seq<char>) -> Result<
    Seq<char>,
    ApiKeyError,
> {
    match header {
        None => Err(ApiKeyError::Missing),
        Some(key) => if key@ == server_key {
            Ok(key@)
        } else {
            Err(ApiKeyError::Invalid)
        },
    }
}

impl<'r> ApiKey<'r> {
    /// Lets a request through if its `x-api-key` header holds the key of
    /// the server.
    pub fn from_header(header: Option<&'r str>, server_key: &str) -> (outcome: Result<
        ApiKey<'r>,
        ApiKeyError,
    >)
        ensures
            match outcome {
                Ok(key) => key_outcome(header, server_key@) == Ok::<Seq<char>, ApiKeyError>(
                    key@,
                ),
                Err(error) => key_outcome(header, server_key@) == Err::<Seq<char>, ApiKeyError>(
                    error,
                ),
            },
    {
        match header {
            None => Err(ApiKeyError::Missing),
            Some(key) => if is_valid(key, server_key) {
                Ok(ApiKey(key))
            } else {
                Err(ApiKeyError::Invalid)
            },
        }
    }
}

impl<'r> ApiKey<'r> {
    /// The key as text.
    pub fn as_str(&self) -> (text: &'r str)
        ensures
            text@ == self@,
    {
        self.0
    }
}

impl ApiKeyError {
    /// The status a request without the right key is answered with.
    pub fn status(&self) -> (status: Status)
        ensures
            status == Status::BadRequest,
    {
        Status::BadRequest
    }
}

/// Equality of string slices, `<str as PartialEq>::eq` of the standard
/// library. Not proved: two slices are equal exactly when they hold the
/// same characters.
pub assume_specification[ <str as PartialEq>::eq ](left: &str, right: &str) -> (same: bool)
    ensures
        same == (left@ == right@),
;

/// Tells whether `key` is the key of the server.
pub fn is_valid(key: &str, server_key: &str) -> (valid: bool)
    ensures
        valid == (key@ == server_key@),
{
    *key == *server_key
}

/// The status a failed request is answered with.
#[derive(Debug, Clone, Copy, PartialEq, Eq, Structural)]
pub enum Status {
    BadRequest,
    NotFound,
    NotAcceptable,
    InternalServerError,
}

impl Status {
    /// The number of the status.
    pub fn code(&self) -> (code: u16)
        ensures
            code == match *self {
                Status::BadRequest => 400u16,
                Status::NotFound => 404u16,
                Status::NotAcceptable => 406u16,
                Status::InternalServerError => 500u16,
            },
    {
        match self {
            Status::BadRequest => 400,
            Status::NotFound => 404,
            Status::NotAcceptable => 406,
            Status::InternalServerError => 500,
        }
    }
}

/// A failed request: the status and the message it is answered with.
#[derive(Debug, Clone, PartialEq, Eq)]
pub struct Failure {
    pub status: Status,
    pub message: String,
}

/// What a handler answers: the value, or the failure.
pub type JsonResponse<T> = Result<T, Failure>;

/// An answer in the shape `{ code, message }`.
#[derive(Debug, Clone, PartialEq, Eq)]
pub struct ApiResponse {
    pub code: i32,
    pub message: String,
}

/// An author as the plain server answers with it: every name as text.
#[derive(Debug, Clone, PartialEq, Eq)]
pub struct AuthorJson {
    pub id: String,
    pub first_name: String,
    pub last_name: String,
    pub alias: String,
}

/// A book as the plain server answers with it, with its author inside.
#[derive(Debug, Clone, PartialEq, Eq)]
pub struct BookJson {
    pub id: String,
    pub name: String,
    pub author: AuthorJson,
    pub isbns: Vec<String>,
    pub cover: String,
    pub publisher: Option<String>,
    pub published: Option<String>,
    pub genres: Vec<String>,
    pub synopsis: Option<String>,
    pub book_type: String,
}

/// A fragment as the plain server answers with it, with its book inside.
#[derive(Debug, Clone, PartialEq, Eq)]
pub struct BookFragmentJson {
    pub book: BookJson,
    pub rank: i32,
    pub text: String,
    pub one_shot_sound_source: Option<String>,
}

impl ApiResponse {
    /// The answer to a request that failed: code 500 and the words
    /// `text`.
    pub fn saying(text: String) -> (response: ApiResponse)
        ensures
            response.code == 500,
            response.message@ == text@,
    {
        ApiResponse { code: 500, message: text }
    }

    /// The answer to a request that failed in the store: code 500 and the
    /// text of the error.
    pub fn from_error(error: StoreError) -> (response: ApiResponse)
        ensures
            response.code == 500,
            response.message@ == error_text(error),
    {
        ApiResponse::saying(error.message())
    }
}

/// `response` is the failure that carries `status` and `message`.
pub open spec fn fails_with<T>(response: JsonResponse<T>, status: Status, message: Seq<char>) -> bool {
    match response {
        Ok(_) => false,
        Err(failure) => failure.status == status && failure.message@ == message,
    }
}

/// The failure that reports an internal server error in the words
/// `text`.
pub fn internal_error_saying(text: String) -> (failure: Failure)
    ensures
        failure.status == Status::InternalServerError,
        failure.message@ == text@,
{
    Failure { status: Status::InternalServerError, message: text }
}

/// The failure that reports `error` as an internal server error with the
/// text of the error.
pub fn internal_error(error: StoreError) -> (failure: Failure)
    ensures
        failure.status == Status::InternalServerError,
        failure.message@ == error_text(error),
{
    internal_error_saying(error.message())
}

/// The message that says that no record of the kind `what` carries the
/// identifier `id`.
pub open spec fn not_found_text(what: Seq<char>, id: u128) -> Seq<char> {
    what + " ID "@ + hyphenated(id) + " not found"@
}

/// The failure that reports `error` for a request on the record `id` of
/// the kind `what`, where the store put the error in the words `text`:
/// not found, naming the kind and the identifier, if the record is
/// missing, and an internal server error in the words of the store
/// otherwise.
pub fn not_found_or_internal_saying(error: StoreError, text: String, what: &str, id: u128) -> (failure:
    Failure)
    ensures
        failure.status == if error == StoreError::NotFound {
            Status::NotFound
        } else {
            Status::InternalServerError
        },
        failure.message@ == if error == StoreError::NotFound {
            not_found_text(what@, id)
        } else {
            text@
        },
{
    match error {
        StoreError::NotFound => {
            let written = id_text(id);
            let message = String::from_str(what).concat(" ID ").concat(written.as_str()).concat(
                " not found",
            );
            Failure { status: Status::NotFound, message }
        },
        _ => internal_error_saying(text),
    }
}

/// The failure that reports `error` for a request on the record `id` of
/// the kind `what`: not found, naming the kind and the identifier, if the
/// record is missing, and an internal server error with the text of the
/// error otherwise.
pub fn not_found_or_internal(error: StoreError, what: &str, id: u128) -> (failure: Failure)
    ensures
        failure.status == if error == StoreError::NotFound {
            Status::NotFound
        } else {
            Status::InternalServerError
        },
        failure.message@ == if error == StoreError::NotFound {
            not_found_text(what@, id)
        } else {
            error_text(error)
        },
{
    not_found_or_internal_saying(error, error.message(), what, id)
}

/// Hands a value through and reports every failure of the store as an
/// internal server error with the text of the failure.
pub fn json_val_or_error<T>(result: ApiResult<T>) -> (response: JsonResponse<T>)
    ensures
        match result {
            Ok(value) => response == Ok::<T, Failure>(value),
            Err(error) => fails_with(response, Status::InternalServerError, error_text(error)),
        },
{
    match result {
        Ok(value) => Ok(value),
        Err(error) => Err(internal_error(error)),
    }
}

/// Hands a value through, reports a missing record as not found, naming
/// the kind of record and its identifier, and every other failure of the
/// store as an internal server error with the text of the failure.
pub fn json_val_or_not_found<T>(result: ApiResult<T>, what: &str, id: u128) -> (response:
    JsonResponse<T>)
    ensures
        match result {
            Ok(value) => response == Ok::<T, Failure>(value),
            Err(StoreError::NotFound) => fails_with(
                response,
                Status::NotFound,
                not_found_text(what@, id),
            ),
            Err(error) => fails_with(response, Status::InternalServerError, error_text(error)),
        },
{
    match result {
        Ok(value) => Ok(value),
        Err(error) => Err(not_found_or_internal(error, what, id)),
    }
}

} // verus!
