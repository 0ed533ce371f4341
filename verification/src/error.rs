//! The error taxonomy of the service and its classification rules.
use vstd::prelude::*;

use crate::text::{contains_seq, string_contains};

verus! {

/// The structured body of an error response.
pub struct ErrorResponse {
    pub error: String,
    pub message: String,
    pub details: Option<String>,
}

/// Application error kinds; each maps to one HTTP status class.
#[derive(Debug)]
pub enum ApiError {
    BadRequest(String),
    NotFound(String),
    InternalError(String),
    DatabaseError(String),
    StorageError(String),
    ExternalApiError(String),
}

impl ApiError {
    /// The message carried by the error.
    pub open spec fn spec_message(self) -> Seq<char> {
        match self {
            ApiError::BadRequest(m) => m@,
            ApiError::NotFound(m) => m@,
            ApiError::InternalError(m) => m@,
            ApiError::DatabaseError(m) => m@,
            ApiError::StorageError(m) => m@,
            ApiError::ExternalApiError(m) => m@,
        }
    }

    /// A client fault (4xx) rather than a server fault.
    pub open spec fn spec_is_client_error(self) -> bool {
        self is BadRequest || self is NotFound
    }

    /// The HTTP status code of each kind.
    pub open spec fn spec_status_code(self) -> u16 {
        match self {
            ApiError::BadRequest(_) => 400,
            ApiError::NotFound(_) => 404,
            ApiError::InternalError(_) => 500,
            ApiError::DatabaseError(_) => 500,
            ApiError::StorageError(_) => 500,
            ApiError::ExternalApiError(_) => 502,
        }
    }

    /// The HTTP status code this error is reported with.
    pub fn status_code(&self) -> (r: u16)
        ensures
            r == self.spec_status_code(),
    {
        match self {
            ApiError::BadRequest(_) => 400,
            ApiError::NotFound(_) => 404,
            ApiError::InternalError(_) => 500,
            ApiError::DatabaseError(_) => 500,
            ApiError::StorageError(_) => 500,
            ApiError::ExternalApiError(_) => 502,
        }
    }

    /// The kind tag used in the structured response body.
    pub fn error_type(&self) -> (r: String)
        ensures
            self is BadRequest ==> r@ == "BAD_REQUEST"@,
            self is NotFound ==> r@ == "NOT_FOUND"@,
            self is InternalError ==> r@ == "INTERNAL_ERROR"@,
            self is DatabaseError ==> r@ == "DATABASE_ERROR"@,
            self is StorageError ==> r@ == "STORAGE_ERROR"@,
            self is ExternalApiError ==> r@ == "EXTERNAL_API_ERROR"@,
    {
        match self {
            ApiError::BadRequest(_) => "BAD_REQUEST".to_owned(),
            ApiError::NotFound(_) => "NOT_FOUND".to_owned(),
            ApiError::InternalError(_) => "INTERNAL_ERROR".to_owned(),
            ApiError::DatabaseError(_) => "DATABASE_ERROR".to_owned(),
            ApiError::StorageError(_) => "STORAGE_ERROR".to_owned(),
            ApiError::ExternalApiError(_) => "EXTERNAL_API_ERROR".to_owned(),
        }
    }

    /// The error message.
    pub fn message(&self) -> (r: String)
        ensures
            r@ == self.spec_message(),
    {
        match self {
            ApiError::BadRequest(m) => m.clone(),
            ApiError::NotFound(m) => m.clone(),
            ApiError::InternalError(m) => m.clone(),
            ApiError::DatabaseError(m) => m.clone(),
            ApiError::StorageError(m) => m.clone(),
            ApiError::ExternalApiError(m) => m.clone(),
        }
    }

    /// Client-class errors are logged at a lower severity than server-class ones.
    pub fn is_client_error(&self) -> (r: bool)
        ensures
            r == self.spec_is_client_error(),
    {
        match self {
            ApiError::BadRequest(_) => true,
            ApiError::NotFound(_) => true,
            _ => false,
        }
    }

    /// The structured response body for this error: the kind tag and the
    /// message, with no details.
    pub fn to_response(&self) -> (r: ErrorResponse)
        ensures
            r.message@ == self.spec_message(),
            r.details is None,
            self is BadRequest ==> r.error@ == "BAD_REQUEST"@,
            self is NotFound ==> r.error@ == "NOT_FOUND"@,
            self is InternalError ==> r.error@ == "INTERNAL_ERROR"@,
            self is DatabaseError ==> r.error@ == "DATABASE_ERROR"@,
            self is StorageError ==> r.error@ == "STORAGE_ERROR"@,
            self is ExternalApiError ==> r.error@ == "EXTERNAL_API_ERROR"@,
    {
        ErrorResponse { error: self.error_type(), message: self.message(), details: None }
    }
}

/// How a bare message classifies into the taxonomy: "not found" wording means
/// a missing resource, database wording means a database fault, anything else
/// is an internal fault.
pub open spec fn spec_classify_message(m: Seq<char>) -> ApiErrorKind {
    if contains_seq(m, "not found"@) || contains_seq(m, "Not found"@) {
        ApiErrorKind::NotFound
    } else if contains_seq(m, "database"@) || contains_seq(m, "SQL"@) {
        ApiErrorKind::Database
    } else {
        ApiErrorKind::Internal
    }
}

/// The kind of an ApiError, without its payload.
pub enum ApiErrorKind {
    BadRequest,
    NotFound,
    Internal,
    Database,
    Storage,
    ExternalApi,
}

impl ApiError {
    /// The kind of this error.
    pub open spec fn kind(self) -> ApiErrorKind {
        match self {
            ApiError::BadRequest(_) => ApiErrorKind::BadRequest,
            ApiError::NotFound(_) => ApiErrorKind::NotFound,
            ApiError::InternalError(_) => ApiErrorKind::Internal,
            ApiError::DatabaseError(_) => ApiErrorKind::Database,
            ApiError::StorageError(_) => ApiErrorKind::Storage,
            ApiError::ExternalApiError(_) => ApiErrorKind::ExternalApi,
        }
    }
}

/// Classifies a bare error message into the taxonomy by its wording,
/// keeping the message as the payload.
pub fn api_error_from_message(msg: String) -> (e: ApiError)
    ensures
        e.spec_message() == msg@,
        e.kind() == spec_classify_message(msg@),
{
    if string_contains(&msg, "not found") || string_contains(&msg, "Not found") {
        ApiError::NotFound(msg)
    } else if string_contains(&msg, "database") || string_contains(&msg, "SQL") {
        ApiError::DatabaseError(msg)
    } else {
        ApiError::InternalError(msg)
    }
}

/// Classifies a file-system failure: a missing file is a missing resource,
/// anything else is a storage fault.
pub fn api_error_from_io(is_not_found: bool, msg: String) -> (e: ApiError)
    ensures
        e.spec_message() == msg@,
        is_not_found ==> e is NotFound,
        !is_not_found ==> e is StorageError,
{
    if is_not_found {
        ApiError::NotFound(msg)
    } else {
        ApiError::StorageError(msg)
    }
}

} // verus!
