//! Errors of the service layer, their messages and HTTP status codes.
use vstd::prelude::*;
use vstd::string::StringExecFns;
use crate::strings::{to_owned_string};

verus! {

/// Service level CRUD errors, each with a message.
#[derive(Debug)]
pub enum ModelError {
    BadRequest(String),
    BadResponse(String),
    Unauthorized(String),
    NotFound(String),
    LogicError(String),
    Unexpected(String),
    Timeout(String),
    Unavailable(String),
    Forbidden(String),
}

/// A storage failure, as the service layer tells its kinds apart.
#[derive(Debug)]
pub enum DbError {
    /// No row matched.
    RowNotFound,
    /// A statement argument was refused, with the reason.
    InvalidArgument(String),
    /// No connection became free in time.
    PoolTimedOut,
    /// An I/O failure, with its description.
    Io(String),
    /// Any other failure, with its description.
    Other(String),
}

impl ModelError {
    /// The message carried by the error.
    pub open spec fn msg(&self) -> Seq<char> {
        match self {
            ModelError::BadRequest(m) => m@,
            ModelError::BadResponse(m) => m@,
            ModelError::Unauthorized(m) => m@,
            ModelError::NotFound(m) => m@,
            ModelError::LogicError(m) => m@,
            ModelError::Unexpected(m) => m@,
            ModelError::Timeout(m) => m@,
            ModelError::Unavailable(m) => m@,
            ModelError::Forbidden(m) => m@,
        }
    }

    /// The words that introduce the message in the error's text.
    pub open spec fn prefix(&self) -> Seq<char> {
        match self {
            ModelError::BadRequest(_) => "Bad Request: "@,
            ModelError::BadResponse(_) => "Bad Response: "@,
            ModelError::Unauthorized(_) => "Unauthorized: "@,
            ModelError::NotFound(_) => "Not Found: "@,
            ModelError::LogicError(_) => "Logic Error: "@,
            ModelError::Unexpected(_) => "Unexpected Error: "@,
            ModelError::Timeout(_) => "Timeout Error: "@,
            ModelError::Unavailable(_) => "Service Unavailable: "@,
            ModelError::Forbidden(_) => "Forbidden: "@,
        }
    }

    /// The HTTP status code that answers the error.
    pub open spec fn status(&self) -> u16 {
        match self {
            ModelError::BadRequest(_) => 400,
            ModelError::BadResponse(_) => 502,
            ModelError::Unauthorized(_) => 401,
            ModelError::NotFound(_) => 404,
            ModelError::LogicError(_) => 500,
            ModelError::Unexpected(_) => 500,
            ModelError::Timeout(_) => 504,
            ModelError::Unavailable(_) => 503,
            ModelError::Forbidden(_) => 403,
        }
    }

    /// The text of the error: its kind, then its message (the `Display` form).
    pub fn to_string(&self) -> (r: String)
        ensures
            r@ == self.prefix() + self.msg(),
    {
        let (prefix, m) = match self {
            ModelError::BadRequest(m) => ("Bad Request: ", m),
            ModelError::BadResponse(m) => ("Bad Response: ", m),
            ModelError::Unauthorized(m) => ("Unauthorized: ", m),
            ModelError::NotFound(m) => ("Not Found: ", m),
            ModelError::LogicError(m) => ("Logic Error: ", m),
            ModelError::Unexpected(m) => ("Unexpected Error: ", m),
            ModelError::Timeout(m) => ("Timeout Error: ", m),
            ModelError::Unavailable(m) => ("Service Unavailable: ", m),
            ModelError::Forbidden(m) => ("Forbidden: ", m),
        };
        let mut r = to_owned_string(prefix);
        r.append(m.as_str());
        r
    }

    /// The HTTP status code that answers the error.
    pub fn status_code(&self) -> (r: u16)
        ensures
            r == self.status(),
    {
        match self {
            ModelError::BadRequest(_) => 400,
            ModelError::BadResponse(_) => 502,
            ModelError::Unauthorized(_) => 401,
            ModelError::NotFound(_) => 404,
            ModelError::LogicError(_) => 500,
            ModelError::Unexpected(_) => 500,
            ModelError::Timeout(_) => 504,
            ModelError::Unavailable(_) => 503,
            ModelError::Forbidden(_) => 403,
        }
    }

    /// The HTTP answer to the error: its status code and its message.
    pub fn into_status(self) -> (r: (u16, String))
        ensures
            r.0 == self.status(),
            r.1@ == self.msg(),
    {
        let code = self.status_code();
        match self {
            ModelError::BadRequest(m) => (code, m),
            ModelError::BadResponse(m) => (code, m),
            ModelError::Unauthorized(m) => (code, m),
            ModelError::NotFound(m) => (code, m),
            ModelError::LogicError(m) => (code, m),
            ModelError::Unexpected(m) => (code, m),
            ModelError::Timeout(m) => (code, m),
            ModelError::Unavailable(m) => (code, m),
            ModelError::Forbidden(m) => (code, m),
        }
    }

    /// The service error for a storage failure: a missing row is `NotFound`,
    /// a refused argument `BadRequest` with its reason, a pool timeout
    /// `Timeout`, an I/O failure `Unavailable`, anything else `Unexpected`.
    pub fn from_db(err: DbError) -> (r: ModelError)
        ensures
            match err {
                DbError::RowNotFound => r is NotFound && r.msg() == "Row not found"@,
                DbError::InvalidArgument(m) => r == ModelError::BadRequest(m),
                DbError::PoolTimedOut => r is Timeout && r.msg() == "Connection pool timed out"@,
                DbError::Io(m) => r == ModelError::Unavailable(m),
                DbError::Other(m) => r == ModelError::Unexpected(m),
            },
    {
        match err {
            DbError::RowNotFound => ModelError::NotFound(to_owned_string("Row not found")),
            DbError::InvalidArgument(m) => ModelError::BadRequest(m),
            DbError::PoolTimedOut => ModelError::Timeout(to_owned_string("Connection pool timed out")),
            DbError::Io(m) => ModelError::Unavailable(m),
            DbError::Other(m) => ModelError::Unexpected(m),
        }
    }
}

} // verus!
