use vstd::prelude::*;

use vstd::string::StringExecFns;

use crate::modules;

verus! {

/// Why a request failed.
#[derive(Debug)]
pub enum AppError {
    /// Answer with this HTTP status.
    StatusCode(u16),
    /// A fault of the server's own code.
    Dev(&'static str),
    /// Another failure, described.
    Generic(String),
}

/// The status page that answers an error: its own status for a status
/// error, 500 for any other.
pub open spec fn spec_status_page(e: AppError) -> u16 {
    match e {
        AppError::StatusCode(code) => code,
        _ => 500,
    }
}

impl AppError {
    /// The server failed: 500.
    pub fn server_error() -> (r: Self)
        ensures
            r == AppError::StatusCode(500),
    {
        AppError::StatusCode(500)
    }

    /// The request is malformed: 400.
    pub fn bad_request() -> (r: Self)
        ensures
            r == AppError::StatusCode(400),
    {
        AppError::StatusCode(400)
    }

    /// The request is not allowed: 403.
    pub fn forbidden() -> (r: Self)
        ensures
            r == AppError::StatusCode(403),
    {
        AppError::StatusCode(403)
    }

    /// Nothing is there: 404.
    pub fn not_found() -> (r: Self)
        ensures
            r == AppError::StatusCode(404),
    {
        AppError::StatusCode(404)
    }

    /// The status whose page answers this error.
    pub fn status_page(&self) -> (r: u16)
        ensures
            r == spec_status_page(*self),
            (*self matches AppError::StatusCode(c) ==> r == c),
            !(*self is StatusCode) ==> r == 500,
    {
        match self {
            AppError::StatusCode(code) => *code,
            _ => 500,
        }
    }

    /// The text that an error shows: one word, the same for every error.
    pub fn to_string(&self) -> (r: String)
        ensures
            r@ == "PETOU"@,
    {
        String::from_str("PETOU")
    }

    /// Whether the error is logged when it ends a request: every error but
    /// a plain status.
    pub fn is_logged(&self) -> (r: bool)
        ensures
            r == !(*self is StatusCode),
    {
        match self {
            AppError::StatusCode(_) => false,
            _ => true,
        }
    }
}

/// The status that answers a failure of a module: a database failure is
/// the server's fault, a refused operation or input is the client's.
pub open spec fn spec_module_status(e: modules::Error) -> u16 {
    match e {
        modules::Error::DbError(_) => 500,
        modules::Error::InvalidInput => 400,
        modules::Error::InvalidOperation => 400,
    }
}

impl From<modules::Error> for AppError {
    fn from(value: modules::Error) -> (r: Self) {
        match value {
            modules::Error::DbError(_) => Self::server_error(),
            modules::Error::InvalidInput => Self::bad_request(),
            modules::Error::InvalidOperation => Self::bad_request(),
        }
    }
}

impl vstd::std_specs::convert::FromSpecImpl<modules::Error> for AppError {
    open spec fn obeys_from_spec() -> bool {
        true
    }

    open spec fn from_spec(value: modules::Error) -> AppError {
        AppError::StatusCode(spec_module_status(value))
    }
}

} // verus!
