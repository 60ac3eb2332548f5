use vstd::prelude::*;

pub mod fssa;
pub mod ip_info;
pub mod user;

pub use self::{fssa::FssaModule, ip_info::IpInfoPlan};

verus! {

/// What the database reported when a statement failed.
#[derive(Debug, Clone)]
pub struct DbError {
    pub code: Option<isize>,
    pub message: Option<String>,
}

/// Why an operation of a module failed.
#[derive(Debug)]
pub enum Error {
    /// The database failed.
    DbError(DbError),
    /// The operation does not apply, such as a lookup of an unknown address.
    InvalidOperation,
    /// The input lacks what the operation needs.
    InvalidInput,
}

impl From<DbError> for Error {
    fn from(value: DbError) -> (r: Self) {
        Error::DbError(value)
    }
}

impl vstd::std_specs::convert::FromSpecImpl<DbError> for Error {
    open spec fn obeys_from_spec() -> bool {
        true
    }

    open spec fn from_spec(value: DbError) -> Error {
        Error::DbError(value)
    }
}

pub type Result<T> = core::result::Result<T, Error>;

} // verus!
