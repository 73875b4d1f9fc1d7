use vstd::prelude::*;

verus! {

/// Caching policy sent with every redirect.
pub const DEFAULT_CACHE_CONTROL_HEADER_VALUE: &'static str =
    "public, max-age=300, s-maxage=300, stale-while-revalidate=300, stale-if-error=300";

/// Deadline, in milliseconds, of every data-store operation.
pub const DEFAULT_TIMEOUT_IN_MILLI: u64 = 350;

pub const STATUS_OK: u16 = 200;

pub const STATUS_TEMPORARY_REDIRECT: u16 = 307;

pub const STATUS_UNAUTHORIZED: u16 = 401;

pub const STATUS_NOT_FOUND: u16 = 404;

pub const STATUS_CONFLICT: u16 = 409;

pub const STATUS_INTERNAL_SERVER_ERROR: u16 = 500;

/// An error answered to the client: a status code and a body.
pub struct ApiError {
    pub status: u16,
    pub message: String,
}

/// Uniform failure of a deadline-guarded data-store operation.
pub enum StoreError {
    /// The deadline elapsed first; holds the timer's description.
    Timeout(String),
    /// The operation completed with a failure; holds the driver's description.
    DataStore(String),
}

impl StoreError {
    pub open spec fn description(&self) -> Seq<char> {
        match self {
            StoreError::Timeout(m) => m@,
            StoreError::DataStore(m) => m@,
        }
    }
}

/// Outcome of a store operation raced against its deadline: the outer `Err`
/// is the elapsed deadline, the inner one the driver's failure.
pub open spec fn settled<T>(outcome: Result<Result<T, String>, String>) -> Result<T, StoreError> {
    match outcome {
        Err(elapsed) => Err(StoreError::Timeout(elapsed)),
        Ok(Err(failure)) => Err(StoreError::DataStore(failure)),
        Ok(Ok(v)) => Ok(v),
    }
}

/// Turns the outcome of a store operation raced against its deadline into
/// its value or a uniform failure.
pub fn settle<T>(outcome: Result<Result<T, String>, String>) -> (r: Result<T, StoreError>)
    ensures
        r == settled(outcome),
{
    match outcome {
        Err(elapsed) => Err(StoreError::Timeout(elapsed)),
        Ok(Err(failure)) => Err(StoreError::DataStore(failure)),
        Ok(Ok(v)) => Ok(v),
    }
}

/// A store failure as answered to the client: status 500 with the failure's
/// description as the body.
pub fn internal_error(err: StoreError) -> (r: ApiError)
    ensures
        r.status == STATUS_INTERNAL_SERVER_ERROR,
        r.message@ == err.description(),
{
    match err {
        StoreError::Timeout(m) => ApiError { status: STATUS_INTERNAL_SERVER_ERROR, message: m },
        StoreError::DataStore(m) => ApiError { status: STATUS_INTERNAL_SERVER_ERROR, message: m },
    }
}

/// The value of a store operation, or its failure as an internal error.
pub fn or_internal_error<T>(r: Result<T, StoreError>) -> (out: Result<T, ApiError>)
    ensures
        r is Ok ==> out == Ok::<T, ApiError>(r->Ok_0),
        r is Err ==> out is Err && out->Err_0.status == STATUS_INTERNAL_SERVER_ERROR
            && out->Err_0.message@ == r->Err_0.description(),
{
    match r {
        Ok(v) => Ok(v),
        Err(e) => Err(internal_error(e)),
    }
}

} // verus!
