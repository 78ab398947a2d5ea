//! Error taxonomy of the search core.
//!
//! A collaborator's "found nothing" outcome is recoverable and is absorbed
//! into empty defaults before it can reach a caller; a collaborator failure
//! short-circuits the current call. The API layer distinguishes a bad
//! request, an exceeded deadline and a generic server failure.

use vstd::prelude::*;

verus! {

/// Internal error of the search core.
#[derive(Clone, Copy, PartialEq, Eq, Structural, Debug)]
pub enum Error {
    /// A collaborator lookup found nothing; recoverable, never surfaced.
    NotFound,
    /// The collaborator data service failed; not locally recoverable.
    Service,
    /// Input could not be parsed.
    Parse,
    /// Unclassified failure.
    Undefined,
}

/// What a failed data-service call reports.
#[derive(Clone, Copy, PartialEq, Eq, Structural, Debug)]
pub enum ServiceError {
    /// The lookup matched nothing.
    NotFound,
    /// The service itself failed.
    Failure,
}

/// API-visible error of the suggestion endpoint.
#[derive(Clone, Copy, PartialEq, Eq, Structural, Debug)]
pub enum RestError {
    /// The input's logical length lies outside the accepted bounds.
    BadRequest,
    /// The overall deadline was exceeded; no partial result is returned.
    Timeout,
    /// A collaborator failure surfaced as a generic server error.
    Internal,
}

/// Maps a data service's not-found report to the recoverable `NotFound`;
/// any other failure becomes a service error.
pub fn map_notfound(err: ServiceError) -> (r: Error)
    ensures
        r == (match err {
            ServiceError::NotFound => Error::NotFound,
            ServiceError::Failure => Error::Service,
        }),
{
    match err {
        ServiceError::NotFound => Error::NotFound,
        ServiceError::Failure => Error::Service,
    }
}

/// Absorbs the recoverable not-found outcome of a lookup into `None`; a
/// present value becomes `Some`, and every other error propagates.
pub fn db_to_option<T>(res: Result<T, Error>) -> (r: Result<Option<T>, Error>)
    ensures
        match res {
            Ok(v) => r == Ok::<Option<T>, Error>(Some(v)),
            Err(e) => if e == Error::NotFound {
                r == Ok::<Option<T>, Error>(None::<T>)
            } else {
                r == Err::<Option<T>, Error>(e)
            },
        },
{
    match res {
        Ok(v) => Ok(Some(v)),
        Err(err) => match err {
            Error::NotFound => Ok(None),
            _ => Err(err),
        },
    }
}

} // verus!
