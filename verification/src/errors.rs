//! The error taxonomy of the account service, and the single shared mapping
//! from each outcome to the transport status code it is reported with.
use vstd::prelude::*;

verus! {

/// Every way a service operation can end other than plain success.
///
/// - `Validation`: malformed or empty caller input; never reaches the store.
/// - `NotFound`: no record matches the given key; terminal, not a fault.
/// - `Conflict`: a create found the email already taken; reported as a
///   non-error message.
/// - `Persistence`: the backing store failed; surfaced verbatim.
/// - `Unauthorized`: a login credential did not match.
/// - `Internal`: the credential hashing or verification itself failed.
#[derive(Clone, Copy, Debug, PartialEq, Eq, Structural)]
pub enum ServiceError {
    Validation,
    NotFound,
    Conflict,
    Persistence,
    Unauthorized,
    Internal,
}

/// The transport status code each error is mapped to, stated once so that
/// no handler re-derives the mapping.
pub open spec fn spec_status_of(e: ServiceError) -> u16 {
    match e {
        ServiceError::Validation => 400,
        ServiceError::NotFound => 404,
        ServiceError::Conflict => 200,
        ServiceError::Persistence => 500,
        ServiceError::Unauthorized => 401,
        ServiceError::Internal => 500,
    }
}

/// The one shared outcome-to-status mapping. A `Conflict` on create is
/// reported with a success code and a non-error body, as the service's
/// callers expect.
pub fn status_of(e: &ServiceError) -> (code: u16)
    ensures
        code == spec_status_of(*e),
{
    match e {
        ServiceError::Validation => 400,
        ServiceError::NotFound => 404,
        ServiceError::Conflict => 200,
        ServiceError::Persistence => 500,
        ServiceError::Unauthorized => 401,
        ServiceError::Internal => 500,
    }
}

} // verus!
