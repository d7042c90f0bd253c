//! The request capability check. Credentials are not validated: any request
//! that carries an `Authorization` header is admitted, so that a real policy
//! can later replace this function without touching ingestion.

use vstd::prelude::*;

verus! {

/// Whether a request with this `Authorization` header value, if any, is
/// admitted: exactly when the header is present.
pub fn check_token(authorization: Option<&[u8]>) -> (r: bool)
    ensures
        r == authorization is Some,
{
    match authorization {
        Some(_) => true,
        None => false,
    }
}

} // verus!
