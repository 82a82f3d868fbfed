//! HTTP status families, as `reqwest::StatusCode` classifies them.

use vstd::prelude::*;

verus! {

/// Whether `code` lies in the client-error family, 400 to 499.
pub open spec fn client_error(code: u16) -> bool {
    400 <= code <= 499
}

/// Whether `code` lies in the server-error family, 500 to 599.
pub open spec fn server_error(code: u16) -> bool {
    500 <= code <= 599
}

/// The status "not found".
pub open spec fn not_found(code: u16) -> bool {
    code == 404
}

/// Calls `reqwest::StatusCode::from_u16` and, on the status it gives,
/// `is_client_error`. Trusted: `from_u16` accepts exactly 100 to 999, and
/// `is_client_error` holds exactly of 400 to 499, so the answer is that of
/// [`client_error`] for every `u16`.
#[verifier::external_body]
pub(crate) fn is_client_error(code: u16) -> (r: bool)
    ensures
        r == client_error(code),
{
    reqwest::StatusCode::from_u16(code).is_ok_and(|s| s.is_client_error())
}

/// Calls `reqwest::StatusCode::from_u16` and, on the status it gives,
/// `is_server_error`. Trusted: `from_u16` accepts exactly 100 to 999, and
/// `is_server_error` holds exactly of 500 to 599, so the answer is that of
/// [`server_error`] for every `u16`.
#[verifier::external_body]
pub(crate) fn is_server_error(code: u16) -> (r: bool)
    ensures
        r == server_error(code),
{
    reqwest::StatusCode::from_u16(code).is_ok_and(|s| s.is_server_error())
}

/// Compares `code` with `reqwest::StatusCode::NOT_FOUND`. Trusted: that
/// constant is the status 404, and a `StatusCode` equals a `u16` exactly when
/// its number does.
#[verifier::external_body]
pub(crate) fn is_not_found(code: u16) -> (r: bool)
    ensures
        r == not_found(code),
{
    reqwest::StatusCode::NOT_FOUND == code
}

} // verus!
