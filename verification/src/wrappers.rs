//! The permissive validation strategy and the plain error formatter.
//!
//! The optional network-probing validator is an external collaborator; this
//! is the no-op strategy that accepts every record, selected when no such
//! collaborator is wired in. The surrounding application may substitute the
//! probing one.

use vstd::prelude::*;

use crate::server::Server;

verus! {

/// The permissive values check: every record is accepted.
pub fn validate_server_values(server: &Server) -> (r: Result<bool, String>)
    ensures
        r == Result::<bool, String>::Ok(true),
{
    Ok(true)
}

/// A failure response carrying a human-readable reason.
pub fn ms_error_format(msg: &str) -> (r: String)
    ensures
        r@ == "{\"success\":false,\"reason\":\""@ + msg@ + "\" }"@,
{
    let mut s = String::from_str("{\"success\":false,\"reason\":\"");
    s.append(msg);
    s.append("\" }");
    s
}

} // verus!
