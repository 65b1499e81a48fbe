//! Plain data shapes exchanged with callers, and the response bodies the
//! library can build itself. Responses that need full JSON serialization of
//! nested records are assembled by the surrounding application.

use vstd::prelude::*;

use crate::server::{clone_opt_string, Server};

verus! {

/// Identifiers naming a player for a ban check: a numeric id and/or an IP
/// (normalized before lookup), plus an optional server-scoped uid, and a
/// reason on the way out.
pub struct BanIdentifiers {
    pub uid: Option<String>,
    pub id: Option<u64>,
    pub ip: Option<String>,
    pub reason: Option<String>,
}

impl Clone for BanIdentifiers {
    fn clone(&self) -> (r: Self)
        ensures
            r == *self,
    {
        BanIdentifiers {
            uid: clone_opt_string(&self.uid),
            id: self.id,
            ip: clone_opt_string(&self.ip),
            reason: clone_opt_string(&self.reason),
        }
    }
}

/// The serialized shape of a failure response.
pub struct MSErrorJson {
    pub success: bool,
    pub error: String,
}

/// The serialized shape of a single-server success response.
pub struct ServerResponce {
    pub success: bool,
    pub server: Server,
}

/// The latest end-user license agreement text for one language.
pub struct EULAData {
    pub version: i32,
    pub lang: String,
    pub contents: String,
}

/// A success response wrapping one pre-serialized value under the given key.
pub fn ms_generic_response(key: String, data: String) -> (r: String)
    ensures
        r@ == "{ \"success\": true, \""@ + key@ + "\": "@ + data@ + " }"@,
{
    let mut s = String::from_str("{ \"success\": true, \"");
    s.append(key.as_str());
    s.append("\": ");
    s.append(data.as_str());
    s.append(" }");
    s
}

/// The bare success response.
pub fn ms_success_response() -> (r: &'static str)
    ensures
        r@ == "{ \"success\": true }"@,
{
    "{ \"success\": true }"
}

/// The bare success response, under the older spelling kept for callers.
pub fn ms_success_responce() -> (r: &'static str)
    ensures
        r@ == "{ \"success\": true }"@,
{
    "{ \"success\": true }"
}

} // verus!
