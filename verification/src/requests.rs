//! Request payloads for the moderation and bulk-check endpoints. The
//! surrounding application deserializes the wire format into these.

use vstd::prelude::*;

use crate::responses::BanIdentifiers;

verus! {

/// A bulk player check issued by a registered server.
pub struct BulkCheckRequest {
    pub uid: String,
    pub players: Vec<BanIdentifiers>,
}

/// Operator credentials for the administration panel.
pub struct LoginInfo {
    pub username: String,
    pub password: String,
}

/// A request to ban an identifier, permanently or until a timestamp.
pub struct BanRequest {
    pub identifier: String,
    pub reason: String,
    pub unban_timestamp: Option<u64>,
}

/// A request to list the ban records of one identifier.
pub struct BanSearchRequest {
    pub identifier: String,
}

/// A request to delete one ban row.
pub struct UnbanRequest {
    pub key: i32,
}

/// A request to kick players from a registered server.
pub struct KickFromServer {
    pub server_uid: String,
    pub player_uids: Vec<u64>,
}

} // verus!
