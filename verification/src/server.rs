//! Data stored about a registered game server, and the pieces of it that are
//! exchanged with callers.

use vstd::prelude::*;

verus! {

/// Data about the server that game clients need.
pub struct Server {
    pub name: String,
    pub description: Option<String>,
    pub map: String,
    pub playlist: String,
    pub max_players: u16,
    pub player_count: u16,
    pub ip: String,
    pub port: u16,
    pub key: String,
    pub checksum: u32,
    pub hidden: bool,
    pub version: String,
}

/// Details about an individual player reported as connected to a server.
pub struct Player {
    pub name: String,
    pub ip: Option<String>,
    pub uid: Option<u64>,
}

/// An announce payload: a caller-supplied uid plus the server record.
pub struct ServerWithUID {
    pub uid: String,
    pub server: Server,
    pub time_stamp: u64,
}

/// What an announcing host gets back: its own address as observed by the
/// registry, its stable uid, and a token when the entry is hidden.
pub struct HostInfo {
    pub ip: String,
    pub port: u16,
    pub uid: String,
    pub token: Option<String>,
}

/// Registry-internal details about an entry; never handed to game clients
/// directly.
pub struct InternalServerData {
    pub uid: String,
    pub server_expiry_time: u64,
    pub region: String,
    pub token: Option<String>,
    pub time_stamp: u64,
}

/// One registry entry: the public record, the internal record, the players
/// last reported connected, and the player uids pending kick.
pub struct ServerInfo {
    pub server: Server,
    pub internal: InternalServerData,
    pub players: Vec<Player>,
    pub kick_list: Vec<u64>,
}

/// Exact duplicate of an optional string.
pub(crate) fn clone_opt_string(o: &Option<String>) -> (r: Option<String>)
    ensures
        r == *o,
{
    match o {
        Some(s) => Some(s.clone()),
        None => None,
    }
}

impl Clone for Server {
    fn clone(&self) -> (r: Self)
        ensures
            r == *self,
    {
        Server {
            name: self.name.clone(),
            description: clone_opt_string(&self.description),
            map: self.map.clone(),
            playlist: self.playlist.clone(),
            max_players: self.max_players,
            player_count: self.player_count,
            ip: self.ip.clone(),
            port: self.port,
            key: self.key.clone(),
            checksum: self.checksum,
            hidden: self.hidden,
            version: self.version.clone(),
        }
    }
}

impl Clone for Player {
    fn clone(&self) -> (r: Self)
        ensures
            r == *self,
    {
        Player { name: self.name.clone(), ip: clone_opt_string(&self.ip), uid: self.uid }
    }
}

impl Clone for ServerWithUID {
    fn clone(&self) -> (r: Self)
        ensures
            r == *self,
    {
        ServerWithUID {
            uid: self.uid.clone(),
            server: self.server.clone(),
            time_stamp: self.time_stamp,
        }
    }
}

impl Clone for HostInfo {
    fn clone(&self) -> (r: Self)
        ensures
            r == *self,
    {
        HostInfo {
            ip: self.ip.clone(),
            port: self.port,
            uid: self.uid.clone(),
            token: clone_opt_string(&self.token),
        }
    }
}

impl Clone for InternalServerData {
    fn clone(&self) -> (r: Self)
        ensures
            r == *self,
    {
        InternalServerData {
            uid: self.uid.clone(),
            server_expiry_time: self.server_expiry_time,
            region: self.region.clone(),
            token: clone_opt_string(&self.token),
            time_stamp: self.time_stamp,
        }
    }
}

impl ServerInfo {
    /// Whether two entries hold the same data. `Clone` cannot promise value
    /// equality for the vector fields, so copies are related through this.
    pub open spec fn same_entry(self, other: ServerInfo) -> bool {
        &&& self.server == other.server
        &&& self.internal == other.internal
        &&& self.players@ == other.players@
        &&& self.kick_list@ == other.kick_list@
    }
}

/// Exact duplicate of a list of players.
pub(crate) fn clone_players(v: &Vec<Player>) -> (r: Vec<Player>)
    ensures
        r@ == v@,
{
    let mut players: Vec<Player> = Vec::new();
    let mut i: usize = 0;
    while i < v.len()
        invariant
            i <= v.len(),
            players@ =~= v@.take(i as int),
        decreases v.len() - i,
    {
        players.push(v[i].clone());
        proof {
            assert(players@ =~= v@.take(i + 1 as int));
        }
        i = i + 1;
    }
    proof {
        assert(players@ =~= v@);
    }
    players
}

/// Exact duplicate of a list of player uids.
pub(crate) fn clone_u64s(v: &Vec<u64>) -> (r: Vec<u64>)
    ensures
        r@ == v@,
{
    let mut out: Vec<u64> = Vec::new();
    let mut i: usize = 0;
    while i < v.len()
        invariant
            i <= v.len(),
            out@ =~= v@.take(i as int),
        decreases v.len() - i,
    {
        out.push(v[i]);
        proof {
            assert(out@ =~= v@.take(i + 1 as int));
        }
        i = i + 1;
    }
    proof {
        assert(out@ =~= v@);
    }
    out
}

impl Clone for ServerInfo {
    fn clone(&self) -> (r: Self)
        ensures
            r.same_entry(*self),
    {
        let players = clone_players(&self.players);
        let kick_list = clone_u64s(&self.kick_list);
        ServerInfo {
            server: self.server.clone(),
            internal: self.internal.clone(),
            players,
            kick_list,
        }
    }
}

} // verus!
