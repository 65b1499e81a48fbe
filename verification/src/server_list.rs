//! The server registry: two partitions (public, hidden) of server entries,
//! with add-or-renew deduplication, token lookup, kick-list mutation and
//! eviction of expired entries.
//!
//! Every operation is an in-memory transformation, available both on a
//! whole [`ServerList`] value and partition by partition, so a concurrent
//! deployment can guard each partition with its own reader-writer lock —
//! never holding both at once — and run the periodic sweep task outside.

use vstd::prelude::*;
use vstd::seq_lib::*;

use crate::server::{
    clone_opt_string, clone_players, clone_u64s, HostInfo, InternalServerData, Player, Server,
    ServerInfo, ServerWithUID,
};
use crate::uid::{is_upper_hex_char, new_uid, new_v4_token};

verus! {

/// The registry. An entry lives in exactly one partition, decided by its
/// `hidden` flag when it was inserted.
pub struct ServerList {
    pub scrub_needed: bool,
    pub last_scrub_time: u64,
    pub public_servers: Vec<ServerInfo>,
    pub hidden_servers: Vec<ServerInfo>,
}

/// An entry whose expiry has passed is logically dead.
pub open spec fn entry_expired(e: ServerInfo, now: u64) -> bool {
    e.internal.server_expiry_time < now
}

/// Entries that an add-or-renew scan keeps: everything not yet expired.
pub open spec fn live_pred(now: u64) -> spec_fn(ServerInfo) -> bool {
    |e: ServerInfo| e.internal.server_expiry_time >= now
}

/// Entries that a sweep keeps: expiry strictly in the future.
pub open spec fn swept_pred(now: u64) -> spec_fn(ServerInfo) -> bool {
    |e: ServerInfo| e.internal.server_expiry_time > now
}

/// The partition after opportunistic eviction during an add-or-renew scan.
pub open spec fn keep_live(s: Seq<ServerInfo>, now: u64) -> Seq<ServerInfo> {
    s.filter(live_pred(now))
}

/// The partition after a sweep.
pub open spec fn keep_swept(s: Seq<ServerInfo>, now: u64) -> Seq<ServerInfo> {
    s.filter(swept_pred(now))
}

/// Index of the first entry satisfying `pred`, scanning front to back.
pub open spec fn first_where(s: Seq<ServerInfo>, pred: spec_fn(ServerInfo) -> bool) -> Option<int>
    decreases s.len(),
{
    if s.len() == 0 {
        None
    } else if pred(s[0]) {
        Some(0int)
    } else {
        match first_where(s.skip(1), pred) {
            Some(i) => Some(i + 1),
            None => None,
        }
    }
}

/// Matching an entry by its stable uid.
pub open spec fn uid_pred(uid: Seq<char>) -> spec_fn(ServerInfo) -> bool {
    |e: ServerInfo| e.internal.uid@ == uid
}

/// Matching a hidden entry by its access token.
pub open spec fn token_pred(token: Seq<char>) -> spec_fn(ServerInfo) -> bool {
    |e: ServerInfo| e.internal.token is Some && e.internal.token.unwrap()@ == token
}

/// Index of the first entry with the given uid, if any.
pub open spec fn first_uid_match(s: Seq<ServerInfo>, uid: Seq<char>) -> Option<int> {
    first_where(s, uid_pred(uid))
}

/// Whether some entry has the given uid.
pub open spec fn has_uid(s: Seq<ServerInfo>, uid: Seq<char>) -> bool {
    exists|i: int| 0 <= i < s.len() && (#[trigger] s[i]).internal.uid@ == uid
}

/// `first_where` points at a satisfying element and nothing before it does.
pub proof fn lemma_first_where(s: Seq<ServerInfo>, pred: spec_fn(ServerInfo) -> bool)
    ensures
        match first_where(s, pred) {
            None => forall|j: int| 0 <= j < s.len() ==> !pred(#[trigger] s[j]),
            Some(i) => 0 <= i < s.len() && pred(s[i]) && forall|j: int|
                0 <= j < i ==> !pred(#[trigger] s[j]),
        },
    decreases s.len(),
{
    if s.len() != 0 && !pred(s[0]) {
        lemma_first_where(s.skip(1), pred);
        match first_where(s.skip(1), pred) {
            Some(i) => {
                assert(s.skip(1)[i] == s[i + 1]);
                assert forall|j: int| 0 <= j < i + 1 implies !pred(#[trigger] s[j]) by {
                    if j > 0 {
                        assert(!pred(s.skip(1)[j - 1]));
                        assert(s.skip(1)[j - 1] == s[j]);
                    }
                }
            },
            None => {
                assert forall|j: int| 0 <= j < s.len() implies !pred(#[trigger] s[j]) by {
                    if j > 0 {
                        assert(!pred(s.skip(1)[j - 1]));
                        assert(s.skip(1)[j - 1] == s[j]);
                    }
                }
            },
        }
    }
}

/// The first satisfying index determines `first_where`.
pub proof fn lemma_first_where_at(s: Seq<ServerInfo>, pred: spec_fn(ServerInfo) -> bool, i: int)
    requires
        0 <= i < s.len(),
        pred(s[i]),
        forall|j: int| 0 <= j < i ==> !pred(#[trigger] s[j]),
    ensures
        first_where(s, pred) == Some(i),
    decreases s.len(),
{
    if i != 0 {
        assert(s.skip(1)[i - 1] == s[i]);
        assert(forall|j: int| 0 <= j < i - 1 ==> s.skip(1)[j] == s[j + 1]);
        lemma_first_where_at(s.skip(1), pred, i - 1);
    }
}

/// If nothing satisfies `pred`, `first_where` finds nothing.
pub proof fn lemma_first_where_none(s: Seq<ServerInfo>, pred: spec_fn(ServerInfo) -> bool)
    requires
        forall|j: int| 0 <= j < s.len() ==> !pred(#[trigger] s[j]),
    ensures
        first_where(s, pred) is None,
    decreases s.len(),
{
    if s.len() != 0 {
        assert(forall|j: int| 0 <= j < s.skip(1).len() ==> s.skip(1)[j] == s[j + 1]);
        lemma_first_where_none(s.skip(1), pred);
    }
}

/// One sweep pass over a single partition: remove every entry whose expiry
/// is not strictly in the future, preserving the order of the rest.
/// Afterwards no entry with `expiry <= now` remains in the partition.
pub fn scrub_partition(list: &mut Vec<ServerInfo>, now: u64)
    ensures
        final(list)@ == keep_swept(old(list)@, now),
        forall|i: int| 0 <= i < final(list)@.len()
            ==> (#[trigger] final(list)@[i]).internal.server_expiry_time > now,
{
    let ghost keep = swept_pred(now);
    let ghost s0 = list@;
    let mut j: usize = list.len();
    while j > 0
        invariant
            j <= s0.len(),
            keep == swept_pred(now),
            list@ =~= s0.take(j as int) + s0.skip(j as int).filter(keep),
        decreases j,
    {
        j = j - 1;
        let e_keep = list[j].internal.server_expiry_time > now;
        proof {
            assert(list@[j as int] == s0[j as int]);
            assert(s0.skip(j as int) =~= seq![s0[j as int]] + s0.skip(j + 1));
            Seq::<ServerInfo>::filter_distributes_over_add(
                seq![s0[j as int]],
                s0.skip(j + 1),
                keep,
            );
            reveal_with_fuel(Seq::<_>::filter, 2);
            assert(seq![s0[j as int]].drop_last() =~= Seq::<ServerInfo>::empty());
            if keep(s0[j as int]) {
                assert(seq![s0[j as int]].filter(keep) =~= seq![s0[j as int]]);
            } else {
                assert(seq![s0[j as int]].filter(keep) =~= Seq::<ServerInfo>::empty());
            }
        }
        if !e_keep {
            list.remove(j);
        }
        proof {
            assert(list@ =~= s0.take(j as int) + s0.skip(j as int).filter(keep));
        }
    }
    proof {
        assert(s0.skip(0) =~= s0);
        assert(s0.take(0) =~= Seq::<ServerInfo>::empty());
        assert(list@ =~= s0.filter(keep));
    }
    proof {
        broadcast use Seq::<_>::lemma_filter_pred;

    }
}

/// Whether an entry belongs in the given partition: its hidden flag agrees,
/// and it carries a token exactly when hidden.
pub open spec fn fits_partition(e: ServerInfo, hidden: bool) -> bool {
    &&& e.server.hidden == hidden
    &&& (e.internal.token is Some <==> hidden)
}

impl ServerList {
    /// The partition invariant: a hidden entry always has a token, a public
    /// entry never does, and each entry's hidden flag matches its partition.
    pub open spec fn wf(self) -> bool {
        &&& forall|i: int| 0 <= i < self.public_servers@.len() ==> fits_partition(
            #[trigger] self.public_servers@[i],
            false,
        )
        &&& forall|i: int| 0 <= i < self.hidden_servers@.len() ==> fits_partition(
            #[trigger] self.hidden_servers@[i],
            true,
        )
    }
}

/// Every element of a filtered sequence is an element of the original.
pub proof fn lemma_filter_subset(s: Seq<ServerInfo>, pred: spec_fn(ServerInfo) -> bool, k: int)
    requires
        0 <= k < s.filter(pred).len(),
    ensures
        s.contains(s.filter(pred)[k]),
    decreases s.len(),
{
    reveal_with_fuel(Seq::<_>::filter, 2);
    if s.len() > 0 {
        let rest = s.drop_last().filter(pred);
        if k < rest.len() {
            lemma_filter_subset(s.drop_last(), pred, k);
            let e = rest[k];
            let j = choose|j: int| 0 <= j < s.drop_last().len() && s.drop_last()[j] == e;
            assert(s[j] == e);
        } else {
            assert(s.filter(pred)[k] == s.last());
        }
    }
}

/// Filtering keeps a sequence whose elements all satisfy the predicate.
pub proof fn lemma_filter_all(s: Seq<ServerInfo>, pred: spec_fn(ServerInfo) -> bool)
    requires
        forall|j: int| 0 <= j < s.len() ==> pred(#[trigger] s[j]),
    ensures
        s.filter(pred) == s,
    decreases s.len(),
{
    reveal_with_fuel(Seq::<_>::filter, 2);
    if s.len() > 0 {
        assert(forall|j: int| 0 <= j < s.drop_last().len() ==> s.drop_last()[j] == s[j]);
        lemma_filter_all(s.drop_last(), pred);
        assert(s.filter(pred) =~= s);
    }
}

/// The record of a re-announce, with the caller's observed source address
/// overriding whatever the payload claimed.
pub open spec fn upd_server(s: Server, ip: String) -> Server {
    Server {
        name: s.name,
        description: s.description,
        map: s.map,
        playlist: s.playlist,
        max_players: s.max_players,
        player_count: s.player_count,
        ip: ip,
        port: s.port,
        key: s.key,
        checksum: s.checksum,
        hidden: s.hidden,
        version: s.version,
    }
}

/// The matched entry after a renew: record replaced, expiry extended,
/// identity (uid, token) and player data preserved.
pub open spec fn renewed_entry(e: ServerInfo, server: Server, expiry: u64) -> ServerInfo {
    ServerInfo {
        server: server,
        internal: InternalServerData {
            uid: e.internal.uid,
            server_expiry_time: expiry,
            region: e.internal.region,
            token: e.internal.token,
            time_stamp: e.internal.time_stamp,
        },
        players: e.players,
        kick_list: e.kick_list,
    }
}

/// A partition after a renew of the entry at index `i`: expired entries seen
/// before the match are evicted, the match is renewed in place, everything
/// after it is untouched.
pub open spec fn renew_transform(
    s: Seq<ServerInfo>,
    i: int,
    server: Server,
    expiry: u64,
    now: u64,
) -> Seq<ServerInfo> {
    keep_live(s.take(i), now) + seq![renewed_entry(s[i], server, expiry)] + s.skip(i + 1)
}

/// What a freshly appended entry holds.
pub open spec fn appended_entry(
    req: ServerWithUID,
    source_ip: String,
    expiry: u64,
    host: HostInfo,
    e: ServerInfo,
) -> bool {
    &&& e.server == upd_server(req.server, source_ip)
    &&& e.internal.uid == host.uid
    &&& e.internal.server_expiry_time == expiry
    &&& e.internal.region@.len() == 0
    &&& e.internal.token == host.token
    &&& e.internal.time_stamp == req.time_stamp
    &&& e.players@.len() == 0
    &&& e.kick_list@.len() == 0
}

/// What the caller of a successful first announce gets back: its observed
/// address, a fresh fixed-length uppercase-hex uid, and a token exactly when
/// the record is hidden.
pub open spec fn fresh_host(req: ServerWithUID, source_ip: String, host: HostInfo) -> bool {
    &&& host.ip == source_ip
    &&& host.port == req.server.port
    &&& host.uid@.len() == 40
    &&& forall|i: int| 0 <= i < host.uid@.len() ==> is_upper_hex_char(#[trigger] host.uid@[i])
    &&& (req.server.hidden ==> host.token is Some && host.token.unwrap()@.len() == 36)
    &&& (!req.server.hidden ==> host.token is None)
}

/// Full description of one add-or-renew call on one partition: `s0` the
/// partition before, `s1` after, `r` the returned host info.
pub open spec fn add_outcome(
    s0: Seq<ServerInfo>,
    s1: Seq<ServerInfo>,
    req: ServerWithUID,
    source_ip: String,
    now: u64,
    timeout_secs: u16,
    r: Option<HostInfo>,
) -> bool {
    let expiry = (now + timeout_secs) as u64;
    match first_uid_match(s0, req.uid@) {
        Some(i) => {
            &&& r is Some
            &&& s1 == renew_transform(s0, i, upd_server(req.server, source_ip), expiry, now)
            &&& r.unwrap().ip == source_ip
            &&& r.unwrap().port == req.server.port
            &&& r.unwrap().uid == req.uid
            &&& r.unwrap().token == s0[i].internal.token
        },
        None => match r {
            Some(host) => {
                &&& s1.len() == keep_live(s0, now).len() + 1
                &&& s1 == keep_live(s0, now).push(s1.last())
                &&& appended_entry(req, source_ip, expiry, host, s1.last())
                &&& fresh_host(req, source_ip, host)
            },
            None => s1 == s0,
        },
    }
}

/// An add-or-renew leaves only entries that fit the partition it ran on:
/// with the other partition untouched, announces preserve the registry's
/// partition invariant.
pub proof fn lemma_add_outcome_fits(
    s0: Seq<ServerInfo>,
    s1: Seq<ServerInfo>,
    req: ServerWithUID,
    source_ip: String,
    now: u64,
    timeout_secs: u16,
    r: Option<HostInfo>,
)
    requires
        add_outcome(s0, s1, req, source_ip, now, timeout_secs, r),
        forall|i: int| 0 <= i < s0.len() ==> fits_partition(#[trigger] s0[i], req.server.hidden),
    ensures
        forall|i: int| 0 <= i < s1.len() ==> fits_partition(#[trigger] s1[i], req.server.hidden),
{
    let h = req.server.hidden;
    let expiry = (now + timeout_secs) as u64;
    match first_uid_match(s0, req.uid@) {
        Some(i) => {
            lemma_first_where(s0, uid_pred(req.uid@));
            let a = keep_live(s0.take(i), now);
            let upd = renewed_entry(s0[i], upd_server(req.server, source_ip), expiry);
            let b = s0.skip(i + 1);
            assert(s1 =~= a + seq![upd] + b);
            assert forall|k: int| 0 <= k < s1.len() implies fits_partition(
                #[trigger] s1[k],
                h,
            ) by {
                if k < a.len() {
                    assert(s1[k] == a[k]);
                    lemma_filter_subset(s0.take(i), live_pred(now), k);
                    let j = choose|j: int| 0 <= j < s0.take(i).len() && s0.take(i)[j] == a[k];
                    assert(s0[j] == a[k]);
                } else if k == a.len() {
                    assert(s1[k] == upd);
                    assert(fits_partition(s0[i], h));
                } else {
                    assert(s1[k] == b[k - a.len() - 1]);
                    assert(b[k - a.len() - 1] == s0[i + 1 + (k - a.len() - 1)]);
                }
            }
        },
        None => match r {
            Some(host) => {
                let kl = keep_live(s0, now);
                assert forall|k: int| 0 <= k < s1.len() implies fits_partition(
                    #[trigger] s1[k],
                    h,
                ) by {
                    if k < kl.len() {
                        assert(s1[k] == kl[k]);
                        lemma_filter_subset(s0, live_pred(now), k);
                        let j = choose|j: int| 0 <= j < s0.len() && s0[j] == kl[k];
                        assert(s0[j] == kl[k]);
                    } else {
                        assert(s1[k] == s1.last());
                    }
                }
            },
            None => {},
        },
    }
}

/// The partition an announce with this visibility goes to.
pub open spec fn partition_of(s: ServerList, hidden: bool) -> Seq<ServerInfo> {
    if hidden {
        s.hidden_servers@
    } else {
        s.public_servers@
    }
}

/// The partition an announce does not touch.
pub open spec fn other_partition_of(s: ServerList, hidden: bool) -> Seq<ServerInfo> {
    if hidden {
        s.public_servers@
    } else {
        s.hidden_servers@
    }
}

/// Law: repeating an identical announce is idempotent. Once exactly one
/// entry carries the announce's uid, an add-or-renew at the same instant
/// renews that entry in place: afterwards still exactly one entry carries
/// the uid, and applying the same renewal to the renewed partition leaves it
/// unchanged — so any number of repetitions of the identical announce leaves
/// exactly one entry, with the uid unchanged throughout.
pub proof fn lemma_repeat_announce_idempotent(
    s: Seq<ServerInfo>,
    req: ServerWithUID,
    source_ip: String,
    now: u64,
    timeout_secs: u16,
    i: int,
)
    requires
        now + timeout_secs <= u64::MAX,
        first_uid_match(s, req.uid@) == Some(i),
        forall|j: int| 0 <= j < s.len() && j != i ==> !uid_pred(req.uid@)(#[trigger] s[j]),
    ensures
        ({
            let expiry = (now + timeout_secs) as u64;
            let srv = upd_server(req.server, source_ip);
            let s1 = renew_transform(s, i, srv, expiry, now);
            let i1 = keep_live(s.take(i), now).len() as int;
            &&& first_uid_match(s1, req.uid@) == Some(i1)
            &&& forall|j: int| 0 <= j < s1.len() && j != i1 ==> !uid_pred(req.uid@)(
                #[trigger] s1[j],
            )
            &&& renew_transform(s1, i1, srv, expiry, now) == s1
        }),
{
    let uid = req.uid@;
    let pred = uid_pred(uid);
    let expiry = (now + timeout_secs) as u64;
    let srv = upd_server(req.server, source_ip);
    let a = keep_live(s.take(i), now);
    let upd = renewed_entry(s[i], srv, expiry);
    let b = s.skip(i + 1);
    let s1 = renew_transform(s, i, srv, expiry, now);
    let i1 = a.len() as int;
    lemma_first_where(s, pred);
    assert(s1 =~= a + seq![upd] + b);
    assert(forall|k: int| 0 <= k < i1 ==> s1[k] == a[k]);
    assert(s1[i1] == upd);
    assert(forall|k: int| 0 <= k < b.len() ==> s1[i1 + 1 + k] == b[k]);
    assert forall|k: int| 0 <= k < i1 implies !pred(#[trigger] s1[k]) by {
        lemma_filter_subset(s.take(i), live_pred(now), k);
        let j = choose|j: int| 0 <= j < s.take(i).len() && s.take(i)[j] == a[k];
        assert(s[j] == a[k]);
        assert(!pred(s[j]));
    }
    assert(pred(upd));
    lemma_first_where_at(s1, pred, i1);
    assert forall|j: int| 0 <= j < s1.len() && j != i1 implies !pred(#[trigger] s1[j]) by {
        if j > i1 {
            assert(s1[j] == b[j - i1 - 1]);
            assert(b[j - i1 - 1] == s[i + 1 + (j - i1 - 1)]);
        }
    }
    assert(s1.take(i1) =~= a);
    assert forall|k: int| 0 <= k < a.len() implies live_pred(now)(#[trigger] a[k]) by {
        s.take(i).lemma_filter_pred(live_pred(now), k);
    }
    lemma_filter_all(a, live_pred(now));
    assert(renewed_entry(upd, srv, expiry) == upd);
    assert(s1.skip(i1 + 1) =~= b);
    assert(renew_transform(s1, i1, srv, expiry, now) =~= s1);
}

/// How a kick request leaves the entry it hit: the pending-kick list
/// replaced wholesale, everything else untouched.
pub open spec fn kicked_updated(before: ServerInfo, after: ServerInfo, ks: Seq<u64>) -> bool {
    &&& after.server == before.server
    &&& after.internal == before.internal
    &&& after.players@ == before.players@
    &&& after.kick_list@ == ks
}

/// How a bulk check leaves the entry it hit: connected players replaced,
/// pending kicks drained, everything else untouched.
pub open spec fn bulk_updated(before: ServerInfo, after: ServerInfo, ps: Seq<Player>) -> bool {
    &&& after.server == before.server
    &&& after.internal == before.internal
    &&& after.players@ == ps
    &&& after.kick_list@.len() == 0
}

/// The records a list request reports: every entry not yet expired at `now`,
/// in registry order. A zero `now` disables the staleness filter.
pub open spec fn visible_servers(s: Seq<ServerInfo>, now: u64) -> Seq<Server>
    decreases s.len(),
{
    if s.len() == 0 {
        Seq::empty()
    } else {
        let rest = visible_servers(s.drop_last(), now);
        if now != 0 && entry_expired(s.last(), now) {
            rest
        } else {
            rest.push(s.last().server)
        }
    }
}

/// Relies on std::time::SystemTime::now and its distance from the Unix
/// epoch: the wall clock in whole seconds, or nothing when the clock is
/// unavailable (before the epoch).
#[verifier::external_body]
fn unix_now() -> (r: Option<u64>) {
    match std::time::SystemTime::now().duration_since(std::time::UNIX_EPOCH) {
        Ok(d) => Some(d.as_secs()),
        Err(_) => None,
    }
}

/// Index of the first entry with this uid, as the scan finds it.
fn find_uid_index(list: &Vec<ServerInfo>, uid: &String) -> (r: Option<usize>)
    ensures
        match r {
            Some(i) => i < list@.len() && first_uid_match(list@, uid@) == Some(i as int),
            None => first_uid_match(list@, uid@) is None,
        },
{
    let mut k: usize = 0;
    while k < list.len()
        invariant
            k <= list@.len(),
            forall|j: int| 0 <= j < k ==> !uid_pred(uid@)(#[trigger] list@[j]),
        decreases list@.len() - k,
    {
        if list[k].internal.uid == *uid {
            proof {
                lemma_first_where_at(list@, uid_pred(uid@), k as int);
            }
            return Some(k);
        }
        k = k + 1;
    }
    proof {
        lemma_first_where_none(list@, uid_pred(uid@));
    }
    None
}

/// Evict every expired entry among the first `i` positions, leaving the rest
/// of the list untouched and in order.
fn evict_expired_below(list: &mut Vec<ServerInfo>, i: usize, now: u64)
    requires
        i <= old(list)@.len(),
    ensures
        final(list)@ == keep_live(old(list)@.take(i as int), now) + old(list)@.skip(i as int),
{
    let ghost s0 = list@;
    let mut j: usize = i;
    while j > 0
        invariant
            j <= i <= s0.len(),
            list@ =~= s0.take(j as int) + s0.subrange(j as int, i as int).filter(live_pred(now))
                + s0.skip(i as int),
        decreases j,
    {
        j = j - 1;
        let expired = list[j].internal.server_expiry_time < now;
        proof {
            assert(list@[j as int] == s0[j as int]);
            assert(s0.subrange(j as int, i as int) =~= seq![s0[j as int]] + s0.subrange(
                j + 1,
                i as int,
            ));
            Seq::<ServerInfo>::filter_distributes_over_add(
                seq![s0[j as int]],
                s0.subrange(j + 1, i as int),
                live_pred(now),
            );
            reveal_with_fuel(Seq::<_>::filter, 2);
            assert(seq![s0[j as int]].drop_last() =~= Seq::<ServerInfo>::empty());
            if live_pred(now)(s0[j as int]) {
                assert(seq![s0[j as int]].filter(live_pred(now)) =~= seq![s0[j as int]]);
            } else {
                assert(seq![s0[j as int]].filter(live_pred(now)) =~= Seq::<ServerInfo>::empty());
            }
        }
        if expired {
            list.remove(j);
        }
        proof {
            assert(list@ =~= s0.take(j as int) + s0.subrange(j as int, i as int).filter(
                live_pred(now),
            ) + s0.skip(i as int));
        }
    }
    proof {
        assert(s0.take(0) =~= Seq::<ServerInfo>::empty());
        assert(s0.subrange(0, i as int) =~= s0.take(i as int));
        assert(list@ =~= keep_live(s0.take(i as int), now) + s0.skip(i as int));
    }
}

/// One add-or-renew pass over a single partition, against an explicit
/// clock reading: a matching uid is renewed in place, otherwise expired
/// entries are evicted and a fresh entry is appended. The outcome is fixed
/// by [`add_outcome`].
pub fn add_to_partition(
    list: &mut Vec<ServerInfo>,
    server_request: ServerWithUID,
    source_ip: String,
    now: u64,
    timeout_secs: u16,
) -> (r: Option<HostInfo>)
    requires
        now + timeout_secs <= u64::MAX,
    ensures
        add_outcome(old(list)@, final(list)@, server_request, source_ip, now, timeout_secs, r),
{
    let ghost s0 = list@;
    let expiry = now + (timeout_secs as u64);
    let mut server = server_request.server;
    server.ip = source_ip;
    let ghost upd_srv = server;
    match find_uid_index(list, &server_request.uid) {
        Some(i) => {
            let mut entry = list.remove(i);
            entry.server = server;
            entry.internal.server_expiry_time = expiry;
            let host = HostInfo {
                ip: entry.server.ip.clone(),
                port: entry.server.port,
                uid: server_request.uid.clone(),
                token: clone_opt_string(&entry.internal.token),
            };
            proof {
                assert(entry == renewed_entry(s0[i as int], upd_srv, expiry));
            }
            list.insert(i, entry);
            proof {
                assert(list@ =~= s0.update(i as int, renewed_entry(s0[i as int], upd_srv, expiry)));
            }
            evict_expired_below(list, i, now);
            proof {
                let mid = s0.update(i as int, renewed_entry(s0[i as int], upd_srv, expiry));
                assert(mid.take(i as int) =~= s0.take(i as int));
                assert(mid.skip(i as int) =~= seq![renewed_entry(s0[i as int], upd_srv, expiry)]
                    + s0.skip(i + 1));
                assert(list@ =~= renew_transform(s0, i as int, upd_srv, expiry, now));
            }
            Some(host)
        },
        None => {
            let uid = match new_uid(&server.ip, server.port, &server.key) {
                Some(u) => u,
                None => {
                    // A predictable uid would be a security defect; fail the
                    // announce without touching the registry.
                    return None;
                },
            };
            let token = if server.hidden {
                match new_v4_token() {
                    Some(t) => Some(t),
                    None => {
                        // A predictable token would be as bad as a
                        // predictable uid; fail the announce untouched.
                        return None;
                    },
                }
            } else {
                None
            };
            let len = list.len();
            evict_expired_below(list, len, now);
            proof {
                assert(s0.take(s0.len() as int) =~= s0);
                assert(s0.skip(s0.len() as int) =~= Seq::<ServerInfo>::empty());
                assert(list@ =~= keep_live(s0, now));
            }
            let host = HostInfo {
                ip: server.ip.clone(),
                port: server.port,
                uid: uid.clone(),
                token: clone_opt_string(&token),
            };
            let entry = ServerInfo {
                server: server,
                internal: InternalServerData {
                    uid: uid,
                    server_expiry_time: expiry,
                    region: String::new(),
                    token: token,
                    time_stamp: server_request.time_stamp,
                },
                players: Vec::new(),
                kick_list: Vec::new(),
            };
            list.push(entry);
            Some(host)
        },
    }
}

/// Announce against one partition as the HTTP layer drives it: reads the
/// system clock and performs the add-or-renew under it. When the clock is
/// unavailable, or the expiry would not fit, the announce fails with no
/// mutation.
pub fn announce_to_partition(
    list: &mut Vec<ServerInfo>,
    server_request: ServerWithUID,
    source_ip: String,
    timeout_secs: u16,
) -> (r: Option<HostInfo>)
    ensures
        (r is None && final(list)@ == old(list)@) || (exists|now: u64|
            now + timeout_secs <= u64::MAX && #[trigger] add_outcome(
                old(list)@,
                final(list)@,
                server_request,
                source_ip,
                now,
                timeout_secs,
                r,
            )),
{
    let now = match unix_now() {
        Some(t) => t,
        None => {
            return None;
        },
    };
    if now > u64::MAX - (timeout_secs as u64) {
        return None;
    }
    let r = add_to_partition(list, server_request, source_ip, now, timeout_secs);
    proof {
        assert(now + timeout_secs <= u64::MAX);
    }
    r
}

/// A copy of the first entry in one partition with this uid, or nothing.
pub fn find_in_partition(list: &Vec<ServerInfo>, uid: &String) -> (r: Option<ServerInfo>)
    ensures
        match first_uid_match(list@, uid@) {
            Some(i) => r is Some && r.unwrap().same_entry(list@[i]),
            None => r is None,
        },
{
    match find_uid_index(list, uid) {
        Some(i) => Some(list[i].clone()),
        None => None,
    }
}

/// Whether one partition holds an entry with this uid.
pub fn partition_has_uid(list: &Vec<ServerInfo>, uid: &String) -> (r: bool)
    ensures
        r == has_uid(list@, uid@),
{
    let found = find_uid_index(list, uid);
    proof {
        lemma_first_where(list@, uid_pred(uid@));
    }
    found.is_some()
}

/// A copy of the first entry in one partition carrying this token, or
/// nothing.
pub fn find_by_token_in_partition(list: &Vec<ServerInfo>, token: &String) -> (r: Option<
    ServerInfo,
>)
    ensures
        match first_where(list@, token_pred(token@)) {
            Some(i) => r is Some && r.unwrap().same_entry(list@[i]),
            None => r is None,
        },
{
    let mut k: usize = 0;
    while k < list.len()
        invariant
            k <= list@.len(),
            forall|j: int| 0 <= j < k ==> !token_pred(token@)(#[trigger] list@[j]),
        decreases list@.len() - k,
    {
        let matched = match &list[k].internal.token {
            Some(t) => *t == *token,
            None => false,
        };
        if matched {
            proof {
                lemma_first_where_at(list@, token_pred(token@), k as int);
            }
            return Some(list[k].clone());
        }
        k = k + 1;
    }
    proof {
        lemma_first_where_none(list@, token_pred(token@));
    }
    None
}

/// Replace the pending-kick list of the entry in one partition with this
/// uid, wholesale. Reports whether the uid was found; everything else is
/// untouched.
pub fn update_kick_list_in_partition(
    list: &mut Vec<ServerInfo>,
    uid: &String,
    player_uids: &Vec<u64>,
) -> (r: bool)
    ensures
        match first_uid_match(old(list)@, uid@) {
            Some(i) => {
                &&& r == true
                &&& final(list)@.len() == old(list)@.len()
                &&& forall|j: int| 0 <= j < old(list)@.len() && j != i ==> final(list)@[j] == old(
                    list,
                )@[j]
                &&& kicked_updated(old(list)@[i], final(list)@[i], player_uids@)
            },
            None => r == false && final(list)@ == old(list)@,
        },
{
    match find_uid_index(list, uid) {
        Some(i) => {
            let ghost s0 = list@;
            let mut entry = list.remove(i);
            entry.kick_list = clone_u64s(player_uids);
            list.insert(i, entry);
            proof {
                assert(forall|j: int|
                    0 <= j < s0.len() && j != i ==> list@[j] == #[trigger] s0[j]);
            }
            true
        },
        None => false,
    }
}

/// Record the players a bulk check reported for the entry in one partition
/// with this uid, draining its pending-kick list. Returns the drained kick
/// list, or nothing when no such entry exists.
pub fn record_bulk_players_in_partition(
    list: &mut Vec<ServerInfo>,
    uid: &String,
    players: &Vec<Player>,
) -> (r: Option<Vec<u64>>)
    ensures
        match first_uid_match(old(list)@, uid@) {
            Some(i) => {
                &&& r is Some
                &&& r.unwrap()@ == old(list)@[i].kick_list@
                &&& final(list)@.len() == old(list)@.len()
                &&& forall|j: int| 0 <= j < old(list)@.len() && j != i ==> final(list)@[j] == old(
                    list,
                )@[j]
                &&& bulk_updated(old(list)@[i], final(list)@[i], players@)
            },
            None => r is None && final(list)@ == old(list)@,
        },
{
    match find_uid_index(list, uid) {
        Some(i) => {
            let ghost s0 = list@;
            let mut entry = list.remove(i);
            let kicks = entry.kick_list;
            entry.kick_list = Vec::new();
            entry.players = clone_players(players);
            list.insert(i, entry);
            proof {
                assert(forall|j: int|
                    0 <= j < s0.len() && j != i ==> list@[j] == #[trigger] s0[j]);
            }
            Some(kicks)
        },
        None => None,
    }
}

/// The records of the entries in one partition still live at `now`, as the
/// list endpoint reports them, and whether a stale entry was observed (so
/// the caller can request a sweep). A zero clock reading disables the
/// staleness filter, as the endpoint's fallback clock does.
pub fn visible_servers_in_partition(list: &Vec<ServerInfo>, now: u64) -> (r: (Vec<Server>, bool))
    ensures
        r.0@ == visible_servers(list@, now),
        r.1 == (now != 0 && exists|i: int|
            0 <= i < list@.len() && entry_expired(#[trigger] list@[i], now)),
{
    let mut out: Vec<Server> = Vec::new();
    let mut stale = false;
    let mut k: usize = 0;
    while k < list.len()
        invariant
            k <= list@.len(),
            out@ == visible_servers(list@.take(k as int), now),
            stale == (now != 0 && exists|i: int|
                0 <= i < k && entry_expired(#[trigger] list@[i], now)),
        decreases list@.len() - k,
    {
        proof {
            assert(list@.take(k + 1).drop_last() =~= list@.take(k as int));
            assert(list@.take(k + 1).last() == list@[k as int]);
        }
        if now != 0 && list[k].internal.server_expiry_time < now {
            stale = true;
            proof {
                assert(entry_expired(list@[k as int], now));
            }
        } else {
            out.push(list[k].server.clone());
        }
        k = k + 1;
    }
    proof {
        assert(list@.take(list@.len() as int) =~= list@);
    }
    (out, stale)
}

/// Whether the periodic sweep task should fire: a reader observed a stale
/// entry, or the maximum quiescence interval has elapsed since the last
/// sweep.
pub fn sweep_due(scrub_needed: bool, last_scrub_time: u64, now: u64) -> (r: bool)
    ensures
        r == (scrub_needed || (now >= last_scrub_time && now - last_scrub_time >= 1800)),
{
    scrub_needed || (now >= last_scrub_time && now - last_scrub_time >= 1800)
}

impl ServerList {
    /// A fresh, empty registry. The sweep timer starts at the creation time
    /// as the system clock reports it, or at zero when the clock is
    /// unavailable (the first sweep of an empty registry is harmless).
    pub fn new() -> (r: ServerList)
        ensures
            r.scrub_needed == false,
            r.public_servers@.len() == 0,
            r.hidden_servers@.len() == 0,
            r.wf(),
    {
        let created = match unix_now() {
            Some(t) => t,
            None => 0,
        };
        ServerList {
            scrub_needed: false,
            last_scrub_time: created,
            public_servers: Vec::new(),
            hidden_servers: Vec::new(),
        }
    }

    /// Read access to the public partition.
    pub fn get_public_servers(&self) -> (r: &Vec<ServerInfo>)
        ensures
            r@ == self.public_servers@,
    {
        &self.public_servers
    }

    /// Read access to the hidden partition.
    pub fn get_hidden_servers(&self) -> (r: &Vec<ServerInfo>)
        ensures
            r@ == self.hidden_servers@,
    {
        &self.hidden_servers
    }

    /// Whether a server with this uid is currently registered in either
    /// partition; used to authorize moderation requests.
    pub fn does_server_exist(&self, uid: &String) -> (r: bool)
        ensures
            r == (has_uid(self.hidden_servers@, uid@) || has_uid(self.public_servers@, uid@)),
    {
        partition_has_uid(&self.hidden_servers, uid) || partition_has_uid(
            &self.public_servers,
            uid,
        )
    }

    /// A copy of the first entry with this uid, searching the hidden
    /// partition first.
    pub fn find_server_from_uid(&self, uid: &String) -> (r: Option<ServerInfo>)
        ensures
            match first_uid_match(self.hidden_servers@, uid@) {
                Some(i) => r is Some && r.unwrap().same_entry(self.hidden_servers@[i]),
                None => match first_uid_match(self.public_servers@, uid@) {
                    Some(i) => r is Some && r.unwrap().same_entry(self.public_servers@[i]),
                    None => r is None,
                },
            },
    {
        match find_in_partition(&self.hidden_servers, uid) {
            Some(e) => Some(e),
            None => find_in_partition(&self.public_servers, uid),
        }
    }

    /// A copy of the first hidden entry carrying this token, or nothing.
    pub fn get_hidden_server(&self, token: &String) -> (r: Option<ServerInfo>)
        ensures
            match first_where(self.hidden_servers@, token_pred(token@)) {
                Some(i) => r is Some && r.unwrap().same_entry(self.hidden_servers@[i]),
                None => r is None,
            },
    {
        find_by_token_in_partition(&self.hidden_servers, token)
    }

    /// Whether the periodic sweep task should fire: a reader observed a stale
    /// entry, or the maximum quiescence interval has elapsed.
    pub fn scrub_due(&self, now: u64) -> (r: bool)
        ensures
            r == (self.scrub_needed || (now >= self.last_scrub_time && now - self.last_scrub_time
                >= 1800)),
    {
        sweep_due(self.scrub_needed, self.last_scrub_time, now)
    }

    /// One sweep cycle: evict every expired entry from both partitions,
    /// clear the scrub flag and record the sweep time. Afterwards no entry
    /// with `expiry <= now` remains in either partition.
    pub fn scrub_at(&mut self, now: u64)
        ensures
            final(self).public_servers@ == keep_swept(old(self).public_servers@, now),
            final(self).hidden_servers@ == keep_swept(old(self).hidden_servers@, now),
            final(self).scrub_needed == false,
            final(self).last_scrub_time == now,
            forall|i: int| 0 <= i < final(self).public_servers@.len()
                ==> (#[trigger] final(self).public_servers@[i]).internal.server_expiry_time > now,
            forall|i: int| 0 <= i < final(self).hidden_servers@.len()
                ==> (#[trigger] final(self).hidden_servers@[i]).internal.server_expiry_time > now,
            old(self).wf() ==> final(self).wf(),
    {
        scrub_partition(&mut self.public_servers, now);
        scrub_partition(&mut self.hidden_servers, now);
        self.scrub_needed = false;
        self.last_scrub_time = now;
        proof {
            broadcast use Seq::<_>::lemma_filter_pred;

            if old(self).wf() {
                assert forall|k: int| 0 <= k < self.public_servers@.len() implies fits_partition(
                    #[trigger] self.public_servers@[k],
                    false,
                ) by {
                    lemma_filter_subset(old(self).public_servers@, swept_pred(now), k);
                    let j = choose|j: int|
                        0 <= j < old(self).public_servers@.len() && old(self).public_servers@[j]
                            == self.public_servers@[k];
                }
                assert forall|k: int| 0 <= k < self.hidden_servers@.len() implies fits_partition(
                    #[trigger] self.hidden_servers@[k],
                    true,
                ) by {
                    lemma_filter_subset(old(self).hidden_servers@, swept_pred(now), k);
                    let j = choose|j: int|
                        0 <= j < old(self).hidden_servers@.len() && old(self).hidden_servers@[j]
                            == self.hidden_servers@[k];
                }
            }
        }
    }

    /// Add-or-renew against an explicit clock reading. One scan of the
    /// partition selected by the announce's `hidden` flag: a matching uid is
    /// renewed in place (identity preserved, expiry extended to
    /// `now + timeout_secs`); otherwise expired entries are evicted and a
    /// fresh entry is appended, with a token exactly when hidden. The other
    /// partition is never touched.
    pub fn add_server_at(
        &mut self,
        server_request: ServerWithUID,
        source_ip: String,
        now: u64,
        timeout_secs: u16,
    ) -> (r: Option<HostInfo>)
        requires
            now + timeout_secs <= u64::MAX,
        ensures
            final(self).scrub_needed == old(self).scrub_needed,
            final(self).last_scrub_time == old(self).last_scrub_time,
            other_partition_of(*final(self), server_request.server.hidden) == other_partition_of(
                *old(self),
                server_request.server.hidden,
            ),
            add_outcome(
                partition_of(*old(self), server_request.server.hidden),
                partition_of(*final(self), server_request.server.hidden),
                server_request,
                source_ip,
                now,
                timeout_secs,
                r,
            ),
            old(self).wf() ==> final(self).wf(),
    {
        let ghost pre = *self;
        let ghost req = server_request;
        let ghost ip = source_ip;
        let r = if server_request.server.hidden {
            add_to_partition(&mut self.hidden_servers, server_request, source_ip, now, timeout_secs)
        } else {
            add_to_partition(&mut self.public_servers, server_request, source_ip, now, timeout_secs)
        };
        proof {
            if pre.wf() {
                lemma_add_outcome_fits(
                    partition_of(pre, req.server.hidden),
                    partition_of(*self, req.server.hidden),
                    req,
                    ip,
                    now,
                    timeout_secs,
                    r,
                );
            }
        }
        r
    }

    /// Announce entry point as the HTTP layer calls it: reads the system
    /// clock and performs the add-or-renew against it. When the clock is
    /// unavailable the announce fails with no mutation.
    pub fn add_server(
        &mut self,
        server_request: ServerWithUID,
        source_ip: String,
        timeout_secs: u16,
    ) -> (r: Option<HostInfo>)
        ensures
            final(self).scrub_needed == old(self).scrub_needed,
            final(self).last_scrub_time == old(self).last_scrub_time,
            other_partition_of(*final(self), server_request.server.hidden) == other_partition_of(
                *old(self),
                server_request.server.hidden,
            ),
            (r is None && *final(self) == *old(self)) || (exists|now: u64|
                now + timeout_secs <= u64::MAX && #[trigger] add_outcome(
                    partition_of(*old(self), server_request.server.hidden),
                    partition_of(*final(self), server_request.server.hidden),
                    server_request,
                    source_ip,
                    now,
                    timeout_secs,
                    r,
                )),
            old(self).wf() ==> final(self).wf(),
    {
        let now = match unix_now() {
            Some(t) => t,
            None => {
                return None;
            },
        };
        if now > u64::MAX - (timeout_secs as u64) {
            return None;
        }
        let r = self.add_server_at(server_request, source_ip, now, timeout_secs);
        proof {
            assert(now + timeout_secs <= u64::MAX);
        }
        r
    }

    /// Replace the pending-kick list of the entry with this uid, searching
    /// the hidden partition first. Reports whether the uid was found.
    pub fn update_kick_list(&mut self, uid: &String, player_uids: Vec<u64>) -> (r: bool)
        ensures
            final(self).scrub_needed == old(self).scrub_needed,
            final(self).last_scrub_time == old(self).last_scrub_time,
            old(self).wf() ==> final(self).wf(),
            match first_uid_match(old(self).hidden_servers@, uid@) {
                Some(i) => {
                    &&& r == true
                    &&& final(self).public_servers@ == old(self).public_servers@
                    &&& final(self).hidden_servers@.len() == old(self).hidden_servers@.len()
                    &&& forall|j: int| 0 <= j < old(self).hidden_servers@.len() && j != i
                        ==> final(self).hidden_servers@[j] == old(self).hidden_servers@[j]
                    &&& kicked_updated(
                        old(self).hidden_servers@[i],
                        final(self).hidden_servers@[i],
                        player_uids@,
                    )
                },
                None => match first_uid_match(old(self).public_servers@, uid@) {
                    Some(i) => {
                        &&& r == true
                        &&& final(self).hidden_servers@ == old(self).hidden_servers@
                        &&& final(self).public_servers@.len() == old(self).public_servers@.len()
                        &&& forall|j: int| 0 <= j < old(self).public_servers@.len() && j != i
                            ==> final(self).public_servers@[j] == old(self).public_servers@[j]
                        &&& kicked_updated(
                            old(self).public_servers@[i],
                            final(self).public_servers@[i],
                            player_uids@,
                        )
                    },
                    None => {
                        &&& r == false
                        &&& final(self).public_servers@ == old(self).public_servers@
                        &&& final(self).hidden_servers@ == old(self).hidden_servers@
                    },
                },
            },
    {
        if update_kick_list_in_partition(&mut self.hidden_servers, uid, &player_uids) {
            true
        } else {
            update_kick_list_in_partition(&mut self.public_servers, uid, &player_uids)
        }
    }

    /// Record the players a bulk check reported as connected to the entry
    /// with this uid, and drain its pending-kick list. Returns the drained
    /// kick list, or nothing when no such entry exists.
    pub fn record_bulk_players(&mut self, uid: &String, players: Vec<Player>) -> (r: Option<
        Vec<u64>,
    >)
        ensures
            final(self).scrub_needed == old(self).scrub_needed,
            final(self).last_scrub_time == old(self).last_scrub_time,
            old(self).wf() ==> final(self).wf(),
            match first_uid_match(old(self).hidden_servers@, uid@) {
                Some(i) => {
                    &&& r is Some
                    &&& r.unwrap()@ == old(self).hidden_servers@[i].kick_list@
                    &&& final(self).public_servers@ == old(self).public_servers@
                    &&& final(self).hidden_servers@.len() == old(self).hidden_servers@.len()
                    &&& forall|j: int| 0 <= j < old(self).hidden_servers@.len() && j != i
                        ==> final(self).hidden_servers@[j] == old(self).hidden_servers@[j]
                    &&& bulk_updated(
                        old(self).hidden_servers@[i],
                        final(self).hidden_servers@[i],
                        players@,
                    )
                },
                None => match first_uid_match(old(self).public_servers@, uid@) {
                    Some(i) => {
                        &&& r is Some
                        &&& r.unwrap()@ == old(self).public_servers@[i].kick_list@
                        &&& final(self).hidden_servers@ == old(self).hidden_servers@
                        &&& final(self).public_servers@.len() == old(self).public_servers@.len()
                        &&& forall|j: int| 0 <= j < old(self).public_servers@.len() && j != i
                            ==> final(self).public_servers@[j] == old(self).public_servers@[j]
                        &&& bulk_updated(
                            old(self).public_servers@[i],
                            final(self).public_servers@[i],
                            players@,
                        )
                    },
                    None => {
                        &&& r is None
                        &&& final(self).public_servers@ == old(self).public_servers@
                        &&& final(self).hidden_servers@ == old(self).hidden_servers@
                    },
                },
            },
    {
        match record_bulk_players_in_partition(&mut self.hidden_servers, uid, &players) {
            Some(kicks) => Some(kicks),
            None => record_bulk_players_in_partition(&mut self.public_servers, uid, &players),
        }
    }

    /// The records of the public entries still live at `now`, as the list
    /// endpoint reports them. Observing a stale entry requests a sweep; the
    /// partitions themselves are not modified. A zero clock reading disables
    /// the staleness filter, as the endpoint's fallback clock does.
    pub fn live_public_servers(&mut self, now: u64) -> (r: Vec<Server>)
        ensures
            final(self).public_servers@ == old(self).public_servers@,
            final(self).hidden_servers@ == old(self).hidden_servers@,
            final(self).last_scrub_time == old(self).last_scrub_time,
            r@ == visible_servers(old(self).public_servers@, now),
            final(self).scrub_needed == (old(self).scrub_needed || (now != 0 && exists|i: int|
                0 <= i < old(self).public_servers@.len() && entry_expired(
                    #[trigger] old(self).public_servers@[i],
                    now,
                ))),
    {
        let (out, stale) = visible_servers_in_partition(&self.public_servers, now);
        if stale {
            self.scrub_needed = true;
        }
        out
    }
}

} // verus!
