//! The ban checker: given the ban rows stored for a player's identifiers,
//! decide whether the player is currently banned. The backing store itself
//! is an external collaborator; the surrounding application fetches rows and
//! hands them in, and applies the configured fail policy through
//! [`ban_failure_outcome`] when the store cannot be queried.

use vstd::prelude::*;

use crate::responses::BanIdentifiers;
use crate::server::{clone_opt_string, Player};

verus! {

/// The outcome of a ban check.
pub enum BanInfo {
    Banned(String),
    NotBanned,
}

/// One row of the ban table.
pub struct BanRows {
    pub ban_id: i32,
    pub identifier: Option<String>,
    pub reason: Option<String>,
    pub banned_on: i64,
    pub unban_date: Option<i64>,
}

impl Clone for BanRows {
    fn clone(&self) -> (r: Self)
        ensures
            r == *self,
    {
        BanRows {
            ban_id: self.ban_id,
            identifier: clone_opt_string(&self.identifier),
            reason: clone_opt_string(&self.reason),
            banned_on: self.banned_on,
            unban_date: self.unban_date,
        }
    }
}

/// Whether a row still binds at `now`: a row with no unban timestamp, or
/// one of exactly zero, is a permanent ban; one with a non-expired unban
/// timestamp is an active temporary ban; one whose unban timestamp lies in
/// the past has expired and binds nobody.
pub open spec fn row_decides(row: BanRows, now: i64) -> bool {
    match row.unban_date {
        None => true,
        Some(t) => t == 0 || t >= now,
    }
}

/// The reason a deciding row reports: its own, or the default text.
pub open spec fn row_reason(row: BanRows) -> Seq<char> {
    match row.reason {
        Some(s) => s@,
        None => "You have been banned!"@,
    }
}

/// The index of the row that governs the outcome: the one with the
/// greatest ban timestamp among all stored rows — the most recent ban is
/// authoritative outright, whatever its state — and the earliest stored
/// row on a tie.
///
/// Two readings of "the most recent ban governs" are possible, and they
/// disagree when an expired temporary ban is dated later than a standing
/// permanent one. Implemented here: the newest row governs outright, so
/// that newer, since-lifted temporary ban masks the older permanent one
/// and the player is not banned. The alternative — skip expired rows and
/// let the most recent row that still binds govern, under which the older
/// permanent ban would still hold — is deliberately not implemented, even
/// though a scan-that-skips-expired-rows description of this checker reads
/// that way; the masking is kept as specified behavior.
pub open spec fn governing_row(rows: Seq<BanRows>) -> Option<int>
    decreases rows.len(),
{
    if rows.len() == 0 {
        None
    } else {
        let last = rows.len() - 1;
        match governing_row(rows.drop_last()) {
            None => Some(last as int),
            Some(c) => if rows[last as int].banned_on > rows[c].banned_on {
                Some(last as int)
            } else {
                Some(c)
            },
        }
    }
}

/// What `governing_row` picks: the most recent stored row, earliest on a
/// tie; and nothing exactly when no rows are stored.
pub proof fn lemma_governing_row(rows: Seq<BanRows>)
    ensures
        match governing_row(rows) {
            None => rows.len() == 0,
            Some(g) => {
                &&& 0 <= g < rows.len()
                &&& forall|j: int| 0 <= j < rows.len()
                    ==> (#[trigger] rows[j]).banned_on <= rows[g].banned_on
                &&& forall|j: int| 0 <= j < rows.len() && (#[trigger] rows[j]).banned_on
                    == rows[g].banned_on ==> g <= j
            },
        },
    decreases rows.len(),
{
    if rows.len() > 0 {
        lemma_governing_row(rows.drop_last());
        assert(forall|j: int|
            0 <= j < rows.len() - 1 ==> rows.drop_last()[j] == #[trigger] rows[j]);
    }
}

/// Decide a ban check from the rows stored for the player's identifiers.
/// With no stored rows the player is not banned; otherwise the most recent
/// row alone determines the outcome: banned, with that row's reason, when
/// it still binds, and not banned when its unban timestamp has passed —
/// even if an older permanent ban is also on record.
pub fn evaluate_ban_rows(rows: &Vec<BanRows>, now: i64) -> (r: BanInfo)
    ensures
        match governing_row(rows@) {
            None => r is NotBanned,
            Some(g) => {
                if row_decides(rows@[g], now) {
                    r matches BanInfo::Banned(reason) && reason@ == row_reason(rows@[g])
                } else {
                    r is NotBanned
                }
            },
        },
{
    let mut best: Option<usize> = None;
    let mut k: usize = 0;
    while k < rows.len()
        invariant
            k <= rows@.len(),
            match best {
                None => k == 0 && governing_row(rows@.take(k as int)) is None,
                Some(b) => b < k && governing_row(rows@.take(k as int)) == Some(b as int),
            },
        decreases rows@.len() - k,
    {
        proof {
            assert(rows@.take(k + 1).drop_last() =~= rows@.take(k as int));
            assert(rows@.take(k + 1).last() == rows@[k as int]);
        }
        best = match best {
            None => Some(k),
            Some(b) => {
                if rows[k].banned_on > rows[b].banned_on {
                    Some(k)
                } else {
                    Some(b)
                }
            },
        };
        k = k + 1;
    }
    proof {
        assert(rows@.take(rows@.len() as int) =~= rows@);
    }
    match best {
        None => BanInfo::NotBanned,
        Some(b) => {
            let decides = match rows[b].unban_date {
                None => true,
                Some(t) => t == 0 || t >= now,
            };
            if decides {
                let reason = match &rows[b].reason {
                    Some(s) => s.clone(),
                    None => String::from_str("You have been banned!"),
                };
                BanInfo::Banned(reason)
            } else {
                BanInfo::NotBanned
            }
        },
    }
}

/// Whether a check must short-circuit to not-banned: with neither a numeric
/// id nor an IP there is nothing to look up.
pub fn check_skips_lookup(identifiers: &BanIdentifiers) -> (r: bool)
    ensures
        r == (identifiers.id is None && identifiers.ip is None),
{
    identifiers.id.is_none() && identifiers.ip.is_none()
}

/// The outcome when the backing store cannot be queried: fail-closed reports
/// a ban with a generic reason, fail-open reports not banned.
pub fn ban_failure_outcome(fail_closed: bool) -> (r: BanInfo)
    ensures
        fail_closed ==> (r matches BanInfo::Banned(reason) && reason@
            == "An internal error occurred"@),
        !fail_closed ==> r is NotBanned,
{
    if fail_closed {
        BanInfo::Banned(String::from_str("An internal error occurred"))
    } else {
        BanInfo::NotBanned
    }
}

/// Whether a ban request's unban timestamp is acceptable: absent means a
/// permanent ban, and an expiry in the past cannot be inserted.
pub fn unban_date_permitted(unban_date: Option<u64>, now: u64) -> (r: bool)
    ensures
        r == match unban_date {
            None => true,
            Some(t) => t >= now,
        },
{
    match unban_date {
        None => true,
        Some(t) => t >= now,
    }
}

/// The decimal digit character for a value below ten.
pub open spec fn decimal_digit(d: int) -> char
    recommends
        0 <= d < 10,
{
    "0123456789"@[d]
}

/// The decimal rendering of a number, without leading zeros.
pub open spec fn decimal_str(n: nat) -> Seq<char>
    decreases n,
{
    if n < 10 {
        seq![decimal_digit(n as int)]
    } else {
        decimal_str(n / 10) + seq![decimal_digit((n % 10) as int)]
    }
}

/// Exact decimal rendering of a numeric identifier.
pub fn u64_to_decimal(n: u64) -> (r: String)
    ensures
        r@ == decimal_str(n as nat),
    decreases n,
{
    let digits = "0123456789";
    proof {
        reveal_strlit("0123456789");
        assert(digits.is_ascii());
        assert(digits@.len() == 10);
    }
    if n < 10 {
        let d = digits.substring_ascii(n as usize, n as usize + 1);
        proof {
            assert(digits@.subrange(n as int, n as int + 1) =~= seq![decimal_digit(n as int)]);
        }
        d.to_owned()
    } else {
        let mut s = u64_to_decimal(n / 10);
        let m = (n % 10) as usize;
        s.append(digits.substring_ascii(m, m + 1));
        proof {
            assert(digits@.subrange(m as int, m as int + 1) =~= seq![decimal_digit(m as int)]);
        }
        s
    }
}

/// The lookup keys a check queries with: the numeric id rendered in
/// decimal, then the normalized IP, in that order, for whichever are
/// present.
pub fn ban_lookup_keys(id: Option<u64>, ip: Option<String>) -> (r: Vec<String>)
    ensures
        match (id, ip) {
            (None, None) => r@.len() == 0,
            (Some(n), None) => r@.len() == 1 && r@[0]@ == decimal_str(n as nat),
            (None, Some(p)) => r@.len() == 1 && r@[0] == p,
            (Some(n), Some(p)) => r@.len() == 2 && r@[0]@ == decimal_str(n as nat) && r@[1] == p,
        },
{
    let mut keys: Vec<String> = Vec::new();
    if let Some(n) = id {
        keys.push(u64_to_decimal(n));
    }
    if let Some(p) = ip {
        keys.push(p);
    }
    keys
}

/// The player records a bulk check stores on the entry it hits: one per
/// reported identifier, name left empty.
pub fn players_from_identifiers(ids: &Vec<BanIdentifiers>) -> (r: Vec<Player>)
    ensures
        r@.len() == ids@.len(),
        forall|i: int| 0 <= i < ids@.len() ==> {
            &&& (#[trigger] r@[i]).name@.len() == 0
            &&& r@[i].ip == ids@[i].ip
            &&& r@[i].uid == ids@[i].id
        },
{
    let mut out: Vec<Player> = Vec::new();
    let mut k: usize = 0;
    while k < ids.len()
        invariant
            k <= ids@.len(),
            out@.len() == k,
            forall|i: int| 0 <= i < k ==> {
                &&& (#[trigger] out@[i]).name@.len() == 0
                &&& out@[i].ip == ids@[i].ip
                &&& out@[i].uid == ids@[i].id
            },
        decreases ids@.len() - k,
    {
        out.push(Player {
            name: String::new(),
            ip: clone_opt_string(&ids[k].ip),
            uid: ids[k].id,
        });
        k = k + 1;
    }
    out
}

/// The ban identifiers a drained kick list contributes to a bulk-check
/// response: one per kicked player uid, marked with the kick reason.
pub fn kick_ban_identifiers(kicks: &Vec<u64>) -> (r: Vec<BanIdentifiers>)
    ensures
        r@.len() == kicks@.len(),
        forall|i: int| 0 <= i < kicks@.len() ==> {
            &&& (#[trigger] r@[i]).uid is None
            &&& r@[i].id == Some(kicks@[i])
            &&& r@[i].ip is None
            &&& r@[i].reason is Some
            &&& r@[i].reason.unwrap()@ == "Kicked from server"@
        },
{
    let mut out: Vec<BanIdentifiers> = Vec::new();
    let mut k: usize = 0;
    while k < kicks.len()
        invariant
            k <= kicks@.len(),
            out@.len() == k,
            forall|i: int| 0 <= i < k ==> {
                &&& (#[trigger] out@[i]).uid is None
                &&& out@[i].id == Some(kicks@[i])
                &&& out@[i].ip is None
                &&& out@[i].reason is Some
                &&& out@[i].reason.unwrap()@ == "Kicked from server"@
            },
        decreases kicks@.len() - k,
    {
        out.push(BanIdentifiers {
            uid: None,
            id: Some(kicks[k]),
            ip: None,
            reason: Some(String::from_str("Kicked from server")),
        });
        k = k + 1;
    }
    out
}

} // verus!


