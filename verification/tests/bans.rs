use master_server::bans::{
    ban_failure_outcome, ban_lookup_keys, check_skips_lookup, evaluate_ban_rows,
    kick_ban_identifiers, players_from_identifiers, u64_to_decimal, unban_date_permitted, BanInfo,
    BanRows,
};
use master_server::responses::BanIdentifiers;

fn row(ban_id: i32, identifier: &str, reason: Option<&str>, banned_on: i64, unban: Option<i64>) -> BanRows {
    BanRows {
        ban_id,
        identifier: Some(identifier.to_string()),
        reason: reason.map(|r| r.to_string()),
        banned_on,
        unban_date: unban,
    }
}

fn banned_reason(info: BanInfo) -> Option<String> {
    match info {
        BanInfo::Banned(reason) => Some(reason),
        BanInfo::NotBanned => None,
    }
}

#[test]
fn permanent_ban_reports_banned_and_deleted_row_does_not() {
    // Check({id: 42}) with a stored permanent ban for identifier "42".
    let rows = vec![row(1, "42", Some("cheating"), 500, None)];
    let info = evaluate_ban_rows(&rows, 1000);
    assert_eq!(banned_reason(info).as_deref(), Some("cheating"));
    // After the row is unbanned (deleted), the same check sees no rows.
    let none: Vec<BanRows> = Vec::new();
    assert!(matches!(evaluate_ban_rows(&none, 1000), BanInfo::NotBanned));
}

#[test]
fn empty_reason_gets_default_text() {
    let rows = vec![row(1, "42", None, 500, None)];
    let info = evaluate_ban_rows(&rows, 1000);
    assert_eq!(banned_reason(info).as_deref(), Some("You have been banned!"));
}

#[test]
fn expired_temporary_ban_no_longer_binds() {
    let rows = vec![row(1, "42", Some("afk"), 500, Some(900))];
    assert!(matches!(evaluate_ban_rows(&rows, 1000), BanInfo::NotBanned));
}

#[test]
fn active_temporary_ban_reports_banned() {
    let rows = vec![row(1, "42", Some("afk"), 500, Some(2000))];
    let info = evaluate_ban_rows(&rows, 1000);
    assert_eq!(banned_reason(info).as_deref(), Some("afk"));
}

#[test]
fn zero_unban_timestamp_is_permanent() {
    let rows = vec![row(1, "42", Some("forever"), 500, Some(0))];
    let info = evaluate_ban_rows(&rows, 1000);
    assert_eq!(banned_reason(info).as_deref(), Some("forever"));
}

#[test]
fn most_recent_ban_governs() {
    // The later ban's reason wins regardless of stored order.
    let rows = vec![
        row(1, "42", Some("older"), 100, None),
        row(2, "42", Some("newer"), 900, Some(5000)),
    ];
    let info = evaluate_ban_rows(&rows, 1000);
    assert_eq!(banned_reason(info).as_deref(), Some("newer"));
    // On a timestamp tie the earlier stored row decides.
    let rows = vec![
        row(1, "42", Some("first"), 900, None),
        row(2, "42", Some("second"), 900, None),
    ];
    let info = evaluate_ban_rows(&rows, 1000);
    assert_eq!(banned_reason(info).as_deref(), Some("first"));
}

#[test]
fn newer_expired_ban_masks_older_permanent_ban() {
    // The most recent row governs outright: an expired temporary ban dated
    // later than a permanent ban leaves the player not banned, in either
    // stored order.
    let rows = vec![
        row(1, "42", Some("expired"), 900, Some(950)),
        row(2, "42", Some("permanent"), 100, None),
    ];
    assert!(matches!(evaluate_ban_rows(&rows, 1000), BanInfo::NotBanned));
    let rows = vec![
        row(1, "42", Some("permanent"), 100, None),
        row(2, "42", Some("expired"), 900, Some(950)),
    ];
    assert!(matches!(evaluate_ban_rows(&rows, 1000), BanInfo::NotBanned));
}

#[test]
fn failure_outcome_follows_fail_policy() {
    let closed = ban_failure_outcome(true);
    assert_eq!(banned_reason(closed).as_deref(), Some("An internal error occurred"));
    assert!(matches!(ban_failure_outcome(false), BanInfo::NotBanned));
}

#[test]
fn check_without_identifiers_short_circuits() {
    let neither = BanIdentifiers { uid: None, id: None, ip: None, reason: None };
    assert!(check_skips_lookup(&neither));
    let with_id = BanIdentifiers { uid: None, id: Some(42), ip: None, reason: None };
    assert!(!check_skips_lookup(&with_id));
    let with_ip =
        BanIdentifiers { uid: None, id: None, ip: Some("::ffff:1.2.3.4".to_string()), reason: None };
    assert!(!check_skips_lookup(&with_ip));
}

#[test]
fn past_unban_timestamp_is_rejected() {
    // BanIdentifier(..., unbanTimestamp = now - 10) is rejected.
    let now: u64 = 10_000;
    assert!(!unban_date_permitted(Some(now - 10), now));
    assert!(unban_date_permitted(Some(now), now));
    assert!(unban_date_permitted(Some(now + 60), now));
    assert!(unban_date_permitted(None, now));
}

#[test]
fn decimal_rendering_is_exact() {
    assert_eq!(u64_to_decimal(0), "0");
    assert_eq!(u64_to_decimal(7), "7");
    assert_eq!(u64_to_decimal(42), "42");
    assert_eq!(u64_to_decimal(1_000_000), "1000000");
    assert_eq!(u64_to_decimal(u64::MAX), "18446744073709551615");
}

#[test]
fn lookup_keys_cover_each_identifier_combination() {
    assert!(ban_lookup_keys(None, None).is_empty());
    assert_eq!(ban_lookup_keys(Some(42), None), vec!["42".to_string()]);
    assert_eq!(
        ban_lookup_keys(None, Some("::ffff:1.2.3.4".to_string())),
        vec!["::ffff:1.2.3.4".to_string()]
    );
    assert_eq!(
        ban_lookup_keys(Some(42), Some("::ffff:1.2.3.4".to_string())),
        vec!["42".to_string(), "::ffff:1.2.3.4".to_string()]
    );
}

#[test]
fn kick_identifiers_carry_reason_and_ids() {
    let kicks = vec![5, 6];
    let ids = kick_ban_identifiers(&kicks);
    assert_eq!(ids.len(), 2);
    assert_eq!(ids[0].id, Some(5));
    assert_eq!(ids[1].id, Some(6));
    assert!(ids[0].uid.is_none());
    assert!(ids[0].ip.is_none());
    assert_eq!(ids[0].reason.as_deref(), Some("Kicked from server"));
}

#[test]
fn bulk_players_are_built_from_identifiers() {
    let ids = vec![
        BanIdentifiers { uid: None, id: Some(1), ip: Some("9.9.9.9".to_string()), reason: None },
        BanIdentifiers { uid: None, id: None, ip: None, reason: None },
    ];
    let players = players_from_identifiers(&ids);
    assert_eq!(players.len(), 2);
    assert_eq!(players[0].name, "");
    assert_eq!(players[0].ip.as_deref(), Some("9.9.9.9"));
    assert_eq!(players[0].uid, Some(1));
    assert!(players[1].ip.is_none());
    assert!(players[1].uid.is_none());
}
