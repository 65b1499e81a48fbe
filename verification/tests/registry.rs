use master_server::server::{Player, Server, ServerInfo, ServerWithUID};
use master_server::server_list::{
    announce_to_partition, find_by_token_in_partition, find_in_partition, partition_has_uid,
    record_bulk_players_in_partition, scrub_partition, sweep_due, update_kick_list_in_partition,
    visible_servers_in_partition, ServerList,
};

fn record(name: &str, hidden: bool, port: u16) -> Server {
    Server {
        name: name.to_string(),
        description: Some("a test server".to_string()),
        map: "mp_rr_canyonlands_64k_x_64k".to_string(),
        playlist: "survival".to_string(),
        max_players: 60,
        player_count: 3,
        ip: "10.0.0.9".to_string(),
        port,
        key: "sharedsecret".to_string(),
        checksum: 12345,
        hidden,
        version: "2.3".to_string(),
    }
}

fn announce(uid: &str, name: &str, hidden: bool, port: u16) -> ServerWithUID {
    ServerWithUID { uid: uid.to_string(), server: record(name, hidden, port), time_stamp: 1000 }
}

#[test]
fn first_announce_creates_one_public_entry_without_token() {
    let mut list = ServerList::new();
    let host = list
        .add_server_at(announce("srv1", "alpha", false, 37015), "1.2.3.4".to_string(), 100, 30)
        .expect("announce should succeed");
    assert_eq!(list.get_public_servers().len(), 1);
    assert_eq!(list.get_hidden_servers().len(), 0);
    assert!(host.token.is_none());
    assert_eq!(host.ip, "1.2.3.4");
    assert_eq!(host.port, 37015);
    let entry = &list.get_public_servers()[0];
    assert_eq!(entry.server.ip, "1.2.3.4");
    assert_eq!(entry.server.name, "alpha");
    assert_eq!(entry.internal.uid, host.uid);
    assert_eq!(entry.internal.server_expiry_time, 130);
    assert!(entry.internal.token.is_none());
    assert!(!entry.server.hidden);
}

#[test]
fn first_announce_hidden_entry_gets_token() {
    let mut list = ServerList::new();
    let host = list
        .add_server_at(announce("h1", "ghost", true, 37020), "5.6.7.8".to_string(), 100, 30)
        .expect("announce should succeed");
    assert_eq!(list.get_public_servers().len(), 0);
    assert_eq!(list.get_hidden_servers().len(), 1);
    let token = host.token.expect("hidden entry must receive a token");
    assert_eq!(token.len(), 36);
    let entry = &list.get_hidden_servers()[0];
    assert_eq!(entry.internal.token.as_deref(), Some(token.as_str()));
}

#[test]
fn generated_uid_is_fixed_length_uppercase_hex() {
    let mut list = ServerList::new();
    let host = list
        .add_server_at(announce("u1", "alpha", false, 37015), "1.2.3.4".to_string(), 100, 30)
        .expect("announce should succeed");
    assert_eq!(host.uid.len(), 40);
    assert!(host.uid.chars().all(|c| c.is_ascii_hexdigit() && !c.is_ascii_lowercase()));
}

#[test]
fn matching_reannounce_renews_in_place_without_duplicate() {
    let mut list = ServerList::new();
    let host = list
        .add_server_at(announce("srv1", "alpha", false, 37015), "1.2.3.4".to_string(), 100, 30)
        .expect("announce should succeed");
    // The client re-announces with the uid the registry handed back.
    let renewed = list
        .add_server_at(announce(&host.uid, "alpha2", false, 37016), "1.2.3.4".to_string(), 110, 30)
        .expect("renew should succeed");
    assert_eq!(list.get_public_servers().len(), 1);
    assert_eq!(renewed.uid, host.uid);
    assert_eq!(renewed.token, host.token);
    let entry = &list.get_public_servers()[0];
    assert_eq!(entry.internal.uid, host.uid);
    assert_eq!(entry.internal.server_expiry_time, 140);
    assert_eq!(entry.server.name, "alpha2");
    assert_eq!(entry.server.port, 37016);
}

#[test]
fn repeating_identical_announce_keeps_exactly_one_entry() {
    let mut list = ServerList::new();
    let host = list
        .add_server_at(announce("srv1", "alpha", false, 37015), "1.2.3.4".to_string(), 100, 30)
        .expect("announce should succeed");
    for _ in 0..5 {
        let again = list
            .add_server_at(
                announce(&host.uid, "alpha", false, 37015),
                "1.2.3.4".to_string(),
                100,
                30,
            )
            .expect("renew should succeed");
        assert_eq!(again.uid, host.uid);
        assert_eq!(list.get_public_servers().len(), 1);
        assert_eq!(list.get_public_servers()[0].internal.uid, host.uid);
    }
}

#[test]
fn sweep_removes_every_entry_at_or_past_expiry() {
    let mut list = ServerList::new();
    list.add_server_at(announce("a", "one", false, 1), "1.1.1.1".to_string(), 0, 30).unwrap();
    list.add_server_at(announce("b", "two", false, 2), "2.2.2.2".to_string(), 10, 30).unwrap();
    list.add_server_at(announce("c", "three", true, 3), "3.3.3.3".to_string(), 0, 30).unwrap();
    // Expiries: 30, 40, 30. A sweep at 30 evicts expiry <= 30.
    list.scrub_at(30);
    assert_eq!(list.get_public_servers().len(), 1);
    assert_eq!(list.get_public_servers()[0].server.name, "two");
    assert_eq!(list.get_hidden_servers().len(), 0);
    assert!(!list.scrub_needed);
    assert_eq!(list.last_scrub_time, 30);
}

#[test]
fn stale_entry_is_evicted_by_unrelated_announce_and_absent_after_sweep() {
    // server_timeout = 30; "srv1" announced at t = 0.
    let mut list = ServerList::new();
    let host1 = list
        .add_server_at(announce("srv1", "one", false, 1), "1.1.1.1".to_string(), 0, 30)
        .expect("announce should succeed");
    // At t = 29 the snapshot still includes it.
    let visible = list.live_public_servers(29);
    assert_eq!(visible.len(), 1);
    assert_eq!(visible[0].name, "one");
    assert!(!list.scrub_needed);
    // At t = 31, an announce for an unrelated uid evicts it during the scan.
    list.add_server_at(announce("srv2", "two", false, 2), "2.2.2.2".to_string(), 31, 30)
        .expect("announce should succeed");
    assert_eq!(list.get_public_servers().len(), 1);
    assert_eq!(list.get_public_servers()[0].server.name, "two");
    assert!(!list.get_public_servers().iter().any(|e| e.internal.uid == host1.uid));
    // A snapshot after the sweep does not include it either.
    list.scrub_at(31);
    let visible = list.live_public_servers(31);
    assert_eq!(visible.len(), 1);
    assert_eq!(visible[0].name, "two");
}

#[test]
fn snapshot_of_stale_entry_requests_sweep() {
    let mut list = ServerList::new();
    list.add_server_at(announce("srv1", "one", false, 1), "1.1.1.1".to_string(), 0, 30).unwrap();
    let visible = list.live_public_servers(31);
    assert_eq!(visible.len(), 0);
    assert!(list.scrub_needed);
    // A zero clock reading disables the staleness filter.
    let visible = list.live_public_servers(0);
    assert_eq!(visible.len(), 1);
    assert!(list.scrub_due(31));
    list.scrub_at(31);
    assert_eq!(list.live_public_servers(31).len(), 0);
}

#[test]
fn scrub_due_on_flag_or_quiescence() {
    let mut list = ServerList::new();
    list.scrub_at(1000);
    assert!(!list.scrub_due(1000));
    assert!(!list.scrub_due(2799));
    assert!(list.scrub_due(2800));
    // A clock that moved backwards does not trigger the quiescence rule.
    assert!(!list.scrub_due(999));
    list.scrub_needed = true;
    assert!(list.scrub_due(999));
}

#[test]
fn lookup_by_token_returns_entry_and_unknown_token_misses() {
    let mut list = ServerList::new();
    let host = list
        .add_server_at(announce("h1", "ghost", true, 37020), "5.6.7.8".to_string(), 100, 30)
        .expect("announce should succeed");
    let token = host.token.expect("hidden entry must receive a token");
    let found = list.get_hidden_server(&token).expect("token lookup should hit");
    assert_eq!(found.server.name, "ghost");
    assert_eq!(found.internal.uid, host.uid);
    let missing = list.get_hidden_server(&"00000000-0000-4000-8000-000000000000".to_string());
    assert!(missing.is_none());
}

#[test]
fn exists_and_find_scan_both_partitions() {
    let mut list = ServerList::new();
    let pub_host = list
        .add_server_at(announce("p", "pub", false, 1), "1.1.1.1".to_string(), 0, 30)
        .unwrap();
    let hid_host = list
        .add_server_at(announce("h", "hid", true, 2), "2.2.2.2".to_string(), 0, 30)
        .unwrap();
    assert!(list.does_server_exist(&pub_host.uid));
    assert!(list.does_server_exist(&hid_host.uid));
    assert!(!list.does_server_exist(&"absent".to_string()));
    let found = list.find_server_from_uid(&pub_host.uid).expect("uid lookup should hit");
    assert_eq!(found.server.name, "pub");
    let found = list.find_server_from_uid(&hid_host.uid).expect("uid lookup should hit");
    assert_eq!(found.server.name, "hid");
    assert!(list.find_server_from_uid(&"absent".to_string()).is_none());
}

#[test]
fn update_kick_list_replaces_wholesale_and_reports_misses() {
    let mut list = ServerList::new();
    let host = list
        .add_server_at(announce("p", "pub", false, 1), "1.1.1.1".to_string(), 0, 30)
        .unwrap();
    assert!(list.update_kick_list(&host.uid, vec![7, 8, 9]));
    assert_eq!(list.get_public_servers()[0].kick_list, vec![7, 8, 9]);
    assert!(list.update_kick_list(&host.uid, vec![1]));
    assert_eq!(list.get_public_servers()[0].kick_list, vec![1]);
    assert!(!list.update_kick_list(&"absent".to_string(), vec![2]));
    assert_eq!(list.get_public_servers()[0].kick_list, vec![1]);
}

#[test]
fn bulk_check_records_players_and_drains_kicks() {
    let mut list = ServerList::new();
    let host = list
        .add_server_at(announce("p", "pub", false, 1), "1.1.1.1".to_string(), 0, 30)
        .unwrap();
    list.update_kick_list(&host.uid, vec![42, 43]);
    let players = vec![
        Player { name: String::new(), ip: Some("9.9.9.9".to_string()), uid: Some(42) },
        Player { name: String::new(), ip: None, uid: Some(50) },
    ];
    let kicks = list.record_bulk_players(&host.uid, players).expect("uid is registered");
    assert_eq!(kicks, vec![42, 43]);
    let entry = &list.get_public_servers()[0];
    assert!(entry.kick_list.is_empty());
    assert_eq!(entry.players.len(), 2);
    assert_eq!(entry.players[0].uid, Some(42));
    assert_eq!(entry.players[0].ip.as_deref(), Some("9.9.9.9"));
    // The drained list is gone: a second bulk check hands back nothing.
    let kicks = list.record_bulk_players(&host.uid, Vec::new()).expect("uid is registered");
    assert!(kicks.is_empty());
    assert!(list.record_bulk_players(&"absent".to_string(), Vec::new()).is_none());
}

#[test]
fn clock_driven_announce_also_registers() {
    let mut list = ServerList::new();
    let host = list
        .add_server(announce("real", "clocked", false, 4), "4.4.4.4".to_string(), 30)
        .expect("system clock should be available");
    assert_eq!(list.get_public_servers().len(), 1);
    assert_eq!(list.get_public_servers()[0].internal.uid, host.uid);
}

#[test]
fn partition_operations_compose_like_the_registry() {
    // The same operations the shared deployment runs under one lock per
    // partition.
    let mut public: Vec<ServerInfo> = Vec::new();
    let host = announce_to_partition(
        &mut public,
        announce("p1", "one", false, 1),
        "1.1.1.1".to_string(),
        30,
    )
    .expect("clock and random source available");
    assert_eq!(public.len(), 1);
    assert!(partition_has_uid(&public, &host.uid));
    assert!(!partition_has_uid(&public, &"absent".to_string()));
    assert_eq!(find_in_partition(&public, &host.uid).unwrap().server.name, "one");
    assert!(update_kick_list_in_partition(&mut public, &host.uid, &vec![9]));
    let kicks = record_bulk_players_in_partition(&mut public, &host.uid, &Vec::new())
        .expect("uid is registered");
    assert_eq!(kicks, vec![9]);
    assert!(public[0].kick_list.is_empty());
    let (visible, stale) = visible_servers_in_partition(&public, 0);
    assert_eq!(visible.len(), 1);
    assert!(!stale);
    // The entry expires about thirty seconds from now; a sweep far in the
    // future evicts it.
    scrub_partition(&mut public, u64::MAX);
    assert!(public.is_empty());
}

#[test]
fn sweep_due_on_flag_or_quiescence_standalone() {
    assert!(sweep_due(true, 500, 0));
    assert!(!sweep_due(false, 100, 200));
    assert!(sweep_due(false, 100, 1900));
    assert!(!sweep_due(false, 1000, 999));
}

#[test]
fn hidden_partition_token_lookup() {
    let mut hidden: Vec<ServerInfo> = Vec::new();
    let host = announce_to_partition(
        &mut hidden,
        announce("h1", "ghost", true, 2),
        "2.2.2.2".to_string(),
        30,
    )
    .expect("clock and random source available");
    let token = host.token.expect("hidden entry must receive a token");
    let found = find_by_token_in_partition(&hidden, &token).expect("token lookup should hit");
    assert_eq!(found.internal.uid, host.uid);
    assert!(find_by_token_in_partition(&hidden, &"nope".to_string()).is_none());
}
