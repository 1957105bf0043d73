use hyprconnect::discovery::{
    discovered_devices, discovery_identity, get_discovered, get_discovered_by_address, host_name,
    service_properties, AnnouncedAddress, DialDecision, Dialer, DiscoveredDevice,
    DiscoveryIdentity, DiscoveryRegistry, ServiceAnnouncement,
};

fn device(id: &str, address: Option<&str>, port: u16) -> DiscoveredDevice {
    DiscoveredDevice {
        device_id: id.to_string(),
        device_name: format!("{id}-name"),
        device_type: "phone".to_string(),
        address: address.map(|a| a.to_string()),
        port,
    }
}

fn identity(id: &str, auto_pair: bool) -> DiscoveryIdentity {
    discovery_identity(id.to_string(), "Desk", "desktop", 4000, auto_pair)
}

fn announcement(id: Option<&str>, addresses: &[(bool, &str)], port: u16) -> ServiceAnnouncement {
    ServiceAnnouncement {
        device_id: id.map(|s| s.to_string()),
        device_name: Some("Phone".to_string()),
        device_type: None,
        addresses: addresses
            .iter()
            .map(|(v4, t)| AnnouncedAddress { is_ipv4: *v4, text: t.to_string() })
            .collect(),
        port,
    }
}

#[test]
fn registry_records_and_replaces_by_id() {
    let mut reg = DiscoveryRegistry::new();
    reg.record(device("a", None, 1));
    reg.record(device("b", Some("10.0.0.2"), 2));
    reg.record(device("a", Some("10.0.0.1"), 3));
    let all = discovered_devices(&reg);
    assert_eq!(all.len(), 2);
    assert_eq!(all[0].device_id, "a");
    assert_eq!(all[0].port, 3);
    assert_eq!(all[0].address.as_deref(), Some("10.0.0.1"));
    assert_eq!(all[1].device_id, "b");
}

#[test]
fn get_discovered_finds_by_id() {
    let mut reg = DiscoveryRegistry::new();
    reg.record(device("a", None, 1));
    assert_eq!(get_discovered(&reg, "a").map(|d| d.port), Some(1));
    assert!(get_discovered(&reg, "z").is_none());
}

#[test]
fn get_discovered_by_address_finds_first_match() {
    let mut reg = DiscoveryRegistry::new();
    reg.record(device("a", None, 1));
    reg.record(device("b", Some("192.168.1.9"), 2));
    reg.record(device("c", Some("192.168.1.9"), 3));
    let found = get_discovered_by_address(&reg, "192.168.1.9").unwrap();
    assert_eq!(found.device_id, "b");
    assert!(get_discovered_by_address(&reg, "192.168.1.10").is_none());
}

#[test]
fn own_announcement_is_ignored() {
    let mut reg = DiscoveryRegistry::new();
    let mut dialer = Dialer::new(&identity("me", true));
    let d = dialer.on_service_resolved(&mut reg, announcement(Some("me"), &[(true, "1.2.3.4")], 9));
    assert!(matches!(d, DialDecision::OwnAnnouncement));
    assert!(discovered_devices(&reg).is_empty());
}

#[test]
fn without_auto_pair_peers_are_only_recorded() {
    let mut reg = DiscoveryRegistry::new();
    let mut dialer = Dialer::new(&identity("a", false));
    let d = dialer.on_service_resolved(&mut reg, announcement(Some("b"), &[(true, "1.2.3.4")], 9));
    assert!(matches!(d, DialDecision::Recorded));
    let rec = get_discovered(&reg, "b").unwrap();
    assert_eq!(rec.device_name, "Phone");
    assert_eq!(rec.device_type, "unknown");
    assert_eq!(rec.address.as_deref(), Some("1.2.3.4"));
}

#[test]
fn missing_id_reads_as_unknown() {
    let mut reg = DiscoveryRegistry::new();
    let mut dialer = Dialer::new(&identity("a", false));
    dialer.on_service_resolved(&mut reg, announcement(None, &[], 9));
    assert!(get_discovered(&reg, "unknown").is_some());
}

#[test]
fn smaller_id_dials_with_ipv4_target() {
    let mut reg = DiscoveryRegistry::new();
    let mut dialer = Dialer::new(&identity("aaa", true));
    let d = dialer.on_service_resolved(
        &mut reg,
        announcement(Some("bbb"), &[(false, "fe80::1"), (true, "192.168.1.5")], 1716),
    );
    match d {
        DialDecision::Dial(t) => {
            assert_eq!(t.target, "192.168.1.5:1716");
            assert_eq!(t.remote_id, "bbb");
            assert_eq!(t.remote_name, "Phone");
            assert_eq!(t.remote_type, "unknown");
        }
        _ => panic!("expected a dial"),
    }
    // A second announcement does not dial again.
    let again = dialer.on_service_resolved(
        &mut reg,
        announcement(Some("bbb"), &[(true, "192.168.1.5")], 1716),
    );
    assert!(matches!(again, DialDecision::AlreadyDialing));
    // After a failed dial the peer is dialed again.
    dialer.on_dial_failed("bbb");
    let retry = dialer.on_service_resolved(
        &mut reg,
        announcement(Some("bbb"), &[(true, "192.168.1.5")], 0),
    );
    match retry {
        DialDecision::Dial(t) => assert_eq!(t.target, "192.168.1.5:0"),
        _ => panic!("expected a dial after the failure"),
    }
}

#[test]
fn larger_id_yields_to_peer() {
    let mut reg = DiscoveryRegistry::new();
    let mut dialer = Dialer::new(&identity("bbb", true));
    let d = dialer.on_service_resolved(&mut reg, announcement(Some("aaa"), &[(true, "10.0.0.1")], 5));
    assert!(matches!(d, DialDecision::YieldToPeer));
    // It was still recorded.
    assert!(get_discovered(&reg, "aaa").is_some());
}

#[test]
fn tie_break_exactly_one_side_dials() {
    let mut reg_a = DiscoveryRegistry::new();
    let mut reg_b = DiscoveryRegistry::new();
    let mut a = Dialer::new(&identity("device-a", true));
    let mut b = Dialer::new(&identity("device-ab", true));
    let da = a.on_service_resolved(&mut reg_a, announcement(Some("device-ab"), &[(true, "10.0.0.2")], 1));
    let db = b.on_service_resolved(&mut reg_b, announcement(Some("device-a"), &[(true, "10.0.0.1")], 1));
    assert!(matches!(da, DialDecision::Dial(_)));
    assert!(matches!(db, DialDecision::YieldToPeer));
}

#[test]
fn no_ipv4_waits_without_marking() {
    let mut reg = DiscoveryRegistry::new();
    let mut dialer = Dialer::new(&identity("a", true));
    let d = dialer.on_service_resolved(&mut reg, announcement(Some("b"), &[(false, "fe80::2")], 7));
    assert!(matches!(d, DialDecision::AwaitingAddress));
    assert!(get_discovered(&reg, "b").unwrap().address.is_none());
    let later = dialer.on_service_resolved(&mut reg, announcement(Some("b"), &[(true, "10.1.1.1")], 7));
    assert!(matches!(later, DialDecision::Dial(_)));
}

#[test]
fn host_name_appends_local_domain() {
    assert_eq!(host_name("abc123"), "abc123.local.");
}

#[test]
fn service_properties_list_identity() {
    let id = DiscoveryIdentity {
        device_id: "id1".to_string(),
        device_name: "Desk".to_string(),
        device_type: "desktop".to_string(),
        protocol_version: 12,
        port: 1,
        auto_pair: false,
    };
    let props = service_properties(&id);
    let expected = vec![
        ("device_id".to_string(), "id1".to_string()),
        ("device_name".to_string(), "Desk".to_string()),
        ("device_type".to_string(), "desktop".to_string()),
        ("protocol_version".to_string(), "12".to_string()),
    ];
    assert_eq!(props, expected);
}

#[test]
fn discovery_identity_uses_protocol_version_one() {
    let id = discovery_identity("x".to_string(), "n", "t", 5555, true);
    assert_eq!(id.protocol_version, 1);
    assert_eq!(id.port, 5555);
    assert!(id.auto_pair);
    assert_eq!(id.device_name, "n");
}

#[test]
fn daemon_identity_always_dials() {
    let daemon = hyprconnect::daemon::discovery::DiscoveryIdentity {
        device_id: "d".to_string(),
        device_name: "Desk".to_string(),
        device_type: "desktop".to_string(),
        protocol_version: 1,
        port: 9,
    };
    let announced = daemon.announced();
    assert!(announced.auto_pair);
    assert_eq!(announced.device_id, "d");
}

#[test]
fn peer_is_dialed_again_only_after_its_dial_failed() {
    let mut reg = DiscoveryRegistry::new();
    let mut dialer = Dialer::new(&identity("aaa", true));
    let ann = || announcement(Some("zzz"), &[(true, "10.0.0.9")], 1716);
    assert!(matches!(dialer.on_service_resolved(&mut reg, ann()), DialDecision::Dial(_)));
    for _ in 0..3 {
        assert!(matches!(dialer.on_service_resolved(&mut reg, ann()), DialDecision::AlreadyDialing));
    }
    dialer.on_dial_failed("zzz");
    assert!(matches!(dialer.on_service_resolved(&mut reg, ann()), DialDecision::Dial(_)));
}
