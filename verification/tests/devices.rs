use hyprconnect::discovery::{DiscoveredDevice, DiscoveryRegistry};
use hyprconnect::pairing::{CallbackSlot, PairingState};
use hyprconnect::trust::TrustedDevice;
use hyprconnect::{list_devices, pair, DeviceEventCallback, DeviceInfo, HyprConnectError};

struct Silent;

impl DeviceEventCallback for Silent {
    fn on_pairing_code(&self, _device_id: String, _code: String) {}
}

fn trusted(id: &str, name: &str) -> TrustedDevice {
    TrustedDevice {
        device_id: id.to_string(),
        device_name: name.to_string(),
        device_type: "phone".to_string(),
        x25519_pub_hex: "00".to_string(),
    }
}

fn discovered(id: &str, name: &str, address: Option<&str>) -> DiscoveredDevice {
    DiscoveredDevice {
        device_id: id.to_string(),
        device_name: name.to_string(),
        device_type: "tablet".to_string(),
        address: address.map(|a| a.to_string()),
        port: 1716,
    }
}

fn summary(list: &[DeviceInfo]) -> Vec<(String, String, bool)> {
    list.iter()
        .map(|d| (d.device_id.clone(), d.device_name.clone(), d.trusted))
        .collect()
}

#[test]
fn trusted_devices_win_over_discoveries() {
    let list = list_devices(
        &vec![trusted("a", "A-trusted")],
        &vec![discovered("a", "A-seen", None), discovered("b", "B-seen", None)],
    );
    assert_eq!(
        summary(&list),
        vec![
            ("a".to_string(), "A-trusted".to_string(), true),
            ("b".to_string(), "B-seen".to_string(), false),
        ]
    );
    assert_eq!(list[0].device_type, "phone");
    assert_eq!(list[1].device_type, "tablet");
}

#[test]
fn later_trusted_record_and_first_discovery_win() {
    let list = list_devices(
        &vec![trusted("a", "first"), trusted("a", "second")],
        &vec![discovered("c", "c1", None), discovered("c", "c2", None)],
    );
    assert_eq!(
        summary(&list),
        vec![
            ("a".to_string(), "second".to_string(), true),
            ("c".to_string(), "c1".to_string(), false),
        ]
    );
}

#[test]
fn empty_inputs_give_empty_list() {
    assert!(list_devices(&vec![], &vec![]).is_empty());
}

#[test]
fn pair_refuses_while_pairing_waits() {
    let mut state: PairingState<u8> = PairingState::new();
    let mut slot = CallbackSlot::new();
    hyprconnect::register_callback(&mut slot, Silent);
    state
        .begin_confirmation(&slot, "x".to_string(), "1".to_string(), 0)
        .ok()
        .unwrap();
    let reg = DiscoveryRegistry::new();
    assert!(matches!(pair(&state, &reg, "x"), Err(HyprConnectError::PairingInProgress)));
}

#[test]
fn pair_reports_unknown_device() {
    let state: PairingState<u8> = PairingState::new();
    let reg = DiscoveryRegistry::new();
    assert!(matches!(pair(&state, &reg, "nobody"), Err(HyprConnectError::DeviceNotFound)));
}

#[test]
fn pair_needs_an_address() {
    let state: PairingState<u8> = PairingState::new();
    let mut reg = DiscoveryRegistry::new();
    reg.record(discovered("p", "Phone", None));
    match pair(&state, &reg, "p") {
        Err(HyprConnectError::Transport(msg)) => {
            assert_eq!(msg, "device has no resolved IPv4 address")
        }
        _ => panic!("expected a transport error"),
    }
}

#[test]
fn pair_targets_discovered_address() {
    let state: PairingState<u8> = PairingState::new();
    let mut reg = DiscoveryRegistry::new();
    reg.record(discovered("p", "Phone", Some("10.0.0.7")));
    let t = pair(&state, &reg, "p").ok().unwrap();
    assert_eq!(t.target, "10.0.0.7:1716");
    assert_eq!(t.remote_id, "p");
    assert_eq!(t.remote_name, "Phone");
    assert_eq!(t.remote_type, "tablet");
}

#[test]
fn error_messages() {
    assert_eq!(HyprConnectError::DeviceNotFound.message(), "device not found");
    assert_eq!(HyprConnectError::NotPaired.message(), "not paired with this device");
    assert_eq!(
        HyprConnectError::PairingInProgress.message(),
        "another pairing is already in progress"
    );
    assert_eq!(
        HyprConnectError::Transport("closed".to_string()).message(),
        "transport error: closed"
    );
}

#[test]
fn listed_ids_are_the_distinct_union() {
    let list = list_devices(
        &vec![trusted("t1", "T1"), trusted("both", "B"), trusted("t1", "T1 again")],
        &vec![
            discovered("d1", "D1", Some("10.0.0.2")),
            discovered("both", "B seen", None),
            discovered("d1", "D1 again", None),
        ],
    );
    let mut ids: Vec<String> = list.iter().map(|d| d.device_id.clone()).collect();
    ids.sort();
    assert_eq!(ids, vec!["both".to_string(), "d1".to_string(), "t1".to_string()]);
    for d in &list {
        assert_eq!(d.trusted, d.device_id != "d1");
    }
}
