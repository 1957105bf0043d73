use hyprconnect::daemon::trust as daemon_trust;
use hyprconnect::trust::{add_trusted, is_trusted, trusted_devices, TrustStore, TrustedDevice};

#[test]
fn added_key_is_trusted_and_others_are_not() {
    let mut store = TrustStore::new();
    let key = [0xabu8; 32];
    let other = [0x01u8; 32];
    assert!(!is_trusted(&store, &key));
    add_trusted(&mut store, &key, "phone-1", "Pixel", "phone");
    assert!(is_trusted(&store, &key));
    assert!(!is_trusted(&store, &other));
}

#[test]
fn trusted_record_stores_lowercase_hex_key() {
    let mut store = TrustStore::new();
    let mut key = [0u8; 32];
    key[0] = 0x01;
    key[1] = 0xfe;
    add_trusted(&mut store, &key, "id", "name", "type");
    let devices = trusted_devices(&store);
    assert_eq!(devices.len(), 1);
    let expected = format!("01fe{}", "00".repeat(30));
    assert_eq!(devices[0].x25519_pub_hex, expected);
    assert_eq!(devices[0].device_id, "id");
    let entries = store.entries();
    assert_eq!(entries[0].0, expected);
}

#[test]
fn re_adding_a_key_replaces_its_record() {
    let mut store = TrustStore::new();
    let key = [7u8; 32];
    add_trusted(&mut store, &key, "id", "old", "phone");
    add_trusted(&mut store, &[8u8; 32], "id2", "other", "phone");
    add_trusted(&mut store, &key, "id", "new", "phone");
    let devices = trusted_devices(&store);
    assert_eq!(devices.len(), 2);
    assert_eq!(devices[0].device_name, "new");
    assert_eq!(devices[1].device_name, "other");
}

#[test]
fn insert_rebuilds_a_store() {
    let mut store = TrustStore::new();
    store.insert(
        "k".to_string(),
        TrustedDevice {
            device_id: "a".to_string(),
            device_name: "b".to_string(),
            device_type: "c".to_string(),
            x25519_pub_hex: "k".to_string(),
        },
    );
    assert_eq!(trusted_devices(&store).len(), 1);
}

#[test]
fn daemon_store_pins_certificates() {
    let mut store = daemon_trust::TrustStore::new();
    assert!(!daemon_trust::is_trusted(&store, "dev", &[1, 2, 3]));
    daemon_trust::add_trusted(&mut store, "dev", "Phone", &[1, 2, 3]);
    assert!(daemon_trust::is_trusted(&store, "dev", &[1, 2, 3]));
    assert!(!daemon_trust::is_trusted(&store, "dev", &[1, 2, 4]));
    assert!(!daemon_trust::is_trusted(&store, "other", &[1, 2, 3]));
    daemon_trust::add_trusted(&mut store, "dev", "Phone", &[9]);
    assert!(daemon_trust::is_trusted(&store, "dev", &[9]));
    assert!(!daemon_trust::is_trusted(&store, "dev", &[1, 2, 3]));
}
