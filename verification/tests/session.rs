use hyprconnect::pairing::fingerprint;
use hyprconnect::session::{conclude_pairing, open_session, SessionOpening};
use hyprconnect::trust::{add_trusted, is_trusted, trusted_devices, TrustStore};

#[test]
fn new_peer_needs_the_pairing_code() {
    let store = TrustStore::new();
    let mine = [1u8; 32];
    let theirs = [2u8; 32];
    match open_session(&store, &mine, &theirs) {
        SessionOpening::NeedsConfirmation(code) => {
            assert_eq!(code, fingerprint(&mine, &theirs));
            assert_eq!(code, "259247");
        }
        SessionOpening::AlreadyTrusted => panic!("peer is new"),
    }
}

#[test]
fn trusted_peer_goes_straight_on() {
    let mut store = TrustStore::new();
    add_trusted(&mut store, &[2u8; 32], "p", "Phone", "phone");
    assert!(matches!(
        open_session(&store, &[1u8; 32], &[2u8; 32]),
        SessionOpening::AlreadyTrusted
    ));
}

#[test]
fn accepted_pairing_is_remembered() {
    let mut store = TrustStore::new();
    assert!(conclude_pairing(&mut store, true, &[3u8; 32], "id", "Name", "phone"));
    assert!(is_trusted(&store, &[3u8; 32]));
    assert!(matches!(
        open_session(&store, &[1u8; 32], &[3u8; 32]),
        SessionOpening::AlreadyTrusted
    ));
}

#[test]
fn rejected_pairing_ends_and_trusts_nobody() {
    let mut store = TrustStore::new();
    assert!(!conclude_pairing(&mut store, false, &[3u8; 32], "id", "Name", "phone"));
    assert!(!is_trusted(&store, &[3u8; 32]));
    assert!(trusted_devices(&store).is_empty());
}
