use std::cell::RefCell;
use std::rc::Rc;

use hyprconnect::pairing::{
    confirm_pairing, fingerprint, is_pairing_in_progress, register_callback, CallbackSlot,
    PairingState,
};
use hyprconnect::{DeviceEventCallback, HyprConnectError};

struct Recorder {
    seen: Rc<RefCell<Vec<(String, String)>>>,
}

impl DeviceEventCallback for Recorder {
    fn on_pairing_code(&self, device_id: String, code: String) {
        self.seen.borrow_mut().push((device_id, code));
    }
}

fn recorder() -> (Recorder, Rc<RefCell<Vec<(String, String)>>>) {
    let seen = Rc::new(RefCell::new(Vec::new()));
    (Recorder { seen: seen.clone() }, seen)
}

#[test]
fn fingerprint_matches_sha256_of_sorted_keys() {
    assert_eq!(fingerprint(&[1u8; 32], &[2u8; 32]), "259247");
}

#[test]
fn fingerprint_is_symmetric() {
    let a = [1u8; 32];
    let b = [2u8; 32];
    assert_eq!(fingerprint(&a, &b), fingerprint(&b, &a));
    let mut c = [0u8; 32];
    c[31] = 255;
    let mut d = [0u8; 32];
    d[0] = 1;
    assert_eq!(fingerprint(&c, &d), "883486");
    assert_eq!(fingerprint(&d, &c), "883486");
}

#[test]
fn fingerprint_pads_to_six_digits() {
    let code = fingerprint(&[0u8; 32], &[0u8; 32]);
    assert_eq!(code, "098813");
    assert_eq!(code.len(), 6);
    assert!(code.chars().all(|c| c.is_ascii_digit()));
}

fn slot_with(cb: Recorder) -> CallbackSlot<Recorder> {
    let mut slot = CallbackSlot::new();
    register_callback(&mut slot, cb);
    slot
}

/// Starts a pairing and shows its code, as the confirmer does.
fn begin_and_show(
    state: &mut PairingState<u32>,
    slot: &CallbackSlot<Recorder>,
    id: &str,
    code: &str,
    responder: u32,
) -> Result<(), HyprConnectError> {
    let notice = state.begin_confirmation(slot, id.to_string(), code.to_string(), responder)?;
    slot.show_pairing_code(notice);
    Ok(())
}

#[test]
fn begin_without_callback_fails_and_clears() {
    let mut state: PairingState<u32> = PairingState::new();
    let slot: CallbackSlot<Recorder> = CallbackSlot::new();
    let r = state.begin_confirmation(&slot, "dev".to_string(), "123456".to_string(), 7);
    match r {
        Err(HyprConnectError::Transport(msg)) => {
            assert_eq!(msg, "pairing callback is not registered")
        }
        _ => panic!("expected a transport error"),
    }
    assert!(!is_pairing_in_progress(&state));
}

#[test]
fn begin_notifies_callback_and_waits() {
    let (cb, seen) = recorder();
    let mut state: PairingState<u32> = PairingState::new();
    let slot = slot_with(cb);
    assert!(!is_pairing_in_progress(&state));
    let notice = state
        .begin_confirmation(&slot, "phone".to_string(), "654321".to_string(), 1)
        .ok()
        .unwrap();
    assert_eq!(notice.device_id, "phone");
    assert_eq!(notice.code, "654321");
    assert!(is_pairing_in_progress(&state));
    slot.show_pairing_code(notice);
    assert_eq!(
        seen.borrow().clone(),
        vec![("phone".to_string(), "654321".to_string())]
    );
}

#[test]
fn second_pairing_is_refused_while_one_waits() {
    let (cb, seen) = recorder();
    let mut state: PairingState<u32> = PairingState::new();
    let slot = slot_with(cb);
    assert!(begin_and_show(&mut state, &slot, "a", "111111", 1).is_ok());
    let second = begin_and_show(&mut state, &slot, "b", "222222", 2);
    assert!(matches!(second, Err(HyprConnectError::PairingInProgress)));
    assert_eq!(seen.borrow().len(), 1);
    // The first pairing is still the one waiting.
    assert_eq!(confirm_pairing(&mut state, "a".to_string(), true), Some((1, true)));
    // Once answered, another may start.
    assert!(begin_and_show(&mut state, &slot, "b", "222222", 2).is_ok());
}

#[test]
fn confirm_for_waiting_device_hands_back_responder() {
    let (cb, _) = recorder();
    let mut state: PairingState<u32> = PairingState::new();
    let slot = slot_with(cb);
    begin_and_show(&mut state, &slot, "a", "111111", 42).ok().unwrap();
    assert_eq!(confirm_pairing(&mut state, "a".to_string(), false), Some((42, false)));
    assert!(!is_pairing_in_progress(&state));
}

#[test]
fn confirm_for_other_device_is_ignored() {
    let (cb, _) = recorder();
    let mut state: PairingState<u32> = PairingState::new();
    let slot = slot_with(cb);
    begin_and_show(&mut state, &slot, "a", "111111", 5).ok().unwrap();
    assert_eq!(confirm_pairing(&mut state, "b".to_string(), true), None);
    assert!(is_pairing_in_progress(&state));
    assert_eq!(confirm_pairing(&mut state, "a".to_string(), true), Some((5, true)));
}

#[test]
fn confirm_without_pending_is_ignored() {
    let mut state: PairingState<u32> = PairingState::new();
    assert_eq!(confirm_pairing(&mut state, "a".to_string(), true), None);
    assert!(!is_pairing_in_progress(&state));
}

#[test]
fn lib_level_forwarders_behave_like_pairing_ones() {
    let (cb, _) = recorder();
    let mut state: PairingState<u32> = PairingState::new();
    let mut slot = CallbackSlot::new();
    hyprconnect::register_callback(&mut slot, cb);
    begin_and_show(&mut state, &slot, "x", "000001", 9).ok().unwrap();
    assert_eq!(hyprconnect::confirm_pairing(&mut state, "y".to_string(), true), None);
    assert_eq!(
        hyprconnect::confirm_pairing(&mut state, "x".to_string(), true),
        Some((9, true))
    );
}
