use hyprconnect::noise::{
    decrypt_frame, encode_frame, encrypt_frame, frame_len, remote_key, Handshake, NoiseError, Role,
};

fn body(frame: &[u8]) -> &[u8] {
    let len = frame_len([frame[0], frame[1]]);
    assert_eq!(len, frame.len() - 2);
    &frame[2..]
}

#[test]
fn frames_carry_big_endian_length() {
    let f = encode_frame(&[7u8; 300]).ok().unwrap();
    assert_eq!(f[0], 1);
    assert_eq!(f[1], 44);
    assert_eq!(f.len(), 302);
    assert_eq!(frame_len([1, 44]), 300);
    assert_eq!(encode_frame(&[]).ok().unwrap(), vec![0, 0]);
}

#[test]
fn oversized_frame_is_refused() {
    let big = vec![0u8; 65536];
    assert!(matches!(encode_frame(&big), Err(NoiseError::FrameTooLarge)));
    assert_eq!(encode_frame(&vec![0u8; 65535]).ok().unwrap().len(), 65537);
}

#[test]
fn handshake_then_encrypted_round_trip() {
    let init_secret = [5u8; 32];
    let resp_secret = [9u8; 32];
    let init_public =
        x25519_dalek::PublicKey::from(&x25519_dalek::StaticSecret::from(init_secret)).to_bytes();
    let resp_public =
        x25519_dalek::PublicKey::from(&x25519_dalek::StaticSecret::from(resp_secret)).to_bytes();

    let mut init = Handshake::start(Role::Initiator, &init_secret).ok().unwrap();
    let mut resp = Handshake::start(Role::Responder, &resp_secret).ok().unwrap();

    // Out of turn steps are refused.
    assert!(matches!(resp.next_outgoing(), Err(NoiseError::OutOfTurn)));
    assert!(matches!(init.accept_incoming(&[0u8; 4]), Err(NoiseError::OutOfTurn)));

    let m1 = init.next_outgoing().ok().unwrap();
    resp.accept_incoming(body(&m1)).ok().unwrap();
    let m2 = resp.next_outgoing().ok().unwrap();
    init.accept_incoming(body(&m2)).ok().unwrap();
    let m3 = init.next_outgoing().ok().unwrap();
    resp.accept_incoming(body(&m3)).ok().unwrap();

    let (mut t_init, seen_by_init) = init.finish().ok().unwrap();
    let (mut t_resp, seen_by_resp) = resp.finish().ok().unwrap();
    assert_eq!(seen_by_init, resp_public);
    assert_eq!(seen_by_resp, init_public);

    let frame = encrypt_frame(&mut t_init, b"hello").ok().unwrap();
    assert_eq!(frame.len(), 2 + 5 + 16);
    let plain = decrypt_frame(&mut t_resp, body(&frame)).ok().unwrap();
    assert_eq!(plain, b"hello".to_vec());

    // A tampered message does not open.
    let mut tampered = encrypt_frame(&mut t_resp, b"again").ok().unwrap();
    let last = tampered.len() - 1;
    tampered[last] ^= 1;
    assert!(decrypt_frame(&mut t_init, body(&tampered)).is_err());

    // Too short to hold a tag.
    assert!(decrypt_frame(&mut t_init, &[1, 2, 3]).is_err());
}

#[test]
fn finishing_early_is_refused() {
    let hs = Handshake::start(Role::Initiator, &[1u8; 32]).ok().unwrap();
    assert!(matches!(hs.finish(), Err(NoiseError::OutOfTurn)));
}

#[test]
fn remote_key_checks_presence_and_length() {
    assert!(matches!(remote_key(&None), Err(NoiseError::NoRemoteStatic)));
    assert!(matches!(remote_key(&Some(vec![7u8; 31])), Err(NoiseError::RemoteStaticWrongLength)));
    let mut raw = vec![0u8; 32];
    for (i, b) in raw.iter_mut().enumerate() {
        *b = i as u8 + 1;
    }
    let key = remote_key(&Some(raw.clone())).ok().unwrap();
    assert_eq!(key.to_vec(), raw);
}
