use hyprconnect::daemon::cert;
use hyprconnect::identity::{
    generate, generate_new, identity_from_secrets, load_identity, save_identity, IdentityError,
    SavedIdentity,
};

const ED_SECRET: &str = "9d61b19deffd5a60ba844af492ec2cc44449c5697b326919703bac031cae7f60";
const ED_PUBLIC: &str = "d75a980182b10ab7d54bfed3c964073a0ee172f3daa62325af021a68f707511a";
const X_SECRET: &str = "77076d0a7318a57d3c16c17251b26645df4c2f87ebc0992ab177fba51db92c2a";
const X_PUBLIC: &str = "8520f0098930a754748b7ddcb43ef75a0dbf3a0d26381af4eba4a98eaa9b4e6a";

fn saved(ed: &str, x: &str) -> SavedIdentity {
    SavedIdentity {
        device_id: "dev".to_string(),
        ed25519_secret_hex: ed.to_string(),
        x25519_secret_hex: x.to_string(),
    }
}

fn hex_of(bytes: &[u8]) -> String {
    bytes.iter().map(|b| format!("{b:02x}")).collect()
}

#[test]
fn load_derives_public_keys_from_rfc_vectors() {
    let id = load_identity(&saved(ED_SECRET, X_SECRET)).ok().unwrap();
    assert_eq!(id.device_id, "dev");
    assert_eq!(hex_of(&id.ed25519_secret), ED_SECRET);
    assert_eq!(hex_of(&id.ed25519_public), ED_PUBLIC);
    assert_eq!(hex_of(&id.x25519_secret), X_SECRET);
    assert_eq!(hex_of(&id.x25519_public), X_PUBLIC);
}

#[test]
fn load_accepts_uppercase_hex() {
    let id = load_identity(&saved(&ED_SECRET.to_uppercase(), X_SECRET)).ok().unwrap();
    assert_eq!(hex_of(&id.ed25519_secret), ED_SECRET);
}

#[test]
fn load_rejects_bad_ed25519_secret() {
    let e = load_identity(&saved("zz", X_SECRET)).err().unwrap();
    assert!(matches!(e, IdentityError::Ed25519NotHex(_)));
    assert_eq!(e.message(), "Invalid character 'z' at position 0");
    let e = load_identity(&saved("abc", X_SECRET)).err().unwrap();
    assert!(matches!(e, IdentityError::Ed25519NotHex(_)));
    assert_eq!(e.message(), "Odd number of digits");
    let e = load_identity(&saved("abcd", "zz")).err().unwrap();
    assert!(matches!(e, IdentityError::Ed25519WrongLength));
    assert_eq!(e.message(), "ed25519 secret must be 32 bytes");
}

#[test]
fn load_rejects_bad_x25519_secret() {
    let e = load_identity(&saved(ED_SECRET, "q1")).err().unwrap();
    assert!(matches!(e, IdentityError::X25519NotHex(_)));
    assert_eq!(e.message(), "Invalid character 'q' at position 0");
    let e = load_identity(&saved(ED_SECRET, "00")).err().unwrap();
    assert!(matches!(e, IdentityError::X25519WrongLength));
    assert_eq!(e.message(), "x25519 secret must be 32 bytes");
}

#[test]
fn save_then_load_gives_identity_back() {
    let id = generate("device-7");
    let s = save_identity(&id);
    assert_eq!(s.device_id, "device-7");
    assert_eq!(s.ed25519_secret_hex, hex_of(&id.ed25519_secret));
    let back = load_identity(&s).ok().unwrap();
    assert_eq!(back.device_id, id.device_id);
    assert_eq!(back.ed25519_secret, id.ed25519_secret);
    assert_eq!(back.ed25519_public, id.ed25519_public);
    assert_eq!(back.x25519_secret, id.x25519_secret);
    assert_eq!(back.x25519_public, id.x25519_public);
}

#[test]
fn identity_from_secrets_matches_dalek() {
    let id = identity_from_secrets("d".to_string(), [3u8; 32], [4u8; 32]);
    let x = x25519_dalek::PublicKey::from(&x25519_dalek::StaticSecret::from([4u8; 32]));
    assert_eq!(id.x25519_public, x.to_bytes());
    let ed = ed25519_dalek::SigningKey::from_bytes(&[3u8; 32]).verifying_key();
    assert_eq!(id.ed25519_public, ed.to_bytes());
}

#[test]
fn generated_identities_differ() {
    let a = generate("same");
    let b = generate("same");
    assert_ne!(a.x25519_secret, b.x25519_secret);
    assert_ne!(a.ed25519_secret, b.ed25519_secret);
}

#[test]
fn fresh_device_id_is_32_lowercase_hex_digits() {
    let id = generate_new();
    assert_eq!(id.device_id.len(), 32);
    assert!(id
        .device_id
        .chars()
        .all(|c| c.is_ascii_digit() || ('a'..='f').contains(&c)));
}

#[test]
fn daemon_certificate_saves_and_loads() {
    let cert = cert::generate("dev").ok().unwrap();
    assert_eq!(cert.cert_der[0], 0x30);
    assert_eq!(cert.key_der[0], 0x30);
    let s = cert::save_identity("dev", &cert);
    let (id, back) = cert::load_identity(&s).ok().unwrap();
    assert_eq!(id, "dev");
    assert_eq!(back.cert_der, cert.cert_der);
    assert_eq!(back.key_der, cert.key_der);
    let bad = cert::SavedIdentity {
        device_id: "d".to_string(),
        cert_der_hex: "0g".to_string(),
        key_der_hex: "00".to_string(),
    };
    assert!(matches!(cert::load_identity(&bad), Err(cert::CertError::CertNotHex(_))));
    let bad_key = cert::SavedIdentity {
        device_id: "d".to_string(),
        cert_der_hex: "00".to_string(),
        key_der_hex: "0".to_string(),
    };
    assert!(matches!(cert::load_identity(&bad_key), Err(cert::CertError::KeyNotHex(_))));
}

fn holds(hay: &[u8], needle: &[u8]) -> bool {
    hay.windows(needle.len()).any(|w| w == needle)
}

#[test]
fn daemon_certificate_names_the_device() {
    let req = cert::certificate_request("dev-42");
    assert_eq!(req.common_name, "dev-42");
    assert!(req.subject_alt_names.is_empty());

    let c = cert::generate("dev").ok().unwrap();
    let mut attr = vec![0x06, 0x03, 0x55, 0x04, 0x03, 0x0c, 0x03];
    attr.extend_from_slice(b"dev");
    assert!(holds(&c.cert_der, &attr));
    assert!(!holds(&c.cert_der, b"other"));

    let long = "a".repeat(200);
    let c = cert::generate(&long).ok().unwrap();
    let mut attr = vec![0x06, 0x03, 0x55, 0x04, 0x03, 0x0c, 0x81, 200];
    attr.extend_from_slice(long.as_bytes());
    assert!(holds(&c.cert_der, &attr));
}
