use vstd::prelude::*;

use crate::hexcode::{hex_chars, hex_decode, hex_decoded, hex_encode, lemma_hex_roundtrip};

verus! {

/// The Ed25519 public key of a 32-byte secret key.
pub uninterp spec fn ed25519_public_key(secret: Seq<u8>) -> Seq<u8>;

/// The X25519 public key of a 32-byte static secret.
pub uninterp spec fn x25519_public_key(secret: Seq<u8>) -> Seq<u8>;

/// Calls `ed25519_dalek::SigningKey::from_bytes`, then `verifying_key`
/// and `VerifyingKey::to_bytes`. Trusted: the 32 bytes returned depend on
/// `secret` alone; they are named `ed25519_public_key(secret)`.
#[verifier::external_body]
fn ed25519_public_from_secret(secret: &[u8; 32]) -> (public: [u8; 32])
    ensures
        public@ == ed25519_public_key(secret@),
{
    ed25519_dalek::SigningKey::from_bytes(secret).verifying_key().to_bytes()
}

/// Calls `x25519_dalek::StaticSecret::from`, `PublicKey::from` and
/// `PublicKey::to_bytes`. Trusted: the 32 bytes returned depend on `secret`
/// alone; they are named `x25519_public_key(secret)`.
#[verifier::external_body]
fn x25519_public_from_secret(secret: &[u8; 32]) -> (public: [u8; 32])
    ensures
        public@ == x25519_public_key(secret@),
{
    x25519_dalek::PublicKey::from(&x25519_dalek::StaticSecret::from(*secret)).to_bytes()
}

/// Calls `rand::RngCore::fill_bytes` on `rand::rngs::OsRng`: 32 bytes from
/// the operating system's random source. Nothing is stated of them.
#[verifier::external_body]
fn os_random_bytes() -> (bytes: [u8; 32]) {
    let mut bytes = [0u8; 32];
    rand::RngCore::fill_bytes(&mut rand::rngs::OsRng, &mut bytes);
    bytes
}

/// Calls `x25519_dalek::StaticSecret::random_from_rng` with
/// `rand::rngs::OsRng` and `StaticSecret::to_bytes`: a fresh random static
/// secret. Nothing is stated of its bytes.
#[verifier::external_body]
fn x25519_random_secret() -> (secret: [u8; 32]) {
    x25519_dalek::StaticSecret::random_from_rng(rand::rngs::OsRng).to_bytes()
}

/// Calls `uuid::Uuid::new_v4`, `Uuid::simple` and `to_string`. Trusted:
/// the id is the sixteen bytes of a random UUID in lowercase hexadecimal
/// (the "simple" format: 32 digits, no hyphens).
#[verifier::external_body]
fn new_uuid_simple() -> (id: String)
    ensures
        spells_bytes(id@, 16),
{
    uuid::Uuid::new_v4().simple().to_string()
}

/// `text` is `n` bytes written in lowercase hexadecimal.
pub open spec fn spells_bytes(text: Seq<char>, n: nat) -> bool {
    exists|b: Seq<u8>| b.len() == n && #[trigger] hex_chars(b) == text
}

/// This device's long-term identity: its id and its two key pairs.
pub struct DeviceIdentity {
    pub device_id: String,
    pub ed25519_secret: [u8; 32],
    pub ed25519_public: [u8; 32],
    pub x25519_secret: [u8; 32],
    pub x25519_public: [u8; 32],
}

impl DeviceIdentity {
    /// Each public key is the one its secret key yields.
    pub open spec fn wf(&self) -> bool {
        &&& self.ed25519_public@ == ed25519_public_key(self.ed25519_secret@)
        &&& self.x25519_public@ == x25519_public_key(self.x25519_secret@)
    }
}

/// What is written to disk for an identity: the id and both secret keys
/// in hexadecimal.
pub struct SavedIdentity {
    pub device_id: String,
    pub ed25519_secret_hex: String,
    pub x25519_secret_hex: String,
}

/// Why a saved identity could not be read back. A secret that is not
/// hexadecimal text carries the decoder's own error.
pub enum IdentityError {
    /// The Ed25519 secret is not hexadecimal text.
    Ed25519NotHex(::hex::FromHexError),
    /// The Ed25519 secret does not decode to 32 bytes.
    Ed25519WrongLength,
    /// The X25519 secret is not hexadecimal text.
    X25519NotHex(::hex::FromHexError),
    /// The X25519 secret does not decode to 32 bytes.
    X25519WrongLength,
}

/// Which check a saved identity failed.
pub enum IdentityFault {
    Ed25519NotHex,
    Ed25519WrongLength,
    X25519NotHex,
    X25519WrongLength,
}

/// Calls `Display::to_string` on a `hex::FromHexError`. Nothing is stated
/// of the text.
#[verifier::external_body]
fn hex_error_text(e: &::hex::FromHexError) -> (text: String) {
    e.to_string()
}

impl IdentityError {
    /// Which check failed.
    pub open spec fn fault(&self) -> IdentityFault {
        match self {
            IdentityError::Ed25519NotHex(_) => IdentityFault::Ed25519NotHex,
            IdentityError::Ed25519WrongLength => IdentityFault::Ed25519WrongLength,
            IdentityError::X25519NotHex(_) => IdentityFault::X25519NotHex,
            IdentityError::X25519WrongLength => IdentityFault::X25519WrongLength,
        }
    }

    /// The text the error is shown with: the decoder's own text for a
    /// secret that is not hexadecimal.
    pub fn message(&self) -> (text: String)
        ensures
            self is Ed25519WrongLength ==> text@ == "ed25519 secret must be 32 bytes"@,
            self is X25519WrongLength ==> text@ == "x25519 secret must be 32 bytes"@,
    {
        match self {
            IdentityError::Ed25519NotHex(e) => hex_error_text(e),
            IdentityError::Ed25519WrongLength => "ed25519 secret must be 32 bytes".to_owned(),
            IdentityError::X25519NotHex(e) => hex_error_text(e),
            IdentityError::X25519WrongLength => "x25519 secret must be 32 bytes".to_owned(),
        }
    }
}

/// The plain contents of an identity: id and the four keys.
pub struct IdentityView {
    pub device_id: Seq<char>,
    pub ed25519_secret: Seq<u8>,
    pub ed25519_public: Seq<u8>,
    pub x25519_secret: Seq<u8>,
    pub x25519_public: Seq<u8>,
}

impl View for DeviceIdentity {
    type V = IdentityView;

    open spec fn view(&self) -> IdentityView {
        IdentityView {
            device_id: self.device_id@,
            ed25519_secret: self.ed25519_secret@,
            ed25519_public: self.ed25519_public@,
            x25519_secret: self.x25519_secret@,
            x25519_public: self.x25519_public@,
        }
    }
}

/// The identity with this id and these two secret keys.
pub open spec fn identity_of(
    device_id: Seq<char>,
    ed25519_secret: Seq<u8>,
    x25519_secret: Seq<u8>,
) -> IdentityView {
    IdentityView {
        device_id,
        ed25519_secret,
        ed25519_public: ed25519_public_key(ed25519_secret),
        x25519_secret,
        x25519_public: x25519_public_key(x25519_secret),
    }
}

/// What reading back a saved identity gives: the Ed25519 secret is
/// checked first, then the X25519 secret.
pub open spec fn spec_load_identity(
    device_id: Seq<char>,
    ed25519_hex: Seq<char>,
    x25519_hex: Seq<char>,
) -> Result<IdentityView, IdentityFault> {
    match hex_decoded(ed25519_hex) {
        None => Err(IdentityFault::Ed25519NotHex),
        Some(ed) => if ed.len() != 32 {
            Err(IdentityFault::Ed25519WrongLength)
        } else {
            match hex_decoded(x25519_hex) {
                None => Err(IdentityFault::X25519NotHex),
                Some(x) => if x.len() != 32 {
                    Err(IdentityFault::X25519WrongLength)
                } else {
                    Ok(identity_of(device_id, ed, x))
                },
            }
        },
    }
}

fn bytes32_from_vec(v: &Vec<u8>) -> (a: [u8; 32])
    requires
        v@.len() == 32,
    ensures
        a@ == v@,
{
    let mut a = [0u8; 32];
    let mut i: usize = 0;
    while i < 32
        invariant
            0 <= i <= 32,
            v@.len() == 32,
            a@.len() == 32,
            forall|j: int| 0 <= j < i ==> a@[j] == v@[j],
        decreases 32 - i,
    {
        a[i] = v[i];
        i = i + 1;
    }
    assert(a@ =~= v@);
    a
}

enum SecretError {
    NotHex(::hex::FromHexError),
    WrongLength,
}

fn decode_secret(hex: &str) -> (r: Result<[u8; 32], SecretError>)
    ensures
        match hex_decoded(hex@) {
            None => r matches Err(SecretError::NotHex(_)),
            Some(b) => if b.len() != 32 {
                r matches Err(SecretError::WrongLength)
            } else {
                r matches Ok(a) && a@ == b
            },
        },
{
    match hex_decode(hex) {
        Err(e) => Err(SecretError::NotHex(e)),
        Ok(bytes) => {
            if bytes.len() != 32 {
                Err(SecretError::WrongLength)
            } else {
                Ok(bytes32_from_vec(&bytes))
            }
        },
    }
}

/// The identity with this id and these secret keys; the public keys are
/// derived from the secrets.
pub fn identity_from_secrets(
    device_id: String,
    ed25519_secret: [u8; 32],
    x25519_secret: [u8; 32],
) -> (identity: DeviceIdentity)
    ensures
        identity.wf(),
        identity@ == identity_of(device_id@, ed25519_secret@, x25519_secret@),
{
    let ed25519_public = ed25519_public_from_secret(&ed25519_secret);
    let x25519_public = x25519_public_from_secret(&x25519_secret);
    DeviceIdentity { device_id, ed25519_secret, ed25519_public, x25519_secret, x25519_public }
}

/// Reads back an identity from what was saved of it.
pub fn load_identity(saved: &SavedIdentity) -> (identity: Result<DeviceIdentity, IdentityError>)
    ensures
        match identity {
            Ok(id) => id.wf() && spec_load_identity(
                saved.device_id@,
                saved.ed25519_secret_hex@,
                saved.x25519_secret_hex@,
            ) == Ok::<IdentityView, IdentityFault>(id@),
            Err(e) => spec_load_identity(
                saved.device_id@,
                saved.ed25519_secret_hex@,
                saved.x25519_secret_hex@,
            ) == Err::<IdentityView, IdentityFault>(e.fault()),
        },
{
    let ed = match decode_secret(saved.ed25519_secret_hex.as_str()) {
        Ok(a) => a,
        Err(SecretError::NotHex(e)) => {
            return Err(IdentityError::Ed25519NotHex(e));
        },
        Err(SecretError::WrongLength) => {
            return Err(IdentityError::Ed25519WrongLength);
        },
    };
    let x = match decode_secret(saved.x25519_secret_hex.as_str()) {
        Ok(a) => a,
        Err(SecretError::NotHex(e)) => {
            return Err(IdentityError::X25519NotHex(e));
        },
        Err(SecretError::WrongLength) => {
            return Err(IdentityError::X25519WrongLength);
        },
    };
    Ok(identity_from_secrets(saved.device_id.clone(), ed, x))
}

/// What is written to disk for `identity`.
pub fn save_identity(identity: &DeviceIdentity) -> (saved: SavedIdentity)
    ensures
        saved.device_id@ == identity.device_id@,
        saved.ed25519_secret_hex@ == hex_chars(identity.ed25519_secret@),
        saved.x25519_secret_hex@ == hex_chars(identity.x25519_secret@),
{
    SavedIdentity {
        device_id: identity.device_id.clone(),
        ed25519_secret_hex: hex_encode(&identity.ed25519_secret),
        x25519_secret_hex: hex_encode(&identity.x25519_secret),
    }
}

/// A new identity for `device_id`, with fresh random secret keys.
pub fn generate(device_id: &str) -> (identity: DeviceIdentity)
    ensures
        identity.wf(),
        identity.device_id@ == device_id@,
{
    let ed25519_secret = os_random_bytes();
    let x25519_secret = x25519_random_secret();
    identity_from_secrets(device_id.to_owned(), ed25519_secret, x25519_secret)
}

/// A fresh random device id: the 32 lowercase hexadecimal digits of a
/// random UUID.
pub fn new_device_id() -> (id: String)
    ensures
        spells_bytes(id@, 16),
{
    new_uuid_simple()
}

/// A new identity under a fresh random device id.
pub fn generate_new() -> (identity: DeviceIdentity)
    ensures
        identity.wf(),
        spells_bytes(identity.device_id@, 16),
{
    let device_id = new_device_id();
    generate(device_id.as_str())
}

/// Reading back what was saved of an identity gives the identity again:
/// a device keeps its id and keys across restarts.
pub proof fn lemma_identity_roundtrip(identity: DeviceIdentity)
    requires
        identity.wf(),
    ensures
        spec_load_identity(
            identity.device_id@,
            hex_chars(identity.ed25519_secret@),
            hex_chars(identity.x25519_secret@),
        ) == Ok::<IdentityView, IdentityFault>(identity@),
{
    lemma_hex_roundtrip(identity.ed25519_secret@);
    lemma_hex_roundtrip(identity.x25519_secret@);
}

} // verus!
