use vstd::prelude::*;
use vstd::utf8::encode_utf8;

use crate::hexcode::{hex_chars, hex_decode, hex_decoded, hex_encode, lemma_hex_roundtrip};

verus! {

#[verifier::external_type_specification]
#[verifier::external_body]
pub struct ExRcgenError(rcgen::Error);

/// What a certificate is made for: its subject's common name and its
/// subject alternative names.
pub struct CertificateRequest {
    pub common_name: String,
    pub subject_alt_names: Vec<String>,
}

/// The big-endian bytes of `n`, as few as hold it.
pub open spec fn be_bytes(n: nat) -> Seq<u8>
    decreases n,
{
    if n < 256 {
        seq![n as u8]
    } else {
        be_bytes(n / 256).push((n % 256) as u8)
    }
}

/// The DER length octets for a content of `n` bytes.
pub open spec fn der_length(n: nat) -> Seq<u8> {
    if n < 128 {
        seq![n as u8]
    } else {
        seq![(0x80 + be_bytes(n).len()) as u8] + be_bytes(n)
    }
}

/// A common-name attribute as DER writes it inside a name: the object
/// identifier 2.5.4.3, then `name` as a UTF8String.
pub open spec fn common_name_attribute(name: Seq<u8>) -> Seq<u8> {
    seq![0x06u8, 0x03u8, 0x55u8, 0x04u8, 0x03u8, 0x0cu8] + der_length(name.len()) + name
}

/// `needle` occurs in `hay` as a run of consecutive bytes.
pub open spec fn contains_bytes(hay: Seq<u8>, needle: Seq<u8>) -> bool {
    exists|i: int|
        0 <= i && i + needle.len() <= hay.len() && #[trigger] hay.subrange(i, i + needle.len())
            == needle
}

/// Calls `rcgen::KeyPair::generate`, `CertificateParams::new` with the
/// request's alternative names, `DistinguishedName::push` of the request's
/// common name, `CertificateParams::self_signed`, `Certificate::der` and
/// `KeyPair::serialize_der`: a fresh self-signed certificate (DER) and its
/// PKCS#8 private key (DER). Trusted: each is a DER SEQUENCE, so its first
/// byte is the SEQUENCE tag (yasna's `write_sequence` begins the
/// certificate; ring's PKCS#8 template begins the key), and the
/// certificate's names hold the common name as a UTF8String attribute
/// (rcgen writes a `String` value that way). The key is random, so nothing
/// more is stated of the bytes.
#[verifier::external_body]
fn self_signed_certificate(req: &CertificateRequest) -> (r: Result<
    (Vec<u8>, Vec<u8>),
    rcgen::Error,
>)
    ensures
        r matches Ok((cert, key)) ==> is_der_sequence(cert@) && is_der_sequence(key@)
            && contains_bytes(cert@, common_name_attribute(encode_utf8(req.common_name@))),
{
    let key_pair = rcgen::KeyPair::generate()?;
    let mut params = rcgen::CertificateParams::new(req.subject_alt_names.clone())?;
    let mut dn = rcgen::DistinguishedName::new();
    dn.push(rcgen::DnType::CommonName, req.common_name.clone());
    params.distinguished_name = dn;
    let cert = params.self_signed(&key_pair)?;
    Ok((cert.der().to_vec(), key_pair.serialize_der()))
}

/// DER bytes that start with the tag of a SEQUENCE, as every certificate
/// and PKCS#8 key does.
pub open spec fn is_der_sequence(der: Seq<u8>) -> bool {
    der.len() > 0 && der[0] == 0x30u8
}

/// What the daemon's certificate is made for: the device id as its common
/// name, and no alternative names.
pub fn certificate_request(device_id: &str) -> (req: CertificateRequest)
    ensures
        req.common_name@ == device_id@,
        req.subject_alt_names@.len() == 0,
{
    CertificateRequest { common_name: device_id.to_owned(), subject_alt_names: Vec::new() }
}

/// The daemon's TLS identity: a certificate and its private key, both DER.
pub struct DeviceCert {
    pub cert_der: Vec<u8>,
    pub key_der: Vec<u8>,
}

/// What is written to disk for a certificate identity.
pub struct SavedIdentity {
    pub device_id: String,
    pub cert_der_hex: String,
    pub key_der_hex: String,
}

/// Why a certificate identity could not be made or read back.
pub enum CertError {
    /// The certificate text is not hexadecimal; the decoder's error.
    CertNotHex(::hex::FromHexError),
    /// The key text is not hexadecimal; the decoder's error.
    KeyNotHex(::hex::FromHexError),
    /// The certificate could not be generated.
    Generate(rcgen::Error),
}

/// A fresh self-signed certificate whose common name is `device_id`.
pub fn generate(device_id: &str) -> (cert: Result<DeviceCert, CertError>)
    ensures
        cert matches Err(e) ==> e is Generate,
        cert matches Ok(c) ==> is_der_sequence(c.cert_der@) && is_der_sequence(c.key_der@),
        cert matches Ok(c) ==> contains_bytes(
            c.cert_der@,
            common_name_attribute(encode_utf8(device_id@)),
        ),
{
    let req = certificate_request(device_id);
    match self_signed_certificate(&req) {
        Ok((cert_der, key_der)) => Ok(DeviceCert { cert_der, key_der }),
        Err(e) => Err(CertError::Generate(e)),
    }
}

/// What is written to disk for a certificate identity.
pub fn save_identity(device_id: &str, cert: &DeviceCert) -> (saved: SavedIdentity)
    ensures
        saved.device_id@ == device_id@,
        saved.cert_der_hex@ == hex_chars(cert.cert_der@),
        saved.key_der_hex@ == hex_chars(cert.key_der@),
{
    SavedIdentity {
        device_id: device_id.to_owned(),
        cert_der_hex: hex_encode(cert.cert_der.as_slice()),
        key_der_hex: hex_encode(cert.key_der.as_slice()),
    }
}

/// Reads a certificate identity back: the device id and the decoded
/// certificate and key; the certificate is decoded first.
pub fn load_identity(saved: &SavedIdentity) -> (loaded: Result<(String, DeviceCert), CertError>)
    ensures
        match (hex_decoded(saved.cert_der_hex@), hex_decoded(saved.key_der_hex@)) {
            (None, _) => loaded matches Err(CertError::CertNotHex(_)),
            (Some(_), None) => loaded matches Err(CertError::KeyNotHex(_)),
            (Some(c), Some(k)) => loaded matches Ok((id, cert)) && id@ == saved.device_id@
                && cert.cert_der@ == c && cert.key_der@ == k,
        },
{
    let cert_der = match hex_decode(saved.cert_der_hex.as_str()) {
        Ok(b) => b,
        Err(e) => {
            return Err(CertError::CertNotHex(e));
        },
    };
    let key_der = match hex_decode(saved.key_der_hex.as_str()) {
        Ok(b) => b,
        Err(e) => {
            return Err(CertError::KeyNotHex(e));
        },
    };
    Ok((saved.device_id.clone(), DeviceCert { cert_der, key_der }))
}

/// Reading back what was saved gives the same certificate and key.
pub proof fn lemma_cert_roundtrip(cert_der: Seq<u8>, key_der: Seq<u8>)
    ensures
        hex_decoded(hex_chars(cert_der)) == Some(cert_der),
        hex_decoded(hex_chars(key_der)) == Some(key_der),
{
    lemma_hex_roundtrip(cert_der);
    lemma_hex_roundtrip(key_der);
}

} // verus!
