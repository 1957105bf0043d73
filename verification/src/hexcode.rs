use vstd::prelude::*;

verus! {

/// The lowercase hexadecimal digit for a value below 16.
pub open spec fn hex_digit(n: nat) -> char
    recommends
        n < 16,
{
    if n < 10 {
        (48 + n) as char
    } else {
        (87 + n) as char
    }
}

/// Bytes written as lowercase hexadecimal, two digits per byte, high
/// nibble first.
pub open spec fn hex_chars(bytes: Seq<u8>) -> Seq<char> {
    Seq::new(
        2 * bytes.len(),
        |k: int|
            hex_digit(
                if k % 2 == 0 {
                    (bytes[k / 2] / 16) as nat
                } else {
                    (bytes[k / 2] % 16) as nat
                },
            ),
    )
}

/// The value of a hexadecimal digit of either case.
pub open spec fn hex_value(c: char) -> Option<nat> {
    if '0' <= c && c <= '9' {
        Some((c as nat - 48) as nat)
    } else if 'a' <= c && c <= 'f' {
        Some((c as nat - 87) as nat)
    } else if 'A' <= c && c <= 'F' {
        Some((c as nat - 55) as nat)
    } else {
        None
    }
}

/// The bytes a hexadecimal text spells, if it is an even number of
/// hexadecimal digits (either case, mixed allowed).
pub open spec fn hex_decoded(s: Seq<char>) -> Option<Seq<u8>> {
    if s.len() % 2 == 0 && forall|i: int| 0 <= i < s.len() ==> #[trigger] hex_value(s[i]) is Some {
        Some(
            Seq::new(
                s.len() / 2,
                |i: int| (hex_value(s[2 * i])->0 * 16 + hex_value(s[2 * i + 1])->0) as u8,
            ),
        )
    } else {
        None
    }
}

#[verifier::external_type_specification]
#[verifier::external_body]
pub struct ExFromHexError(::hex::FromHexError);

/// Calls `hex::encode`. Trusted: the result is the bytes in lowercase
/// hexadecimal, two digits per byte, high nibble first.
#[verifier::external_body]
pub(crate) fn hex_encode(bytes: &[u8]) -> (s: String)
    ensures
        s@ == hex_chars(bytes@),
{
    ::hex::encode(bytes)
}

/// Calls `hex::decode`. Trusted: it succeeds exactly when the text is an
/// even number of hexadecimal digits of either case, and then returns the
/// bytes they spell. Which error it returns otherwise is not stated.
#[verifier::external_body]
pub(crate) fn hex_decode(s: &str) -> (r: Result<Vec<u8>, ::hex::FromHexError>)
    ensures
        (r is Ok) == (hex_decoded(s@) is Some),
        r matches Ok(v) ==> hex_decoded(s@) == Some(v@),
{
    ::hex::decode(s)
}

proof fn lemma_hex_digit_value(n: nat)
    requires
        n < 16,
    ensures
        hex_value(hex_digit(n)) == Some(n),
{
}

/// Decoding what was encoded gives back the bytes.
pub proof fn lemma_hex_roundtrip(bytes: Seq<u8>)
    ensures
        hex_decoded(hex_chars(bytes)) == Some(bytes),
{
    let s = hex_chars(bytes);
    assert forall|i: int| 0 <= i < s.len() implies #[trigger] hex_value(s[i]) is Some by {
        if i % 2 == 0 {
            lemma_hex_digit_value((bytes[i / 2] / 16) as nat);
        } else {
            lemma_hex_digit_value((bytes[i / 2] % 16) as nat);
        }
    }
    assert(s.len() / 2 == bytes.len());
    let d = hex_decoded(s)->0;
    assert forall|i: int| 0 <= i < bytes.len() implies #[trigger] d[i] == bytes[i] by {
        lemma_hex_digit_value((bytes[i] / 16) as nat);
        lemma_hex_digit_value((bytes[i] % 16) as nat);
        assert((2 * i) % 2 == 0);
        assert((2 * i + 1) % 2 == 1);
        assert((2 * i) / 2 == i);
        assert((2 * i + 1) / 2 == i);
    }
    assert(d =~= bytes);
}

/// Different bytes are written as different hexadecimal texts.
pub proof fn lemma_hex_injective(a: Seq<u8>, b: Seq<u8>)
    requires
        hex_chars(a) == hex_chars(b),
    ensures
        a == b,
{
    lemma_hex_roundtrip(a);
    lemma_hex_roundtrip(b);
}

} // verus!
