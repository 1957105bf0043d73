use vstd::prelude::*;

use crate::features::ping::{is_ping, is_pong, pong};
use crate::hexcode::hex_chars;
use crate::keyed::{keyed_lookup, keyed_upsert, keys_unique};
use crate::packet::{Packet, is_bare_packet};
use crate::pairing::{fingerprint, spec_fingerprint};
use crate::trust::{
    TrustStore, TrustedDeviceView, add_trusted, is_trusted, lemma_trusted_after_add, trusted_record,
};

verus! {

/// How a session starts once the Noise handshake has authenticated the
/// peer's static key.
pub enum SessionOpening {
    /// The peer was accepted before; the session goes straight on.
    AlreadyTrusted,
    /// The peer is new: the user must compare this pairing code first.
    NeedsConfirmation(String),
}

/// Decides how a session with the peer whose static key is `remote_pub`
/// starts.
pub fn open_session(
    store: &TrustStore,
    my_pub: &[u8; 32],
    remote_pub: &[u8; 32],
) -> (opening: SessionOpening)
    ensures
        keyed_lookup(store@, hex_chars(remote_pub@)) is Some ==> opening is AlreadyTrusted,
        keyed_lookup(store@, hex_chars(remote_pub@)) is None ==> (opening matches
            SessionOpening::NeedsConfirmation(code) && code@ == spec_fingerprint(
            my_pub@,
            remote_pub@,
        )),
{
    if is_trusted(store, remote_pub) {
        SessionOpening::AlreadyTrusted
    } else {
        SessionOpening::NeedsConfirmation(fingerprint(my_pub, remote_pub))
    }
}

/// Carries out the user's answer to a pairing code: an accepted peer is
/// trusted from now on and the session goes on; a rejected one ends it.
pub fn conclude_pairing(
    store: &mut TrustStore,
    accepted: bool,
    remote_pub: &[u8; 32],
    remote_id: &str,
    remote_name: &str,
    remote_type: &str,
) -> (go_on: bool)
    requires
        old(store).wf(),
    ensures
        final(store).wf(),
        go_on == accepted,
        accepted ==> final(store)@ == keyed_upsert(
            old(store)@,
            hex_chars(remote_pub@),
            trusted_record(remote_pub@, remote_id@, remote_name@, remote_type@),
        ),
        !accepted ==> final(store)@ == old(store)@,
{
    if accepted {
        add_trusted(store, remote_pub, remote_id, remote_name, remote_type);
        true
    } else {
        false
    }
}

/// The reply a session sends to a packet it received: a `PONG` to every
/// `PING`, and nothing to anything else (a `PONG` closes a round trip;
/// unknown types are ignored).
pub fn respond_to(packet: &Packet) -> (reply: Option<Packet>)
    ensures
        packet.packet_type@ == "PING"@ ==> (reply matches Some(r) && is_bare_packet(r, "PONG"@)),
        packet.packet_type@ != "PING"@ ==> reply is None,
{
    if is_ping(packet) {
        Some(pong())
    } else if is_pong(packet) {
        None
    } else {
        None
    }
}

/// A peer whose pairing was accepted is trusted the next time it connects:
/// the session that follows skips the pairing code.
pub proof fn lemma_accepted_peer_skips_confirmation(
    store: Seq<(Seq<char>, TrustedDeviceView)>,
    remote_pub: Seq<u8>,
    remote_id: Seq<char>,
    remote_name: Seq<char>,
    remote_type: Seq<char>,
)
    requires
        keys_unique(store),
    ensures
        keyed_lookup(
            keyed_upsert(
                store,
                hex_chars(remote_pub),
                trusted_record(remote_pub, remote_id, remote_name, remote_type),
            ),
            hex_chars(remote_pub),
        ) is Some,
{
    lemma_trusted_after_add(store, remote_pub, remote_id, remote_name, remote_type);
}

} // verus!
