use vstd::prelude::*;

use crate::json::empty_object;
use crate::packet::{Packet, is_bare_packet};
use crate::text::str_eq;

verus! {

/// A `PING` packet with an empty body.
pub fn ping() -> (packet: Packet)
    ensures
        is_bare_packet(packet, "PING"@),
{
    Packet::new("PING".to_owned(), empty_object())
}

/// A `PONG` packet with an empty body.
pub fn pong() -> (packet: Packet)
    ensures
        is_bare_packet(packet, "PONG"@),
{
    Packet::new("PONG".to_owned(), empty_object())
}

/// Whether the packet is a `PING`.
pub fn is_ping(packet: &Packet) -> (b: bool)
    ensures
        b == (packet.packet_type@ == "PING"@),
{
    str_eq(packet.packet_type.as_str(), "PING")
}

/// Whether the packet is a `PONG`.
pub fn is_pong(packet: &Packet) -> (b: bool)
    ensures
        b == (packet.packet_type@ == "PONG"@),
{
    str_eq(packet.packet_type.as_str(), "PONG")
}

} // verus!
