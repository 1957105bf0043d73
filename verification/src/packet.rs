use vstd::prelude::*;

use crate::json::JsonValue;

verus! {

/// One message of a session: its type, an optional request id, and a
/// JSON body whose shape the type decides.
pub struct Packet {
    pub packet_type: String,
    pub req_id: Option<u32>,
    pub body: JsonValue,
}

impl Packet {
    /// A packet of type `packet_type` with `body` and no request id.
    pub fn new(packet_type: String, body: JsonValue) -> (packet: Self)
        ensures
            packet.packet_type@ == packet_type@,
            packet.req_id is None,
            packet.body == body,
    {
        Packet { packet_type, req_id: None, body }
    }
}

/// A packet of type `packet_type` with the empty object as body and no
/// request id.
pub open spec fn is_bare_packet(packet: Packet, packet_type: Seq<char>) -> bool {
    &&& packet.packet_type@ == packet_type
    &&& packet.req_id is None
    &&& crate::json::is_empty_object(packet.body)
}

} // verus!
