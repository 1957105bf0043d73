use vstd::prelude::*;

use crate::json::{
    JsonValue, as_bool, as_i64, empty_object, get, keys_distinct, lemma_member_by_key,
    member_from, spec_as_bool, spec_as_i64, spec_get,
};
use crate::packet::{Packet, is_bare_packet};
use crate::text::str_eq;

verus! {

/// Whether a UPower battery state counts as charging: every state but
/// 2 (discharging) and 6 (pending discharge) does.
pub open spec fn spec_state_is_charging(state: u32) -> bool {
    !(state == 2 || state == 6)
}

/// Whether a UPower battery state counts as charging.
pub fn state_is_charging(state: u32) -> (charging: bool)
    ensures
        charging == spec_state_is_charging(state),
{
    !(state == 2 || state == 6)
}

/// The body `{"level": level, "charging": charging}`.
pub open spec fn is_level_body(body: JsonValue, level: i64, charging: bool) -> bool {
    body matches JsonValue::Object(entries) && entries@.len() == 2 && entries@[0].0@ == "level"@
        && entries@[0].1 == JsonValue::Int(level) && entries@[1].0@ == "charging"@ && entries@[1].1
        == JsonValue::Bool(charging)
}

/// The body `{"level": null, "charging": null, "error": "no_battery"}`.
pub open spec fn is_no_battery_body(body: JsonValue) -> bool {
    match body {
        JsonValue::Object(entries) => {
            &&& entries@.len() == 3
            &&& entries@[0].0@ == "level"@
            &&& entries@[0].1 == JsonValue::Null
            &&& entries@[1].0@ == "charging"@
            &&& entries@[1].1 == JsonValue::Null
            &&& entries@[2].0@ == "error"@
            &&& match entries@[2].1 {
                JsonValue::Str(e) => e@ == "no_battery"@,
                _ => false,
            }
        },
        _ => false,
    }
}

fn level_body(level: i64, charging: bool) -> (body: JsonValue)
    ensures
        is_level_body(body, level, charging),
{
    let mut entries: Vec<(String, JsonValue)> = Vec::new();
    entries.push(("level".to_owned(), JsonValue::Int(level)));
    entries.push(("charging".to_owned(), JsonValue::Bool(charging)));
    JsonValue::Object(entries)
}

/// The body that answers a battery request: the level and charging state
/// when the battery could be read, and a `no_battery` error otherwise.
pub fn handle_request_body(reading: Option<(i64, bool)>) -> (body: JsonValue)
    ensures
        match reading {
            Some((level, charging)) => is_level_body(body, level, charging),
            None => is_no_battery_body(body),
        },
{
    match reading {
        Some((level, charging)) => level_body(level, charging),
        None => {
            let mut entries: Vec<(String, JsonValue)> = Vec::new();
            entries.push(("level".to_owned(), JsonValue::Null));
            entries.push(("charging".to_owned(), JsonValue::Null));
            entries.push(("error".to_owned(), JsonValue::Str("no_battery".to_owned())));
            JsonValue::Object(entries)
        },
    }
}

/// A `BATTERY_REQUEST` packet with an empty body.
pub fn request() -> (packet: Packet)
    ensures
        is_bare_packet(packet, "BATTERY_REQUEST"@),
{
    Packet::new("BATTERY_REQUEST".to_owned(), empty_object())
}

/// A `BATTERY_RESPONSE` packet carrying `body`.
pub fn response(body: JsonValue) -> (packet: Packet)
    ensures
        packet.packet_type@ == "BATTERY_RESPONSE"@,
        packet.req_id is None,
        packet.body == body,
{
    Packet::new("BATTERY_RESPONSE".to_owned(), body)
}

/// Whether the packet is a `BATTERY_REQUEST`.
pub fn is_request(packet: &Packet) -> (b: bool)
    ensures
        b == (packet.packet_type@ == "BATTERY_REQUEST"@),
{
    str_eq(packet.packet_type.as_str(), "BATTERY_REQUEST")
}

/// Whether the packet is a `BATTERY_RESPONSE`.
pub fn is_response(packet: &Packet) -> (b: bool)
    ensures
        b == (packet.packet_type@ == "BATTERY_RESPONSE"@),
{
    str_eq(packet.packet_type.as_str(), "BATTERY_RESPONSE")
}

/// Whether the packet is a `BATTERY_CHANGED`.
pub fn is_changed(packet: &Packet) -> (b: bool)
    ensures
        b == (packet.packet_type@ == "BATTERY_CHANGED"@),
{
    str_eq(packet.packet_type.as_str(), "BATTERY_CHANGED")
}

/// What a battery packet reports.
pub enum BatteryReport {
    /// A level, and whether the battery charges (false when not said).
    Level { level: i64, charging: bool },
    /// No level: the peer has no battery it can read.
    NoBattery,
}

/// What a battery body reports: its `level` when that is an integer,
/// with `charging` when that is a boolean and false otherwise.
pub open spec fn spec_report(body: JsonValue) -> BatteryReport {
    let level = match spec_get(body, "level"@) {
        Some(v) => spec_as_i64(v),
        None => None,
    };
    let charging = match spec_get(body, "charging"@) {
        Some(v) => spec_as_bool(v),
        None => None,
    };
    match level {
        Some(l) => BatteryReport::Level {
            level: l,
            charging: match charging {
                Some(c) => c,
                None => false,
            },
        },
        None => BatteryReport::NoBattery,
    }
}

/// Some member of `entries` is `"charging": true`.
pub open spec fn says_charging(entries: Seq<(String, JsonValue)>) -> bool {
    exists|j: int|
        0 <= j < entries.len() && (#[trigger] entries[j]).0@ == "charging"@ && entries[j].1
            == JsonValue::Bool(true)
}

/// What a battery body reports is read off its members by name, wherever
/// they stand: without a `level` member there is no level; with one, its
/// integer value is the level (none when it is not an integer), and the
/// battery charges exactly when a `charging` member is `true`.
pub proof fn lemma_report_reads_members(entries: Vec<(String, JsonValue)>)
    requires
        keys_distinct(entries@),
    ensures
        (forall|k: int| 0 <= k < entries@.len() ==> (#[trigger] entries@[k]).0@ != "level"@)
            ==> spec_report(JsonValue::Object(entries)) == BatteryReport::NoBattery,
        forall|k: int|
            0 <= k < entries@.len() && (#[trigger] entries@[k]).0@ == "level"@ ==> spec_report(
                JsonValue::Object(entries),
            ) == match spec_as_i64(entries@[k].1) {
                Some(l) => BatteryReport::Level { level: l, charging: says_charging(entries@) },
                None => BatteryReport::NoBattery,
            },
{
    let e = entries@;
    lemma_member_by_key(e, "level"@);
    lemma_member_by_key(e, "charging"@);
    let charging = match spec_get(JsonValue::Object(entries), "charging"@) {
        Some(v) => spec_as_bool(v),
        None => None,
    };
    let c = match charging {
        Some(b) => b,
        None => false,
    };
    assert(c == says_charging(e)) by {
        if says_charging(e) {
            let j = choose|j: int|
                0 <= j < e.len() && (#[trigger] e[j]).0@ == "charging"@ && e[j].1 == JsonValue::Bool(
                    true,
                );
            assert(member_from(e, "charging"@, 0) == Some(e[j].1));
        }
        if c {
            let v = member_from(e, "charging"@, 0)->0;
            if forall|k: int| 0 <= k < e.len() ==> (#[trigger] e[k]).0@ != "charging"@ {
            } else {
                let k = choose|k: int| 0 <= k < e.len() && (#[trigger] e[k]).0@ == "charging"@;
                assert(member_from(e, "charging"@, 0) == Some(e[k].1));
                assert(e[k].1 == JsonValue::Bool(true));
            }
        }
    }
}

/// The order of a body's members does not change what it reports: two
/// bodies with the same members (each key once) report the same.
pub proof fn lemma_report_ignores_member_order(
    a: Vec<(String, JsonValue)>,
    b: Vec<(String, JsonValue)>,
)
    requires
        keys_distinct(a@),
        keys_distinct(b@),
        forall|k: int|
            0 <= k < a@.len() ==> exists|j: int|
                0 <= j < b@.len() && (#[trigger] b@[j]).0@ == (#[trigger] a@[k]).0@ && b@[j].1
                    == a@[k].1,
        forall|j: int|
            0 <= j < b@.len() ==> exists|k: int|
                0 <= k < a@.len() && (#[trigger] a@[k]).0@ == (#[trigger] b@[j]).0@ && a@[k].1
                    == b@[j].1,
    ensures
        spec_report(JsonValue::Object(a)) == spec_report(JsonValue::Object(b)),
{
    lemma_report_reads_members(a);
    lemma_report_reads_members(b);
    assert(says_charging(a@) == says_charging(b@)) by {
        if says_charging(a@) {
            let k = choose|k: int|
                0 <= k < a@.len() && (#[trigger] a@[k]).0@ == "charging"@ && a@[k].1
                    == JsonValue::Bool(true);
            let j = choose|j: int|
                0 <= j < b@.len() && (#[trigger] b@[j]).0@ == a@[k].0@ && b@[j].1 == a@[k].1;
            assert(b@[j].0@ == "charging"@);
        }
        if says_charging(b@) {
            let j = choose|j: int|
                0 <= j < b@.len() && (#[trigger] b@[j]).0@ == "charging"@ && b@[j].1
                    == JsonValue::Bool(true);
            let k = choose|k: int|
                0 <= k < a@.len() && (#[trigger] a@[k]).0@ == b@[j].0@ && a@[k].1 == b@[j].1;
            assert(a@[k].0@ == "charging"@);
        }
    }
    if exists|k: int| 0 <= k < a@.len() && (#[trigger] a@[k]).0@ == "level"@ {
        let k = choose|k: int| 0 <= k < a@.len() && (#[trigger] a@[k]).0@ == "level"@;
        let j = choose|j: int|
            0 <= j < b@.len() && (#[trigger] b@[j]).0@ == a@[k].0@ && b@[j].1 == a@[k].1;
        assert(b@[j].0@ == "level"@);
    } else if exists|j: int| 0 <= j < b@.len() && (#[trigger] b@[j]).0@ == "level"@ {
        let j = choose|j: int| 0 <= j < b@.len() && (#[trigger] b@[j]).0@ == "level"@;
        let k = choose|k: int|
            0 <= k < a@.len() && (#[trigger] a@[k]).0@ == b@[j].0@ && a@[k].1 == b@[j].1;
        assert(a@[k].0@ == "level"@);
    }
}

/// Reads what a battery response or change packet reports.
pub fn handle_response(packet: &Packet) -> (report: BatteryReport)
    ensures
        report == spec_report(packet.body),
{
    let level = match get(&packet.body, "level") {
        Some(v) => as_i64(v),
        None => None,
    };
    let charging = match get(&packet.body, "charging") {
        Some(v) => as_bool(v),
        None => None,
    };
    match level {
        Some(l) => BatteryReport::Level {
            level: l,
            charging: match charging {
                Some(c) => c,
                None => false,
            },
        },
        None => BatteryReport::NoBattery,
    }
}

/// A `BATTERY_CHANGED` packet once both the level and the charging state
/// are known; nothing before.
pub fn broadcast_if_ready(level: Option<i64>, charging: Option<bool>) -> (packet: Option<Packet>)
    ensures
        match (level, charging) {
            (Some(l), Some(c)) => packet matches Some(p) && p.packet_type@ == "BATTERY_CHANGED"@
                && p.req_id is None && is_level_body(p.body, l, c),
            _ => packet is None,
        },
{
    match (level, charging) {
        (Some(l), Some(c)) => Some(Packet::new("BATTERY_CHANGED".to_owned(), level_body(l, c))),
        _ => None,
    }
}

/// The last battery level and charging state seen, each unknown until
/// first read.
pub struct BatteryWatch {
    pub last_level: Option<i64>,
    pub last_charging: Option<bool>,
}

impl BatteryWatch {
    /// The state after the first readings, which may each have failed.
    pub fn new(level: Option<i64>, state: Option<u32>) -> (watch: Self)
        ensures
            watch.last_level == level,
            watch.last_charging == match state {
                Some(s) => Some(spec_state_is_charging(s)),
                None => None,
            },
    {
        let last_charging = match state {
            Some(s) => Some(state_is_charging(s)),
            None => None,
        };
        BatteryWatch { last_level: level, last_charging }
    }

    /// A new level was read: it is remembered, and a `BATTERY_CHANGED`
    /// packet is due once the charging state is known too.
    pub fn on_level(&mut self, level: i64) -> (packet: Option<Packet>)
        ensures
            final(self).last_level == Some(level),
            final(self).last_charging == old(self).last_charging,
            match old(self).last_charging {
                Some(c) => packet matches Some(p) && p.packet_type@ == "BATTERY_CHANGED"@
                    && p.req_id is None && is_level_body(p.body, level, c),
                None => packet is None,
            },
    {
        self.last_level = Some(level);
        broadcast_if_ready(self.last_level, self.last_charging)
    }

    /// A new UPower state was read: whether it charges is remembered, and
    /// a `BATTERY_CHANGED` packet is due once the level is known too.
    pub fn on_state(&mut self, state: u32) -> (packet: Option<Packet>)
        ensures
            final(self).last_level == old(self).last_level,
            final(self).last_charging == Some(spec_state_is_charging(state)),
            match old(self).last_level {
                Some(l) => packet matches Some(p) && p.packet_type@ == "BATTERY_CHANGED"@
                    && p.req_id is None && is_level_body(p.body, l, spec_state_is_charging(state)),
                None => packet is None,
            },
    {
        self.last_charging = Some(state_is_charging(state));
        broadcast_if_ready(self.last_level, self.last_charging)
    }
}

/// What a peer reads from a change this device broadcast is the level and
/// charging state it was broadcast with.
pub proof fn lemma_report_of_level_body(body: JsonValue, level: i64, charging: bool)
    requires
        is_level_body(body, level, charging),
    ensures
        spec_report(body) == (BatteryReport::Level { level, charging }),
{
    if let JsonValue::Object(entries) = body {
        assert(crate::json::member_from(entries@, "level"@, 0) == Some(JsonValue::Int(level)));
        reveal_strlit("charging");
        reveal_strlit("level");
        assert("charging"@.len() != "level"@.len());
        assert(crate::json::member_from(entries@, "charging"@, 0) == crate::json::member_from(
            entries@,
            "charging"@,
            1,
        ));
        assert(crate::json::member_from(entries@, "charging"@, 1) == Some(
            JsonValue::Bool(charging),
        ));
    }
}

/// A peer that reports having no battery is read as having none.
pub proof fn lemma_report_of_no_battery_body(body: JsonValue)
    requires
        is_no_battery_body(body),
    ensures
        spec_report(body) == BatteryReport::NoBattery,
{
    if let JsonValue::Object(entries) = body {
        assert(crate::json::member_from(entries@, "level"@, 0) == Some(JsonValue::Null));
    }
}

} // verus!
