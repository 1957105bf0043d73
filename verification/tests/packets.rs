use hyprconnect::features::battery::{
    broadcast_if_ready, handle_request_body, handle_response, is_changed, is_request,
    is_response, request, response, state_is_charging, BatteryReport, BatteryWatch,
};
use hyprconnect::features::ping::{is_ping, is_pong, ping, pong};
use hyprconnect::json::{as_bool, as_i64, empty_object, get, JsonValue};
use hyprconnect::packet::Packet;
use hyprconnect::protocol::{default_port, line_body, terminate_line};
use hyprconnect::session::respond_to;
use hyprconnect::text::is_affirmative;

fn is_empty_object(v: &JsonValue) -> bool {
    matches!(v, JsonValue::Object(e) if e.is_empty())
}

fn level_of(body: &JsonValue) -> Option<(i64, bool)> {
    match handle_response(&response_with(body)) {
        BatteryReport::Level { level, charging } => Some((level, charging)),
        BatteryReport::NoBattery => None,
    }
}

fn response_with(body: &JsonValue) -> Packet {
    let copy = match body {
        JsonValue::Object(entries) => JsonValue::Object(
            entries
                .iter()
                .map(|(k, v)| (k.clone(), clone_scalar(v)))
                .collect(),
        ),
        other => clone_scalar(other),
    };
    response(copy)
}

fn clone_scalar(v: &JsonValue) -> JsonValue {
    match v {
        JsonValue::Null => JsonValue::Null,
        JsonValue::Bool(b) => JsonValue::Bool(*b),
        JsonValue::Int(n) => JsonValue::Int(*n),
        JsonValue::UInt(n) => JsonValue::UInt(*n),
        JsonValue::Float(s) => JsonValue::Float(s.clone()),
        JsonValue::Str(s) => JsonValue::Str(s.clone()),
        _ => JsonValue::Null,
    }
}

#[test]
fn ping_and_pong_packets() {
    let p = ping();
    assert_eq!(p.packet_type, "PING");
    assert!(p.req_id.is_none());
    assert!(is_empty_object(&p.body));
    assert!(is_ping(&p));
    assert!(!is_pong(&p));
    let q = pong();
    assert_eq!(q.packet_type, "PONG");
    assert!(is_pong(&q));
    assert!(!is_ping(&q));
}

#[test]
fn session_answers_ping_with_pong_only() {
    let reply = respond_to(&ping()).unwrap();
    assert_eq!(reply.packet_type, "PONG");
    assert!(is_empty_object(&reply.body));
    assert!(respond_to(&pong()).is_none());
    assert!(respond_to(&Packet::new("CLIPBOARD".to_string(), empty_object())).is_none());
}

#[test]
fn packet_new_has_no_request_id() {
    let p = Packet::new("X".to_string(), JsonValue::Int(3));
    assert_eq!(p.packet_type, "X");
    assert!(p.req_id.is_none());
    assert!(matches!(p.body, JsonValue::Int(3)));
}

#[test]
fn upower_states() {
    assert!(!state_is_charging(2));
    assert!(!state_is_charging(6));
    for s in [0u32, 1, 3, 4, 5, 7] {
        assert!(state_is_charging(s));
    }
}

#[test]
fn battery_packet_types() {
    let r = request();
    assert_eq!(r.packet_type, "BATTERY_REQUEST");
    assert!(is_empty_object(&r.body));
    assert!(is_request(&r));
    assert!(!is_response(&r));
    let s = response(JsonValue::Null);
    assert_eq!(s.packet_type, "BATTERY_RESPONSE");
    assert!(is_response(&s));
    assert!(!is_changed(&s));
}

#[test]
fn request_body_reports_level_or_no_battery() {
    let body = handle_request_body(Some((87, true)));
    assert!(matches!(get(&body, "level"), Some(JsonValue::Int(87))));
    assert!(matches!(get(&body, "charging"), Some(JsonValue::Bool(true))));
    assert_eq!(level_of(&body), Some((87, true)));
    let none = handle_request_body(None);
    assert!(matches!(get(&none, "level"), Some(JsonValue::Null)));
    assert!(matches!(get(&none, "charging"), Some(JsonValue::Null)));
    assert!(matches!(get(&none, "error"), Some(JsonValue::Str(e)) if e == "no_battery"));
    assert_eq!(level_of(&none), None);
}

#[test]
fn response_without_charging_reads_as_not_charging() {
    let body = JsonValue::Object(vec![("level".to_string(), JsonValue::UInt(40))]);
    assert_eq!(level_of(&body), Some((40, false)));
    let huge = JsonValue::Object(vec![("level".to_string(), JsonValue::UInt(u64::MAX))]);
    assert_eq!(level_of(&huge), None);
}

#[test]
fn json_accessors() {
    assert_eq!(as_i64(&JsonValue::Int(-5)), Some(-5));
    assert_eq!(as_i64(&JsonValue::UInt(9)), Some(9));
    assert_eq!(as_i64(&JsonValue::Float("1.5".to_string())), None);
    assert_eq!(as_bool(&JsonValue::Bool(false)), Some(false));
    assert_eq!(as_bool(&JsonValue::Int(1)), None);
    assert!(get(&JsonValue::Null, "x").is_none());
}

#[test]
fn change_broadcast_needs_both_readings() {
    assert!(broadcast_if_ready(Some(50), None).is_none());
    assert!(broadcast_if_ready(None, Some(true)).is_none());
    let p = broadcast_if_ready(Some(50), Some(false)).unwrap();
    assert_eq!(p.packet_type, "BATTERY_CHANGED");
    assert!(is_changed(&p));
    assert_eq!(level_of(&p.body), Some((50, false)));
}

#[test]
fn watch_broadcasts_once_both_are_known() {
    let mut w = BatteryWatch::new(None, Some(2));
    assert_eq!(w.last_charging, Some(false));
    assert!(w.on_state(1).is_none());
    let p = w.on_level(33).unwrap();
    assert_eq!(level_of(&p.body), Some((33, true)));
    let q = w.on_state(6).unwrap();
    assert_eq!(level_of(&q.body), Some((33, false)));
    assert_eq!(w.last_level, Some(33));
}

#[test]
fn affirmative_answers() {
    assert!(is_affirmative("y\n"));
    assert!(is_affirmative("  Y  "));
    assert!(!is_affirmative("yes"));
    assert!(!is_affirmative("n"));
    assert!(!is_affirmative(""));
    assert!(!is_affirmative("y y"));
}

#[test]
fn wire_lines() {
    let line = terminate_line("{\"id\":1}".to_string()).unwrap();
    assert_eq!(line, "{\"id\":1}\n");
    assert_eq!(line_body(&line), "{\"id\":1}");
    assert_eq!(line_body("{}\r\n \t"), "{}");
    assert_eq!(line_body("{\"a\":\" \"}  \u{a0}\n"), "{\"a\":\" \"}");
}

#[test]
fn only_one_object_per_line_is_framed() {
    assert_eq!(terminate_line("{}".to_string()), Some("{}\n".to_string()));
    assert_eq!(terminate_line("{\"a\":1}\n".to_string()), None);
    assert_eq!(terminate_line("{\"a\":\n1}".to_string()), None);
    assert_eq!(terminate_line("[1]".to_string()), None);
    assert_eq!(terminate_line("{".to_string()), None);
    assert_eq!(terminate_line(String::new()), None);
}

#[test]
fn fallback_port() {
    assert_eq!(default_port(), 1716);
}

#[test]
fn ping_packet_line_reads_back() {
    let json = "{\"id\":12345,\"type\":\"kdeconnect.ping\",\"body\":{}}";
    let line = terminate_line(json.to_string()).unwrap();
    assert!(line.ends_with('\n'));
    assert_eq!(line_body(&line), json);
}
