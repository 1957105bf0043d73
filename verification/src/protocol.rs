use vstd::prelude::*;

use crate::json::JsonValue;
use crate::text::{strip_line_end, trim_end_chars, is_white_space};

verus! {

/// The TCP port a peer is assumed to listen on when its identity
/// broadcast leaves `tcpPort` out.
pub open spec fn spec_default_port() -> u16 {
    1716
}

/// Returns the fallback TCP port, 1716.
pub fn default_port() -> (port: u16)
    ensures
        port == spec_default_port(),
{
    1716
}

/// A device's identity as it broadcasts it.
pub struct Identity {
    pub device_id: String,
    pub device_name: String,
    pub device_type: String,
    pub protocol_version: i32,
    /// The port it listens on; [`default_port`] when the broadcast omits it.
    pub tcp_port: u16,
    pub incoming_capabilities: Vec<String>,
    pub outgoing_capabilities: Vec<String>,
}

/// The outer wrapper of every message on the wire.
pub struct NetworkPacket {
    pub id: i64,
    pub packet_type: String,
    pub body: JsonValue,
}

/// JSON text that can stand as one wire line: an object's text, from
/// `{` to `}`, with no line break inside.
pub open spec fn is_line_json(json: Seq<char>) -> bool {
    &&& json.len() >= 2
    &&& json[0] == '{'
    &&& json.last() == '}'
    &&& forall|i: int| 0 <= i < json.len() ==> json[i] != '\n'
}

/// A packet's JSON text made into one wire line: the text and a newline.
/// Text that is not one object on one line is refused, since the reader
/// splits the stream at line breaks.
pub fn terminate_line(json: String) -> (line: Option<String>)
    ensures
        line is Some <==> is_line_json(json@),
        line matches Some(l) ==> l@ == json@.push('\n'),
        (json@.len() >= 2 && json@[0] == '{' && json@.last() == '}' && forall|i: int|
            0 <= i < json@.len() ==> json@[i] != '\n') ==> (line matches Some(l) && l@
            == json@.push('\n')),
        !(json@.len() >= 2 && json@[0] == '{' && json@.last() == '}') ==> line is None,
        (exists|i: int| 0 <= i < json@.len() && json@[i] == '\n') ==> line is None,
{
    let n = json.unicode_len();
    if n < 2 || json.get_char(0) != '{' || json.get_char(n - 1) != '}' {
        return None;
    }
    let mut i: usize = 0;
    while i < n
        invariant
            n == json@.len(),
            0 <= i <= n,
            forall|j: int| 0 <= j < i ==> json@[j] != '\n',
        decreases n - i,
    {
        if json.get_char(i) == '\n' {
            return None;
        }
        i = i + 1;
    }
    let mut line = json;
    line.push('\n');
    Some(line)
}

/// The JSON text of one wire line: the line without its trailing white
/// space, which takes off its line ending.
pub fn line_body(line: &str) -> (json: &str)
    ensures
        json@ == trim_end_chars(line@),
{
    strip_line_end(line)
}

/// Every object's text without a line break in it can stand as a wire
/// line, whatever else it holds (spaces inside strings among it).
pub proof fn lemma_object_text_is_line_json(json: Seq<char>)
    requires
        json.len() >= 2,
        json[0] == '{',
        json.last() == '}',
        forall|i: int| 0 <= i < json.len() ==> json[i] != '\n',
    ensures
        is_line_json(json),
{
}

/// Taking a wire line apart gives back the JSON text it was made from,
/// and the line's one line break is its last character: a line made by
/// [`terminate_line`] reads back as the text that went in.
pub proof fn lemma_line_roundtrip(json: Seq<char>)
    requires
        is_line_json(json),
    ensures
        trim_end_chars(json.push('\n')) == json,
        forall|i: int| 0 <= i < json.len() ==> json.push('\n')[i] != '\n',
{
    assert(json.push('\n').drop_last() =~= json);
    assert(is_white_space('\n'));
    assert(!is_white_space('}'));
    assert(trim_end_chars(json.push('\n')) == trim_end_chars(json));
}

/// White space after a line's text does not change the text read from
/// it: `line_body` gives the same for `s` and for `s` followed by any run
/// of white space.
pub proof fn lemma_trailing_white_space_ignored(s: Seq<char>, ws: Seq<char>)
    requires
        forall|i: int| 0 <= i < ws.len() ==> is_white_space(#[trigger] ws[i]),
    ensures
        trim_end_chars(s + ws) == trim_end_chars(s),
    decreases ws.len(),
{
    if ws.len() == 0 {
        assert(s + ws =~= s);
    } else {
        let shorter = ws.drop_last();
        assert((s + ws).drop_last() =~= s + shorter);
        assert(is_white_space(ws[ws.len() - 1]));
        lemma_trailing_white_space_ignored(s, shorter);
    }
}

} // verus!
