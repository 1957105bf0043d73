use vstd::prelude::*;

verus! {

#[verifier::external_type_specification]
#[verifier::external_body]
pub struct ExHandshakeState(snow::HandshakeState);

#[verifier::external_type_specification]
#[verifier::external_body]
pub struct ExTransportState(snow::TransportState);

#[verifier::external_type_specification]
#[verifier::external_body]
pub struct ExSnowError(snow::Error);

/// The size of the authentication tag Noise appends to each message.
pub const TAG_LEN: usize = 16;

/// The largest Noise message, and the largest frame body.
pub const MAX_MESSAGE_LEN: usize = 65535;

/// The size of the buffer handshake messages are written into.
pub const HANDSHAKE_BUFFER_LEN: usize = 1024;

/// The Noise protocol both sides must name identically: X25519 key
/// agreement, ChaChaPoly encryption, BLAKE2s hashing, the XX pattern.
pub const NOISE_PARAMS: &'static str = "Noise_XX_25519_ChaChaPoly_BLAKE2s";

/// Calls `snow::params::NoiseParams::from_str` on `params`, then
/// `snow::Builder::new`, `Builder::local_private_key` with `secret` and
/// `Builder::build_initiator`. Trusted: with `NOISE_PARAMS` the name
/// parses and the build succeeds, since XX needs only the local key,
/// which is given, and the default resolver supplies X25519, ChaChaPoly
/// and BLAKE2s. Nothing is stated of the state it returns.
#[verifier::external_body]
fn build_initiator(params: &str, secret: &[u8; 32]) -> (r: Result<
    snow::HandshakeState,
    snow::Error,
>)
    ensures
        params@ == NOISE_PARAMS@ ==> r is Ok,
{
    let params: snow::params::NoiseParams = params.parse()?;
    snow::Builder::new(params).local_private_key(secret).build_initiator()
}

/// As `build_initiator`, with `Builder::build_responder` at the end, and
/// the same claim that `NOISE_PARAMS` always builds.
#[verifier::external_body]
fn build_responder(params: &str, secret: &[u8; 32]) -> (r: Result<
    snow::HandshakeState,
    snow::Error,
>)
    ensures
        params@ == NOISE_PARAMS@ ==> r is Ok,
{
    let params: snow::params::NoiseParams = params.parse()?;
    snow::Builder::new(params).local_private_key(secret).build_responder()
}

/// Calls `HandshakeState::write_message` with an empty payload into `buf`
/// and keeps the bytes written. `buf` is at least `HANDSHAKE_BUFFER_LEN`
/// long, room for any XX message with an empty payload, so the write
/// cannot overrun it. Trusted: the message fits in `buf`.
#[verifier::external_body]
fn handshake_write(hs: &mut snow::HandshakeState, buf: Vec<u8>) -> (r: Result<
    Vec<u8>,
    snow::Error,
>)
    requires
        buf@.len() >= HANDSHAKE_BUFFER_LEN,
    ensures
        r matches Ok(m) ==> m@.len() <= buf@.len(),
{
    let mut buf = buf;
    let len = hs.write_message(&[], &mut buf)?;
    buf.truncate(len);
    Ok(buf)
}

/// Calls `HandshakeState::read_message` on `message`, with `buf` to take
/// the payload, which is dropped. Nothing is stated of the outcome.
#[verifier::external_body]
fn handshake_read(hs: &mut snow::HandshakeState, message: &[u8], buf: Vec<u8>) -> (r: Result<
    (),
    snow::Error,
>) {
    let mut buf = buf;
    hs.read_message(message, &mut buf)?;
    Ok(())
}

/// Calls `HandshakeState::get_remote_static` and copies the key out.
/// Nothing is stated of it: it depends on what the peer sent, and its
/// length on the key-agreement function the state was built with.
#[verifier::external_body]
fn handshake_remote_static(hs: &snow::HandshakeState) -> (key: Option<Vec<u8>>) {
    hs.get_remote_static().map(|k| k.to_vec())
}

/// Calls `HandshakeState::into_transport_mode`. Nothing is stated of the
/// state it returns.
#[verifier::external_body]
fn into_transport(hs: snow::HandshakeState) -> (r: Result<snow::TransportState, snow::Error>) {
    hs.into_transport_mode()
}

/// Calls `TransportState::write_message` on `plaintext` into `buf` and
/// keeps the bytes written. Trusted: a payload whose sealed size would pass
/// `MAX_MESSAGE_LEN` or not fit `buf` is refused, and a sealed message is
/// the payload's length plus the tag. The sealed bytes depend on the
/// session keys and nonce, so nothing more is stated of them.
#[verifier::external_body]
fn transport_write(
    t: &mut snow::TransportState,
    plaintext: &[u8],
    buf: Vec<u8>,
) -> (r: Result<Vec<u8>, snow::Error>)
    ensures
        plaintext@.len() + TAG_LEN > MAX_MESSAGE_LEN ==> r is Err,
        plaintext@.len() + TAG_LEN > buf@.len() ==> r is Err,
        r matches Ok(c) ==> c@.len() == plaintext@.len() + TAG_LEN,
{
    let mut buf = buf;
    let len = t.write_message(plaintext, &mut buf)?;
    buf.truncate(len);
    Ok(buf)
}

/// Calls `TransportState::read_message` on `message` into `buf` and keeps
/// the bytes written. Trusted: a message shorter than the tag, longer than
/// `MAX_MESSAGE_LEN`, or whose payload would not fit `buf` is refused, and
/// an opened message is the sealed length less the tag. Whether the tag
/// checks out depends on the session keys, so nothing more is stated.
#[verifier::external_body]
fn transport_read(
    t: &mut snow::TransportState,
    message: &[u8],
    buf: Vec<u8>,
) -> (r: Result<Vec<u8>, snow::Error>)
    ensures
        message@.len() < TAG_LEN ==> r is Err,
        message@.len() > MAX_MESSAGE_LEN ==> r is Err,
        r matches Ok(p) ==> p@.len() + TAG_LEN == message@.len(),
{
    let mut buf = buf;
    let len = t.read_message(message, &mut buf)?;
    buf.truncate(len);
    Ok(buf)
}

/// What can go wrong in the Noise layer.
pub enum NoiseError {
    /// The Noise library refused a step.
    Snow(snow::Error),
    /// A frame body longer than a two-byte length can announce.
    FrameTooLarge,
    /// The handshake ended without the peer's static key.
    NoRemoteStatic,
    /// The peer's static key is not 32 bytes.
    RemoteStaticWrongLength,
    /// A handshake step was taken out of the pattern's order.
    OutOfTurn,
}

/// A frame on the wire: the body's length as two big-endian bytes, then
/// the body.
pub open spec fn spec_frame(body: Seq<u8>) -> Seq<u8> {
    seq![(body.len() / 256) as u8, (body.len() % 256) as u8] + body
}

/// The body length a two-byte frame header announces.
pub open spec fn spec_frame_len(header: Seq<u8>) -> nat {
    (header[0] as nat) * 256 + (header[1] as nat)
}

/// Frames `body`: its length as two big-endian bytes, then the body.
/// Bodies longer than 65535 bytes cannot be framed.
pub fn encode_frame(body: &[u8]) -> (frame: Result<Vec<u8>, NoiseError>)
    ensures
        body@.len() <= MAX_MESSAGE_LEN ==> (frame matches Ok(f) && f@ == spec_frame(body@)),
        body@.len() > MAX_MESSAGE_LEN ==> frame matches Err(NoiseError::FrameTooLarge),
{
    let n = body.len();
    if n > MAX_MESSAGE_LEN {
        return Err(NoiseError::FrameTooLarge);
    }
    let mut frame: Vec<u8> = Vec::new();
    frame.push((n / 256) as u8);
    frame.push((n % 256) as u8);
    let mut i: usize = 0;
    while i < n
        invariant
            n == body@.len(),
            n <= MAX_MESSAGE_LEN,
            0 <= i <= n,
            frame@ == seq![(n / 256) as u8, (n % 256) as u8] + body@.subrange(0, i as int),
        decreases n - i,
    {
        frame.push(body[i]);
        i = i + 1;
        assert(frame@ =~= seq![(n / 256) as u8, (n % 256) as u8] + body@.subrange(0, i as int));
    }
    assert(body@.subrange(0, n as int) =~= body@);
    Ok(frame)
}

/// The body length that a frame's two header bytes announce.
pub fn frame_len(header: [u8; 2]) -> (len: usize)
    ensures
        len == spec_frame_len(header@),
{
    (header[0] as usize) * 256 + (header[1] as usize)
}

/// Reading a frame's header gives back its body's length, and the body
/// follows the header: a frame is read back as it was written.
pub proof fn lemma_frame_roundtrip(body: Seq<u8>)
    requires
        body.len() <= MAX_MESSAGE_LEN,
    ensures
        spec_frame_len(spec_frame(body).subrange(0, 2)) == body.len(),
        spec_frame(body).subrange(2, spec_frame(body).len() as int) == body,
{
    let f = spec_frame(body);
    assert(f.subrange(2, f.len() as int) =~= body);
}

/// Seals `plaintext` with the session's sending key and frames it.
pub fn encrypt_frame(
    transport: &mut snow::TransportState,
    plaintext: &[u8],
) -> (frame: Result<Vec<u8>, NoiseError>)
    requires
        plaintext@.len() + TAG_LEN <= usize::MAX,
    ensures
        plaintext@.len() + TAG_LEN > MAX_MESSAGE_LEN ==> frame is Err,
        frame matches Ok(f) ==> exists|c: Seq<u8>|
            c.len() == plaintext@.len() + TAG_LEN && #[trigger] spec_frame(c) == f@,
{
    let buf = vec![0u8; plaintext.len() + TAG_LEN];
    let sealed = match transport_write(transport, plaintext, buf) {
        Ok(c) => c,
        Err(e) => {
            return Err(NoiseError::Snow(e));
        },
    };
    let framed = encode_frame(sealed.as_slice());
    match framed {
        Ok(f) => {
            assert(spec_frame(sealed@) == f@);
            Ok(f)
        },
        Err(e) => Err(e),
    }
}

/// Opens the body of a received frame with the session's receiving key.
pub fn decrypt_frame(
    transport: &mut snow::TransportState,
    body: &[u8],
) -> (plaintext: Result<Vec<u8>, NoiseError>)
    ensures
        body@.len() < TAG_LEN ==> plaintext is Err,
        plaintext matches Ok(p) ==> p@.len() + TAG_LEN == body@.len(),
{
    let buf = vec![0u8; body.len()];
    match transport_read(transport, body, buf) {
        Ok(p) => Ok(p),
        Err(e) => Err(NoiseError::Snow(e)),
    }
}

/// The side of the handshake a device plays: the side that dialed
/// initiates.
#[derive(PartialEq, Eq, Structural, Clone, Copy)]
pub enum Role {
    Initiator,
    Responder,
}

/// Whether `role` sends the handshake message at position `step` of the
/// XX pattern (-> e; <- e, ee, s, es; -> s, se).
pub open spec fn sends_at(role: Role, step: nat) -> bool {
    match role {
        Role::Initiator => step == 0 || step == 2,
        Role::Responder => step == 1,
    }
}

/// The number of messages in the XX pattern.
pub open spec fn pattern_len() -> nat {
    3
}

/// The peer's static key as `remote_key` takes it from what the Noise
/// state reports: refused when absent or not 32 bytes long.
pub open spec fn spec_remote_key(reported: Option<Seq<u8>>) -> Result<Seq<u8>, NoiseError> {
    match reported {
        None => Err(NoiseError::NoRemoteStatic),
        Some(k) => if k.len() == 32 {
            Ok(k)
        } else {
            Err(NoiseError::RemoteStaticWrongLength)
        },
    }
}

/// Turns the peer's static key, as the Noise state reports it, into a
/// 32-byte key.
pub fn remote_key(reported: &Option<Vec<u8>>) -> (key: Result<[u8; 32], NoiseError>)
    ensures
        match spec_remote_key(
            match reported {
                Some(k) => Some(k@),
                None => None,
            },
        ) {
            Ok(k) => key matches Ok(b) && b@ == k,
            Err(NoiseError::NoRemoteStatic) => key matches Err(NoiseError::NoRemoteStatic),
            Err(_) => key matches Err(NoiseError::RemoteStaticWrongLength),
        },
{
    let remote = match reported {
        Some(k) => k,
        None => {
            return Err(NoiseError::NoRemoteStatic);
        },
    };
    if remote.len() != 32 {
        return Err(NoiseError::RemoteStaticWrongLength);
    }
    let mut key = [0u8; 32];
    let mut i: usize = 0;
    while i < 32
        invariant
            0 <= i <= 32,
            remote@.len() == 32,
            forall|j: int| 0 <= j < i ==> key@[j] == remote@[j],
        decreases 32 - i,
    {
        key[i] = remote[i];
        i = i + 1;
    }
    assert(key@ =~= remote@);
    Ok(key)
}

/// A Noise_XX handshake under way, with how many of its three messages
/// have passed and the peer's static key as the Noise state reported it
/// after the last message read.
pub struct Handshake {
    state: snow::HandshakeState,
    role: Role,
    step: u8,
    remote: Option<Vec<u8>>,
}

impl Handshake {
    /// The side this device plays.
    pub closed spec fn role(&self) -> Role {
        self.role
    }

    /// How many handshake messages have passed.
    pub closed spec fn step(&self) -> nat {
        self.step as nat
    }

    /// The peer's static key as the Noise state reported it after the last
    /// message this side read; `None` before any.
    pub closed spec fn reported_remote(&self) -> Option<Seq<u8>> {
        match self.remote {
            Some(k) => Some(k@),
            None => None,
        }
    }

    /// Starts a handshake with this device's static secret, on `role`'s
    /// side. The protocol name is fixed, so this always succeeds.
    pub fn start(role: Role, static_secret: &[u8; 32]) -> (hs: Result<Handshake, NoiseError>)
        ensures
            hs matches Ok(h) && h.role() == role && h.step() == 0 && h.reported_remote() is None,
    {
        let built = match role {
            Role::Initiator => build_initiator(NOISE_PARAMS, static_secret),
            Role::Responder => build_responder(NOISE_PARAMS, static_secret),
        };
        match built {
            Ok(state) => Ok(Handshake { state, role, step: 0, remote: None }),
            Err(e) => Err(NoiseError::Snow(e)),
        }
    }

    /// Writes this side's next handshake message, framed for the wire.
    /// Refused when it is the peer's turn or the pattern is complete;
    /// otherwise only the Noise library can refuse it.
    pub fn next_outgoing(&mut self) -> (frame: Result<Vec<u8>, NoiseError>)
        ensures
            final(self).role() == old(self).role(),
            final(self).reported_remote() == old(self).reported_remote(),
            (old(self).step() < pattern_len() && sends_at(old(self).role(), old(self).step()))
                ==> !(frame matches Err(NoiseError::OutOfTurn)) && !(frame matches Err(
                NoiseError::FrameTooLarge,
            )),
            !(old(self).step() < pattern_len() && sends_at(old(self).role(), old(self).step()))
                ==> frame matches Err(NoiseError::OutOfTurn),
            frame is Err ==> final(self).step() == old(self).step(),
            frame matches Ok(f) ==> final(self).step() == old(self).step() + 1 && exists|
                m: Seq<u8>,
            |
                m.len() <= HANDSHAKE_BUFFER_LEN && #[trigger] spec_frame(m) == f@,
    {
        let my_turn = match self.role {
            Role::Initiator => self.step == 0 || self.step == 2,
            Role::Responder => self.step == 1,
        };
        if !(self.step < 3 && my_turn) {
            return Err(NoiseError::OutOfTurn);
        }
        let buf = vec![0u8; HANDSHAKE_BUFFER_LEN];
        let message = match handshake_write(&mut self.state, buf) {
            Ok(m) => m,
            Err(e) => {
                return Err(NoiseError::Snow(e));
            },
        };
        let framed = encode_frame(message.as_slice());
        match framed {
            Ok(f) => {
                assert(spec_frame(message@) == f@);
                self.step = self.step + 1;
                Ok(f)
            },
            Err(e) => Err(e),
        }
    }

    /// Reads the peer's next handshake message (a frame's body), then
    /// takes note of the peer's static key as the Noise state reports it.
    /// Refused when it is this side's turn or the pattern is complete;
    /// otherwise only the Noise library can refuse it.
    pub fn accept_incoming(&mut self, message: &[u8]) -> (r: Result<(), NoiseError>)
        ensures
            final(self).role() == old(self).role(),
            (old(self).step() < pattern_len() && !sends_at(old(self).role(), old(self).step()))
                ==> (r is Ok || r matches Err(NoiseError::Snow(_))),
            !(old(self).step() < pattern_len() && !sends_at(old(self).role(), old(self).step()))
                ==> r matches Err(NoiseError::OutOfTurn),
            r is Err ==> final(self).step() == old(self).step() && final(self).reported_remote()
                == old(self).reported_remote(),
            r is Ok ==> final(self).step() == old(self).step() + 1,
    {
        let my_turn = match self.role {
            Role::Initiator => self.step == 0 || self.step == 2,
            Role::Responder => self.step == 1,
        };
        if !(self.step < 3 && !my_turn) {
            return Err(NoiseError::OutOfTurn);
        }
        let buf = vec![0u8; HANDSHAKE_BUFFER_LEN];
        match handshake_read(&mut self.state, message, buf) {
            Ok(()) => {
                self.step = self.step + 1;
                self.remote = handshake_remote_static(&self.state);
                Ok(())
            },
            Err(e) => Err(NoiseError::Snow(e)),
        }
    }

    /// Completes the handshake: the session's transport state and the
    /// peer's authenticated 32-byte static key, which is the key the Noise
    /// state reported after the last message read. Refused before all
    /// three messages have passed, and when that key is missing or not 32
    /// bytes long.
    pub fn finish(self) -> (done: Result<(snow::TransportState, [u8; 32]), NoiseError>)
        ensures
            self.step() != pattern_len() ==> done matches Err(NoiseError::OutOfTurn),
            self.step() == pattern_len() ==> match spec_remote_key(self.reported_remote()) {
                Ok(k) => (done matches Ok((_, key)) && key@ == k) || done matches Err(
                    NoiseError::Snow(_),
                ),
                Err(NoiseError::NoRemoteStatic) => done matches Err(NoiseError::NoRemoteStatic),
                Err(_) => done matches Err(NoiseError::RemoteStaticWrongLength),
            },
    {
        if self.step != 3 {
            return Err(NoiseError::OutOfTurn);
        }
        let key = match remote_key(&self.remote) {
            Ok(k) => k,
            Err(e) => {
                return Err(e);
            },
        };
        match into_transport(self.state) {
            Ok(t) => Ok((t, key)),
            Err(e) => Err(NoiseError::Snow(e)),
        }
    }
}

/// Each side writes exactly the messages the other reads: at every step
/// of the pattern one side sends and the other receives.
pub proof fn lemma_turns_alternate(step: nat)
    requires
        step < pattern_len(),
    ensures
        sends_at(Role::Initiator, step) != sends_at(Role::Responder, step),
{
}

} // verus!
