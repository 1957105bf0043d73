use vstd::prelude::*;
use sha2::Digest;

use crate::{DeviceEventCallback, HyprConnectError};
use crate::text::{
    decimal_padded, digits_value, is_digit, lemma_decimal_padded_len, lemma_decimal_padded_reads_back,
    pow10, push_decimal_padded,
};

verus! {

/// The SHA-256 digest of a byte string.
pub uninterp spec fn sha256(data: Seq<u8>) -> Seq<u8>;

/// Calls `sha2::Sha256::digest`, which hashes `data` in one pass (the
/// same digest as `new`, `update` with each part in turn, `finalize`).
/// Trusted: the 32 bytes returned are the SHA-256 digest of `data`.
#[verifier::external_body]
fn sha256_digest(data: &[u8]) -> (digest: [u8; 32])
    ensures
        digest@ == sha256(data@),
{
    sha2::Sha256::digest(data).into()
}

/// Lexicographic comparison of two equal-length byte strings from
/// position `i` on: `a <= b` the way Rust orders byte arrays.
pub open spec fn bytes_le_from(a: Seq<u8>, b: Seq<u8>, i: int) -> bool
    decreases a.len() - i,
{
    if i < 0 || i >= a.len() || i >= b.len() {
        true
    } else if a[i] < b[i] {
        true
    } else if a[i] > b[i] {
        false
    } else {
        bytes_le_from(a, b, i + 1)
    }
}

/// `a <= b` in the lexicographic order of byte arrays of one length.
pub open spec fn bytes_le(a: Seq<u8>, b: Seq<u8>) -> bool {
    bytes_le_from(a, b, 0)
}

proof fn lemma_bytes_le_from_antisymmetric(a: Seq<u8>, b: Seq<u8>, i: int)
    requires
        a.len() == b.len(),
        0 <= i <= a.len(),
        a.subrange(0, i) == b.subrange(0, i),
        bytes_le_from(a, b, i),
        bytes_le_from(b, a, i),
    ensures
        a == b,
    decreases a.len() - i,
{
    if i == a.len() {
        assert(a =~= a.subrange(0, i));
        assert(b =~= b.subrange(0, i));
    } else {
        assert(a.subrange(0, i + 1) =~= a.subrange(0, i).push(a[i]));
        assert(b.subrange(0, i + 1) =~= b.subrange(0, i).push(b[i]));
        lemma_bytes_le_from_antisymmetric(a, b, i + 1);
    }
}

proof fn lemma_bytes_le_from_total(a: Seq<u8>, b: Seq<u8>, i: int)
    requires
        a.len() == b.len(),
        0 <= i <= a.len(),
    ensures
        bytes_le_from(a, b, i) || bytes_le_from(b, a, i),
    decreases a.len() - i,
{
    if i < a.len() {
        lemma_bytes_le_from_total(a, b, i + 1);
    }
}

/// Two byte strings of one length that are each `<=` the other are equal.
pub proof fn lemma_bytes_le_antisymmetric(a: Seq<u8>, b: Seq<u8>)
    requires
        a.len() == b.len(),
        bytes_le(a, b),
        bytes_le(b, a),
    ensures
        a == b,
{
    assert(a.subrange(0, 0) =~= b.subrange(0, 0));
    lemma_bytes_le_from_antisymmetric(a, b, 0);
}

/// Of two byte strings of one length, one is `<=` the other.
pub proof fn lemma_bytes_le_total(a: Seq<u8>, b: Seq<u8>)
    requires
        a.len() == b.len(),
    ensures
        bytes_le(a, b) || bytes_le(b, a),
{
    lemma_bytes_le_from_total(a, b, 0);
}

/// Compares two public keys in the lexicographic order of byte arrays.
fn key_le(a: &[u8; 32], b: &[u8; 32]) -> (le: bool)
    ensures
        le == bytes_le(a@, b@),
{
    let mut i: usize = 0;
    while i < 32
        invariant
            0 <= i <= 32,
            a@.len() == 32,
            b@.len() == 32,
            bytes_le(a@, b@) == bytes_le_from(a@, b@, i as int),
        decreases 32 - i,
    {
        if a[i] < b[i] {
            return true;
        } else if a[i] > b[i] {
            return false;
        }
        i = i + 1;
    }
    true
}

/// The 64 bytes that the pairing code hashes: the smaller key first.
pub open spec fn fingerprint_input(my_pub: Seq<u8>, remote_pub: Seq<u8>) -> Seq<u8> {
    if bytes_le(my_pub, remote_pub) {
        my_pub + remote_pub
    } else {
        remote_pub + my_pub
    }
}

/// The number behind the pairing code: the first three bytes of the
/// digest read big-endian, reduced modulo one million.
pub open spec fn fingerprint_number(digest: Seq<u8>) -> nat {
    ((digest[0] as nat) * 65536 + (digest[1] as nat) * 256 + (digest[2] as nat)) % 1_000_000
}

/// The six-digit pairing code that two devices with these static keys
/// show their users.
pub open spec fn spec_fingerprint(my_pub: Seq<u8>, remote_pub: Seq<u8>) -> Seq<char> {
    decimal_padded(fingerprint_number(sha256(fingerprint_input(my_pub, remote_pub))), 6)
}

fn concat_keys(first: &[u8; 32], second: &[u8; 32]) -> (out: Vec<u8>)
    ensures
        out@ == first@ + second@,
{
    let mut out: Vec<u8> = Vec::new();
    let mut i: usize = 0;
    while i < 32
        invariant
            0 <= i <= 32,
            first@.len() == 32,
            out@ == first@.subrange(0, i as int),
        decreases 32 - i,
    {
        out.push(first[i]);
        i = i + 1;
        assert(out@ =~= first@.subrange(0, i as int));
    }
    let mut j: usize = 0;
    while j < 32
        invariant
            0 <= j <= 32,
            first@.len() == 32,
            second@.len() == 32,
            out@ == first@ + second@.subrange(0, j as int),
        decreases 32 - j,
    {
        out.push(second[j]);
        j = j + 1;
        assert(out@ =~= first@ + second@.subrange(0, j as int));
    }
    assert(second@.subrange(0, 32) =~= second@);
    out
}

/// The pairing code both devices display: SHA-256 over the two static
/// public keys, smaller key first, cut to a six-digit decimal number.
pub fn fingerprint(my_pub: &[u8; 32], remote_pub: &[u8; 32]) -> (code: String)
    ensures
        code@ == spec_fingerprint(my_pub@, remote_pub@),
        code@.len() == 6,
        forall|i: int| 0 <= i < 6 ==> is_digit(#[trigger] code@[i]),
{
    let input = if key_le(my_pub, remote_pub) {
        concat_keys(my_pub, remote_pub)
    } else {
        concat_keys(remote_pub, my_pub)
    };
    let hash = sha256_digest(input.as_slice());
    let number: u32 = ((hash[0] as u32) * 65536 + (hash[1] as u32) * 256 + (hash[2] as u32))
        % 1_000_000;
    let mut code = String::new();
    push_decimal_padded(&mut code, number as u64, 6);
    proof {
        lemma_decimal_padded_len(number as nat, 6);
        assert(code@ =~= decimal_padded(number as nat, 6));
    }
    code
}

/// The pairing code read in base 10 is the number taken from the digest
/// of the two keys: its first three bytes, big-endian, modulo one million.
pub proof fn lemma_fingerprint_reads_back(my_pub: Seq<u8>, remote_pub: Seq<u8>)
    ensures
        digits_value(spec_fingerprint(my_pub, remote_pub)) == fingerprint_number(
            sha256(fingerprint_input(my_pub, remote_pub)),
        ),
{
    let n = fingerprint_number(sha256(fingerprint_input(my_pub, remote_pub)));
    assert(pow10(6) == 1_000_000) by {
        reveal_with_fuel(pow10, 7);
    }
    lemma_decimal_padded_reads_back(n, 6);
}

/// Both ends of a connection compute the same pairing code, whichever
/// of them dialed: the code does not depend on the order of the keys.
pub proof fn lemma_fingerprint_symmetric(a: [u8; 32], b: [u8; 32])
    ensures
        spec_fingerprint(a@, b@) == spec_fingerprint(b@, a@),
{
    if bytes_le(a@, b@) && bytes_le(b@, a@) {
        lemma_bytes_le_antisymmetric(a@, b@);
    } else {
        lemma_bytes_le_total(a@, b@);
        assert(fingerprint_input(a@, b@) == fingerprint_input(b@, a@));
    }
}

/// Confirms pairing codes by asking on the terminal; the answer counts as
/// yes when [`crate::text::is_affirmative`] says so.
pub struct StdinConfirmer;

/// Confirms pairing codes through the registered callback: a pairing is
/// started with [`PairingState::begin_confirmation`] and answered with
/// [`confirm_pairing`].
pub struct CallbackConfirmer;

/// The message of the error returned when no callback can show a code.
pub open spec fn callback_missing_message() -> Seq<char> {
    "pairing callback is not registered"@
}

/// The callback that shows pairing codes to the user, once registered.
pub struct CallbackSlot<C> {
    callback: Option<C>,
}

impl<C> CallbackSlot<C> {
    /// The callback that shows pairing codes, if one was registered.
    pub closed spec fn callback(&self) -> Option<C> {
        self.callback
    }

    /// No callback registered yet.
    pub fn new() -> (slot: Self)
        ensures
            slot.callback() is None,
    {
        CallbackSlot { callback: None }
    }

    /// Shows the code of a pairing that was started to the user, through
    /// the registered callback; with none registered nothing is shown.
    pub fn show_pairing_code(&self, notice: PairingNotice)
        where
            C: DeviceEventCallback,
    {
        match &self.callback {
            Some(callback) => callback.on_pairing_code(notice.device_id, notice.code),
            None => {},
        }
    }
}

/// Makes `callback` the one that shows pairing codes, replacing any other.
pub fn register_callback<C>(slot: &mut CallbackSlot<C>, callback: C)
    ensures
        final(slot).callback() == Some(callback),
{
    slot.callback = Some(callback);
}

/// What the user is shown when a pairing starts: the device and the code.
pub struct PairingNotice {
    pub device_id: String,
    pub code: String,
}

struct PendingPairing<R> {
    device_id: String,
    responder: R,
}

/// The one pairing waiting for the user's answer, with the responder `R`
/// that delivers that answer.
pub struct PairingState<R> {
    pending: Option<PendingPairing<R>>,
}

/// The device a pairing waits on after an attempt to start one for `id`:
/// an attempt succeeds only when none waits and a callback can show the
/// code.
pub open spec fn pending_after_begin(
    pending: Option<Seq<char>>,
    callback_registered: bool,
    id: Seq<char>,
) -> Option<Seq<char>> {
    if pending is None && callback_registered {
        Some(id)
    } else {
        pending
    }
}

/// The device a pairing waits on after the user answers for `id`: the
/// answer ends the pairing for that device and no other.
pub open spec fn pending_after_confirm(pending: Option<Seq<char>>, id: Seq<char>) -> Option<
    Seq<char>,
> {
    if pending == Some(id) {
        None
    } else {
        pending
    }
}

/// A step of the pairing bookkeeping, as far as it decides which device
/// a pairing waits on: an attempt to start one (with whether a callback
/// was registered then), or the user's answer for a device.
pub enum PairingStep {
    Begin { device_id: Seq<char>, callback_registered: bool },
    Confirm { device_id: Seq<char> },
}

/// The device a pairing waits on after `steps`, starting from `start`.
pub open spec fn pending_after_steps(start: Option<Seq<char>>, steps: Seq<PairingStep>) -> Option<
    Seq<char>,
>
    decreases steps.len(),
{
    if steps.len() == 0 {
        start
    } else {
        let before = pending_after_steps(start, steps.drop_last());
        match steps.last() {
            PairingStep::Begin { device_id, callback_registered } => pending_after_begin(
                before,
                callback_registered,
                device_id,
            ),
            PairingStep::Confirm { device_id } => pending_after_confirm(before, device_id),
        }
    }
}

/// Whether `step` starts a pairing when `pending` waits.
pub open spec fn starts_pairing(pending: Option<Seq<char>>, step: PairingStep) -> bool {
    match step {
        PairingStep::Begin { callback_registered, .. } => pending is None && callback_registered,
        PairingStep::Confirm { .. } => false,
    }
}

proof fn lemma_waits_until_answered(
    start: Option<Seq<char>>,
    steps: Seq<PairingStep>,
    i: int,
    m: int,
    id: Seq<char>,
)
    requires
        0 <= i < m <= steps.len(),
        pending_after_steps(start, steps.take(i + 1)) == Some(id),
        forall|k: int| i < k < m ==> steps[k] != (PairingStep::Confirm { device_id: id }),
    ensures
        pending_after_steps(start, steps.take(m)) == Some(id),
    decreases m - i,
{
    if m > i + 1 {
        lemma_waits_until_answered(start, steps, i, m - 1, id);
        assert(steps.take(m).drop_last() =~= steps.take(m - 1));
        assert(steps.take(m).last() == steps[m - 1]);
    }
}

/// Once a pairing has started for a device, no other starts until the
/// user has answered for that device: between two steps that start a
/// pairing stands an answer for the first one's device.
pub proof fn lemma_one_pairing_at_a_time(
    start: Option<Seq<char>>,
    steps: Seq<PairingStep>,
    i: int,
    j: int,
)
    requires
        0 <= i < j < steps.len(),
        starts_pairing(pending_after_steps(start, steps.take(i)), steps[i]),
        starts_pairing(pending_after_steps(start, steps.take(j)), steps[j]),
    ensures
        steps[i] is Begin,
        exists|k: int|
            i < k < j && #[trigger] steps[k] == (PairingStep::Confirm {
                device_id: steps[i]->Begin_device_id,
            }),
{
    let id = steps[i]->Begin_device_id;
    assert(steps.take(i + 1).drop_last() =~= steps.take(i));
    assert(steps.take(i + 1).last() == steps[i]);
    if !(exists|k: int|
        i < k < j && #[trigger] steps[k] == (PairingStep::Confirm { device_id: id })) {
        lemma_waits_until_answered(start, steps, i, j, id);
    }
}

impl<R> PairingState<R> {
    /// The device a pairing waits on, and the responder that will carry
    /// the user's answer.
    pub closed spec fn pending(&self) -> Option<(Seq<char>, R)> {
        match self.pending {
            Some(p) => Some((p.device_id@, p.responder)),
            None => None,
        }
    }

    /// The device a pairing waits on.
    pub open spec fn pending_id(&self) -> Option<Seq<char>> {
        match self.pending() {
            Some((id, _)) => Some(id),
            None => None,
        }
    }

    /// No pairing in progress.
    pub fn new() -> (state: Self)
        ensures
            state.pending() is None,
    {
        PairingState { pending: None }
    }

    /// Starts a pairing that waits on the user: `responder` is kept until
    /// the user answers through [`confirm_pairing`], and the notice to show
    /// through [`CallbackSlot::show_pairing_code`] is returned. Only one
    /// pairing may wait at a time, and none starts while no callback can
    /// show the code.
    pub fn begin_confirmation<C>(
        &mut self,
        callbacks: &CallbackSlot<C>,
        device_id: String,
        code: String,
        responder: R,
    ) -> (result: Result<PairingNotice, HyprConnectError>)
        ensures
            final(self).pending_id() == pending_after_begin(
                old(self).pending_id(),
                callbacks.callback() is Some,
                device_id@,
            ),
            old(self).pending() is Some ==> (result matches Err(
                HyprConnectError::PairingInProgress,
            ) && final(self).pending() == old(self).pending()),
            old(self).pending() is None && callbacks.callback() is None ==> (result matches Err(
                HyprConnectError::Transport(msg),
            ) && msg@ == callback_missing_message()) && final(self).pending() is None,
            old(self).pending() is None && callbacks.callback() is Some ==> final(self).pending()
                == Some((device_id@, responder)),
            old(self).pending() is None && callbacks.callback() is Some ==> (result matches Ok(
                notice,
            ) && notice.device_id@ == device_id@ && notice.code@ == code@),
    {
        if self.pending.is_some() {
            return Err(HyprConnectError::PairingInProgress);
        }
        if callbacks.callback.is_none() {
            let msg = "pairing callback is not registered".to_owned();
            return Err(HyprConnectError::Transport(msg));
        }
        let notified_id = device_id.clone();
        self.pending = Some(PendingPairing { device_id, responder });
        Ok(PairingNotice { device_id: notified_id, code })
    }
}

/// Whether a pairing is waiting for the user's answer.
pub fn is_pairing_in_progress<R>(state: &PairingState<R>) -> (in_progress: bool)
    ensures
        in_progress == (state.pending() is Some),
{
    state.pending.is_some()
}

/// The user's answer `accepted` for `device_id`. When the pairing in
/// progress is for that device it ends, and its responder is handed back
/// with the answer to deliver; an answer for another device, or with no
/// pairing in progress, is ignored.
pub fn confirm_pairing<R>(
    state: &mut PairingState<R>,
    device_id: String,
    accepted: bool,
) -> (deliver: Option<(R, bool)>)
    ensures
        final(state).pending_id() == pending_after_confirm(old(state).pending_id(), device_id@),
        match old(state).pending() {
            Some((id, responder)) => if id == device_id@ {
                deliver == Some((responder, accepted)) && final(state).pending() is None
            } else {
                deliver is None && final(state).pending() == old(state).pending()
            },
            None => deliver is None && final(state).pending() is None,
        },
{
    let pending = state.pending.take();
    match pending {
        Some(p) => {
            if p.device_id == device_id {
                Some((p.responder, accepted))
            } else {
                state.pending = Some(p);
                None
            }
        },
        None => None,
    }
}

} // verus!
