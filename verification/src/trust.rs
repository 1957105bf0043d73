use vstd::prelude::*;

use crate::hexcode::{hex_chars, hex_encode, lemma_hex_injective};
use crate::keyed::{
    entries_view, entry_view, find_key, keyed_lookup, keyed_upsert, keyed_values, keys_unique,
    lemma_keyed_upsert,
};

verus! {

/// A device a person has accepted once, remembered by its static key.
pub struct TrustedDevice {
    pub device_id: String,
    pub device_name: String,
    pub device_type: String,
    /// The device's X25519 static public key in lowercase hexadecimal.
    pub x25519_pub_hex: String,
}

/// The plain contents of a [`TrustedDevice`].
pub struct TrustedDeviceView {
    pub device_id: Seq<char>,
    pub device_name: Seq<char>,
    pub device_type: Seq<char>,
    pub x25519_pub_hex: Seq<char>,
}

impl View for TrustedDevice {
    type V = TrustedDeviceView;

    open spec fn view(&self) -> TrustedDeviceView {
        TrustedDeviceView {
            device_id: self.device_id@,
            device_name: self.device_name@,
            device_type: self.device_type@,
            x25519_pub_hex: self.x25519_pub_hex@,
        }
    }
}

impl Clone for TrustedDevice {
    fn clone(&self) -> (c: Self)
        ensures
            c@ == self@,
    {
        TrustedDevice {
            device_id: self.device_id.clone(),
            device_name: self.device_name.clone(),
            device_type: self.device_type.clone(),
            x25519_pub_hex: self.x25519_pub_hex.clone(),
        }
    }
}

/// The record stored for a device accepted with static key `remote_pub`.
pub open spec fn trusted_record(
    remote_pub: Seq<u8>,
    device_id: Seq<char>,
    device_name: Seq<char>,
    device_type: Seq<char>,
) -> TrustedDeviceView {
    TrustedDeviceView {
        device_id,
        device_name,
        device_type,
        x25519_pub_hex: hex_chars(remote_pub),
    }
}

/// The trusted devices, keyed by the hexadecimal text of their static keys.
pub struct TrustStore {
    entries: Vec<(String, TrustedDevice)>,
}

impl View for TrustStore {
    type V = Seq<(Seq<char>, TrustedDeviceView)>;

    closed spec fn view(&self) -> Seq<(Seq<char>, TrustedDeviceView)> {
        entries_view(self.entries@)
    }
}

impl TrustStore {
    /// The store's invariant: no key is stored twice.
    pub open spec fn wf(&self) -> bool {
        keys_unique(self@)
    }

    /// A store that trusts nobody.
    pub fn new() -> (store: Self)
        ensures
            store.wf(),
            store@ == Seq::<(Seq<char>, TrustedDeviceView)>::empty(),
    {
        let store = TrustStore { entries: Vec::new() };
        assert(store@ =~= Seq::<(Seq<char>, TrustedDeviceView)>::empty());
        store
    }

    /// Stores `device` under `key`, replacing what the key held. This is how
    /// a store read back from disk is rebuilt, entry by entry.
    pub fn insert(&mut self, key: String, device: TrustedDevice)
        requires
            old(self).wf(),
        ensures
            final(self).wf(),
            final(self)@ == keyed_upsert(old(self)@, key@, device@),
    {
        proof {
            lemma_keyed_upsert(self@, key@, device@);
        }
        let ghost kv = key@;
        let ghost dv = device@;
        match find_key(&self.entries, key.as_str()) {
            Some(p) => {
                self.entries.set(p, (key, device));
                assert(self@ =~= old(self)@.update(p as int, (kv, dv)));
            },
            None => {
                self.entries.push((key, device));
                assert(self@ =~= old(self)@.push((kv, dv)));
            },
        }
    }

    /// All entries, in the order their keys were first stored.
    pub fn entries(&self) -> (entries: Vec<(String, TrustedDevice)>)
        ensures
            entries_view(entries@) == self@,
    {
        let n = self.entries.len();
        let mut out: Vec<(String, TrustedDevice)> = Vec::new();
        let mut i: usize = 0;
        while i < n
            invariant
                n == self.entries@.len(),
                0 <= i <= n,
                out@.len() == i,
                entries_view(out@) == entries_view(self.entries@).subrange(0, i as int),
            decreases n - i,
        {
            let e = (self.entries[i].0.clone(), self.entries[i].1.clone());
            let ghost prev = out@;
            out.push(e);
            assert forall|k: int| 0 <= k < i + 1 implies #[trigger] entries_view(out@)[k]
                == entries_view(self.entries@)[k] by {
                if k < i {
                    assert(entries_view(prev)[k] == entries_view(self.entries@).subrange(
                        0,
                        i as int,
                    )[k]);
                }
            }
            i = i + 1;
            assert(entries_view(out@) =~= entries_view(self.entries@).subrange(0, i as int));
        }
        assert(entries_view(self.entries@).subrange(0, n as int) =~= entries_view(self.entries@));
        out
    }
}

/// Whether a device with static key `remote_pub` has been accepted before.
pub fn is_trusted(store: &TrustStore, remote_pub: &[u8; 32]) -> (trusted: bool)
    ensures
        trusted == (keyed_lookup(store@, hex_chars(remote_pub@)) is Some),
{
    let key = hex_encode(remote_pub);
    find_key(&store.entries, key.as_str()).is_some()
}

/// Remembers that the device with static key `remote_pub` was accepted.
pub fn add_trusted(
    store: &mut TrustStore,
    remote_pub: &[u8; 32],
    device_id: &str,
    device_name: &str,
    device_type: &str,
)
    requires
        old(store).wf(),
    ensures
        final(store).wf(),
        final(store)@ == keyed_upsert(
            old(store)@,
            hex_chars(remote_pub@),
            trusted_record(remote_pub@, device_id@, device_name@, device_type@),
        ),
{
    let key = hex_encode(remote_pub);
    let device = TrustedDevice {
        device_id: device_id.to_owned(),
        device_name: device_name.to_owned(),
        device_type: device_type.to_owned(),
        x25519_pub_hex: hex_encode(remote_pub),
    };
    store.insert(key, device);
}

/// Every trusted device, in the order first trusted.
pub fn trusted_devices(store: &TrustStore) -> (devices: Vec<TrustedDevice>)
    ensures
        devices@.map_values(|d: TrustedDevice| d@) == keyed_values(store@),
{
    let entries = store.entries();
    let n = entries.len();
    let mut out: Vec<TrustedDevice> = Vec::new();
    let mut i: usize = 0;
    while i < n
        invariant
            n == entries@.len(),
            entries_view(entries@) == store@,
            0 <= i <= n,
            out@.len() == i,
            out@.map_values(|d: TrustedDevice| d@) == keyed_values(store@).subrange(0, i as int),
        decreases n - i,
    {
        assert(store@[i as int] == entry_view(entries@[i as int]));
        let d = entries[i].1.clone();
        let ghost prev = out@;
        out.push(d);
        assert forall|k: int| 0 <= k < i + 1 implies #[trigger] out@[k]@ == keyed_values(
            store@,
        )[k] by {
            if k < i {
                assert(prev.map_values(|d: TrustedDevice| d@)[k] == keyed_values(store@).subrange(
                    0,
                    i as int,
                )[k]);
            }
        }
        i = i + 1;
        assert(out@.map_values(|d: TrustedDevice| d@) =~= keyed_values(store@).subrange(
            0,
            i as int,
        ));
    }
    assert(keyed_values(store@).subrange(0, n as int) =~= keyed_values(store@));
    out
}

/// Once a device has been accepted, a later connection with the same
/// static key is trusted, and its record is the one just stored.
pub proof fn lemma_trusted_after_add(
    store: Seq<(Seq<char>, TrustedDeviceView)>,
    remote_pub: Seq<u8>,
    device_id: Seq<char>,
    device_name: Seq<char>,
    device_type: Seq<char>,
)
    requires
        keys_unique(store),
    ensures
        keyed_lookup(
            keyed_upsert(
                store,
                hex_chars(remote_pub),
                trusted_record(remote_pub, device_id, device_name, device_type),
            ),
            hex_chars(remote_pub),
        ) == Some(trusted_record(remote_pub, device_id, device_name, device_type)),
{
    lemma_keyed_upsert(
        store,
        hex_chars(remote_pub),
        trusted_record(remote_pub, device_id, device_name, device_type),
    );
}

/// Accepting one device trusts no other key: whether any other static key
/// is trusted stays as it was.
pub proof fn lemma_add_trusts_no_other_key(
    store: Seq<(Seq<char>, TrustedDeviceView)>,
    remote_pub: Seq<u8>,
    other_pub: Seq<u8>,
    device_id: Seq<char>,
    device_name: Seq<char>,
    device_type: Seq<char>,
)
    requires
        keys_unique(store),
        other_pub != remote_pub,
    ensures
        keyed_lookup(
            keyed_upsert(
                store,
                hex_chars(remote_pub),
                trusted_record(remote_pub, device_id, device_name, device_type),
            ),
            hex_chars(other_pub),
        ) == keyed_lookup(store, hex_chars(other_pub)),
{
    if hex_chars(other_pub) == hex_chars(remote_pub) {
        lemma_hex_injective(other_pub, remote_pub);
    }
    lemma_keyed_upsert(
        store,
        hex_chars(remote_pub),
        trusted_record(remote_pub, device_id, device_name, device_type),
    );
}

} // verus!
