use vstd::prelude::*;

use crate::hexcode::{hex_chars, hex_encode, lemma_hex_injective};
use crate::keyed::{
    entries_view, find_key, keyed_lookup, keyed_upsert, keys_unique, lemma_keyed_upsert,
};
use crate::text::str_eq;

verus! {

/// A device accepted once, pinned to the certificate it showed then.
pub struct TrustedDevice {
    pub device_id: String,
    pub device_name: String,
    /// The device's certificate (DER) in lowercase hexadecimal.
    pub cert_der_hex: String,
}

/// The plain contents of a [`TrustedDevice`].
pub struct TrustedDeviceView {
    pub device_id: Seq<char>,
    pub device_name: Seq<char>,
    pub cert_der_hex: Seq<char>,
}

impl View for TrustedDevice {
    type V = TrustedDeviceView;

    open spec fn view(&self) -> TrustedDeviceView {
        TrustedDeviceView {
            device_id: self.device_id@,
            device_name: self.device_name@,
            cert_der_hex: self.cert_der_hex@,
        }
    }
}

impl Clone for TrustedDevice {
    fn clone(&self) -> (c: Self)
        ensures
            c@ == self@,
    {
        TrustedDevice {
            device_id: self.device_id.clone(),
            device_name: self.device_name.clone(),
            cert_der_hex: self.cert_der_hex.clone(),
        }
    }
}

/// The accepted devices, keyed by device id.
pub struct TrustStore {
    entries: Vec<(String, TrustedDevice)>,
}

impl View for TrustStore {
    type V = Seq<(Seq<char>, TrustedDeviceView)>;

    closed spec fn view(&self) -> Seq<(Seq<char>, TrustedDeviceView)> {
        entries_view(self.entries@)
    }
}

impl TrustStore {
    /// The store's invariant: no device id is stored twice.
    pub open spec fn wf(&self) -> bool {
        keys_unique(self@)
    }

    /// A store that trusts nobody.
    pub fn new() -> (store: Self)
        ensures
            store.wf(),
            store@ == Seq::<(Seq<char>, TrustedDeviceView)>::empty(),
    {
        let store = TrustStore { entries: Vec::new() };
        assert(store@ =~= Seq::<(Seq<char>, TrustedDeviceView)>::empty());
        store
    }

    /// Stores `device` under `key`, replacing what the key held.
    pub fn insert(&mut self, key: String, device: TrustedDevice)
        requires
            old(self).wf(),
        ensures
            final(self).wf(),
            final(self)@ == keyed_upsert(old(self)@, key@, device@),
    {
        proof {
            lemma_keyed_upsert(self@, key@, device@);
        }
        let ghost kv = key@;
        let ghost dv = device@;
        match find_key(&self.entries, key.as_str()) {
            Some(p) => {
                self.entries.set(p, (key, device));
                assert(self@ =~= old(self)@.update(p as int, (kv, dv)));
            },
            None => {
                self.entries.push((key, device));
                assert(self@ =~= old(self)@.push((kv, dv)));
            },
        }
    }
}

impl TrustStore {
    /// All entries, in the order their keys were first stored.
    pub fn entries(&self) -> (entries: Vec<(String, TrustedDevice)>)
        ensures
            entries_view(entries@) == self@,
    {
        let n = self.entries.len();
        let mut out: Vec<(String, TrustedDevice)> = Vec::new();
        let mut i: usize = 0;
        while i < n
            invariant
                n == self.entries@.len(),
                0 <= i <= n,
                out@.len() == i,
                entries_view(out@) == entries_view(self.entries@).subrange(0, i as int),
            decreases n - i,
        {
            let e = (self.entries[i].0.clone(), self.entries[i].1.clone());
            let ghost prev = out@;
            out.push(e);
            assert forall|k: int| 0 <= k < i + 1 implies #[trigger] entries_view(out@)[k]
                == entries_view(self.entries@)[k] by {
                if k < i {
                    assert(entries_view(prev)[k] == entries_view(self.entries@).subrange(
                        0,
                        i as int,
                    )[k]);
                }
            }
            i = i + 1;
            assert(entries_view(out@) =~= entries_view(self.entries@).subrange(0, i as int));
        }
        assert(entries_view(self.entries@).subrange(0, n as int) =~= entries_view(self.entries@));
        out
    }
}

/// The record stored for a device accepted with this certificate.
pub open spec fn pinned_record(
    device_id: Seq<char>,
    device_name: Seq<char>,
    cert_der: Seq<u8>,
) -> TrustedDeviceView {
    TrustedDeviceView { device_id, device_name, cert_der_hex: hex_chars(cert_der) }
}

/// Whether `device_id` was accepted with exactly this certificate.
pub open spec fn spec_is_trusted(
    store: Seq<(Seq<char>, TrustedDeviceView)>,
    device_id: Seq<char>,
    cert_der: Seq<u8>,
) -> bool {
    match keyed_lookup(store, device_id) {
        Some(d) => d.cert_der_hex == hex_chars(cert_der),
        None => false,
    }
}

/// Whether `device_id` was accepted before with the certificate it shows now.
pub fn is_trusted(store: &TrustStore, device_id: &str, cert_der: &[u8]) -> (trusted: bool)
    ensures
        trusted == spec_is_trusted(store@, device_id@, cert_der@),
{
    match find_key(&store.entries, device_id) {
        Some(p) => {
            let shown = hex_encode(cert_der);
            proof {
                assert(store@[p as int].1 == store.entries@[p as int].1@);
            }
            str_eq(store.entries[p].1.cert_der_hex.as_str(), shown.as_str())
        },
        None => false,
    }
}

/// Remembers that `device_id` was accepted with this certificate.
pub fn add_trusted(store: &mut TrustStore, device_id: &str, device_name: &str, cert_der: &[u8])
    requires
        old(store).wf(),
    ensures
        final(store).wf(),
        final(store)@ == keyed_upsert(
            old(store)@,
            device_id@,
            pinned_record(device_id@, device_name@, cert_der@),
        ),
{
    let device = TrustedDevice {
        device_id: device_id.to_owned(),
        device_name: device_name.to_owned(),
        cert_der_hex: hex_encode(cert_der),
    };
    store.insert(device_id.to_owned(), device);
}

/// After a device is accepted with a certificate, it is trusted when it
/// shows that certificate again, and not when it shows another one.
pub proof fn lemma_certificate_pinned(
    store: Seq<(Seq<char>, TrustedDeviceView)>,
    device_id: Seq<char>,
    device_name: Seq<char>,
    cert_der: Seq<u8>,
    shown: Seq<u8>,
)
    requires
        keys_unique(store),
    ensures
        spec_is_trusted(
            keyed_upsert(store, device_id, pinned_record(device_id, device_name, cert_der)),
            device_id,
            shown,
        ) == (shown == cert_der),
{
    lemma_keyed_upsert(store, device_id, pinned_record(device_id, device_name, cert_der));
    if hex_chars(cert_der) == hex_chars(shown) {
        lemma_hex_injective(cert_der, shown);
    }
}

} // verus!
