//! HyprConnect: device continuity between a phone and a desktop.
//!
//! The verified core of the protocol: device identities, the pairing
//! fingerprint, the trust store, discovery bookkeeping and dialing
//! decisions, Noise framing, packets and the session dispatcher.

pub mod daemon;
pub mod discovery;
pub mod features;
pub mod hexcode;
pub mod identity;
pub mod json;
pub mod keyed;
pub mod noise;
pub mod packet;
pub mod pairing;
pub mod protocol;
pub mod session;
pub mod text;
pub mod trust;

use vstd::prelude::*;
use vstd::string::StringExecFns;

use crate::discovery::{
    DialTarget, DiscoveredDevice, DiscoveredDeviceView, DiscoveryRegistry, dial_target,
    get_discovered, lookup,
};
use crate::keyed::{
    entries_view, entry_view, find_key, keyed_insert_absent, keyed_lookup, keyed_upsert,
    key_position, keyed_values, keys_unique, lemma_key_position, lemma_key_position_unique,
    lemma_keyed_insert_absent, lemma_keyed_upsert,
};
use crate::pairing::{CallbackSlot, PairingState};
use crate::text::push_decimal;
use crate::trust::{TrustedDevice, TrustedDeviceView};

verus! {

/// The errors the device-facing API reports.
pub enum HyprConnectError {
    DeviceNotFound,
    NotPaired,
    PairingInProgress,
    Transport(String),
}

impl HyprConnectError {
    /// The text the error is shown with.
    pub open spec fn spec_message(&self) -> Seq<char> {
        match self {
            HyprConnectError::DeviceNotFound => "device not found"@,
            HyprConnectError::NotPaired => "not paired with this device"@,
            HyprConnectError::PairingInProgress => "another pairing is already in progress"@,
            HyprConnectError::Transport(detail) => "transport error: "@ + detail@,
        }
    }

    /// The text the error is shown with.
    pub fn message(&self) -> (text: String)
        ensures
            text@ == self.spec_message(),
    {
        match self {
            HyprConnectError::DeviceNotFound => "device not found".to_owned(),
            HyprConnectError::NotPaired => "not paired with this device".to_owned(),
            HyprConnectError::PairingInProgress => "another pairing is already in progress".to_owned(),
            HyprConnectError::Transport(detail) => {
                let mut text = "transport error: ".to_owned();
                text.append(detail.as_str());
                text
            },
        }
    }
}

/// A device as the user interface lists it.
pub struct DeviceInfo {
    pub device_id: String,
    pub device_name: String,
    pub device_type: String,
    /// Whether the user has accepted this device before.
    pub trusted: bool,
}

/// The plain contents of a [`DeviceInfo`].
pub struct DeviceInfoView {
    pub device_id: Seq<char>,
    pub device_name: Seq<char>,
    pub device_type: Seq<char>,
    pub trusted: bool,
}

impl View for DeviceInfo {
    type V = DeviceInfoView;

    open spec fn view(&self) -> DeviceInfoView {
        DeviceInfoView {
            device_id: self.device_id@,
            device_name: self.device_name@,
            device_type: self.device_type@,
            trusted: self.trusted,
        }
    }
}

impl Clone for DeviceInfo {
    fn clone(&self) -> (c: Self)
        ensures
            c@ == self@,
    {
        DeviceInfo {
            device_id: self.device_id.clone(),
            device_name: self.device_name.clone(),
            device_type: self.device_type.clone(),
            trusted: self.trusted,
        }
    }
}

/// How a trusted device is listed.
pub open spec fn trusted_info(t: TrustedDeviceView) -> DeviceInfoView {
    DeviceInfoView {
        device_id: t.device_id,
        device_name: t.device_name,
        device_type: t.device_type,
        trusted: true,
    }
}

/// How a discovered, not yet trusted device is listed.
pub open spec fn discovered_info(d: DiscoveredDeviceView) -> DeviceInfoView {
    DeviceInfoView {
        device_id: d.device_id,
        device_name: d.device_name,
        device_type: d.device_type,
        trusted: false,
    }
}

/// The trusted devices keyed by device id; a later record of an id
/// replaces an earlier one.
pub open spec fn merge_trusted(ts: Seq<TrustedDeviceView>) -> Seq<(Seq<char>, DeviceInfoView)>
    decreases ts.len(),
{
    if ts.len() == 0 {
        Seq::empty()
    } else {
        keyed_upsert(merge_trusted(ts.drop_last()), ts.last().device_id, trusted_info(ts.last()))
    }
}

/// The discovered devices added to `acc` under ids it does not hold yet;
/// the first discovery of an id wins.
pub open spec fn merge_discovered(
    acc: Seq<(Seq<char>, DeviceInfoView)>,
    ds: Seq<DiscoveredDeviceView>,
) -> Seq<(Seq<char>, DeviceInfoView)>
    decreases ds.len(),
{
    if ds.len() == 0 {
        acc
    } else {
        keyed_insert_absent(
            merge_discovered(acc, ds.drop_last()),
            ds.last().device_id,
            discovered_info(ds.last()),
        )
    }
}

/// The list the user sees: every trusted device, and every discovered
/// device whose id is not trusted, once per device id.
pub open spec fn spec_list_devices(
    ts: Seq<TrustedDeviceView>,
    ds: Seq<DiscoveredDeviceView>,
) -> Seq<DeviceInfoView> {
    keyed_values(merge_discovered(merge_trusted(ts), ds))
}

proof fn lemma_merge_trusted_unique(ts: Seq<TrustedDeviceView>)
    ensures
        keys_unique(merge_trusted(ts)),
    decreases ts.len(),
{
    if ts.len() > 0 {
        lemma_merge_trusted_unique(ts.drop_last());
        lemma_keyed_upsert(
            merge_trusted(ts.drop_last()),
            ts.last().device_id,
            trusted_info(ts.last()),
        );
    }
}

proof fn lemma_merge_discovered_unique(
    acc: Seq<(Seq<char>, DeviceInfoView)>,
    ds: Seq<DiscoveredDeviceView>,
)
    requires
        keys_unique(acc),
    ensures
        keys_unique(merge_discovered(acc, ds)),
    decreases ds.len(),
{
    if ds.len() > 0 {
        lemma_merge_discovered_unique(acc, ds.drop_last());
        lemma_keyed_insert_absent(
            merge_discovered(acc, ds.drop_last()),
            ds.last().device_id,
            discovered_info(ds.last()),
        );
    }
}

fn info_upsert(acc: &mut Vec<(String, DeviceInfo)>, info: DeviceInfo)
    requires
        keys_unique(entries_view(old(acc)@)),
    ensures
        keys_unique(entries_view(final(acc)@)),
        entries_view(final(acc)@) == keyed_upsert(entries_view(old(acc)@), info@.device_id, info@),
{
    proof {
        lemma_keyed_upsert(entries_view(acc@), info@.device_id, info@);
    }
    let ghost iv = info@;
    let key = info.device_id.clone();
    match find_key(acc, key.as_str()) {
        Some(p) => {
            acc.set(p, (key, info));
            assert(entries_view(acc@) =~= entries_view(old(acc)@).update(p as int, (iv.device_id, iv)));
        },
        None => {
            acc.push((key, info));
            assert(entries_view(acc@) =~= entries_view(old(acc)@).push((iv.device_id, iv)));
        },
    }
}

fn info_insert_absent(acc: &mut Vec<(String, DeviceInfo)>, info: DeviceInfo)
    requires
        keys_unique(entries_view(old(acc)@)),
    ensures
        keys_unique(entries_view(final(acc)@)),
        entries_view(final(acc)@) == keyed_insert_absent(
            entries_view(old(acc)@),
            info@.device_id,
            info@,
        ),
{
    proof {
        lemma_keyed_insert_absent(entries_view(acc@), info@.device_id, info@);
    }
    let ghost iv = info@;
    let key = info.device_id.clone();
    match find_key(acc, key.as_str()) {
        Some(_) => {},
        None => {
            acc.push((key, info));
            assert(entries_view(acc@) =~= entries_view(old(acc)@).push((iv.device_id, iv)));
        },
    }
}

/// The devices to show the user: every trusted device marked trusted, and
/// every discovered device whose id no trusted device has, marked
/// untrusted; each device id once.
pub fn list_devices(
    trusted: &Vec<TrustedDevice>,
    discovered: &Vec<DiscoveredDevice>,
) -> (devices: Vec<DeviceInfo>)
    ensures
        devices@.map_values(|d: DeviceInfo| d@) == spec_list_devices(
            trusted@.map_values(|t: TrustedDevice| t@),
            discovered@.map_values(|d: DiscoveredDevice| d@),
        ),
{
    let ghost ts = trusted@.map_values(|t: TrustedDevice| t@);
    let ghost ds = discovered@.map_values(|d: DiscoveredDevice| d@);
    let mut acc: Vec<(String, DeviceInfo)> = Vec::new();
    assert(entries_view(acc@) =~= merge_trusted(ts.take(0)));
    let nt = trusted.len();
    let mut i: usize = 0;
    while i < nt
        invariant
            nt == trusted@.len(),
            ts == trusted@.map_values(|t: TrustedDevice| t@),
            0 <= i <= nt,
            keys_unique(entries_view(acc@)),
            entries_view(acc@) == merge_trusted(ts.take(i as int)),
        decreases nt - i,
    {
        let t = &trusted[i];
        let info = DeviceInfo {
            device_id: t.device_id.clone(),
            device_name: t.device_name.clone(),
            device_type: t.device_type.clone(),
            trusted: true,
        };
        assert(ts.take(i + 1).drop_last() =~= ts.take(i as int));
        assert(ts.take(i + 1).last() == ts[i as int]);
        info_upsert(&mut acc, info);
        i = i + 1;
    }
    assert(ts.take(nt as int) =~= ts);
    let ghost base = merge_trusted(ts);
    assert(entries_view(acc@) == merge_discovered(base, ds.take(0)));
    let nd = discovered.len();
    let mut j: usize = 0;
    while j < nd
        invariant
            nd == discovered@.len(),
            ds == discovered@.map_values(|d: DiscoveredDevice| d@),
            0 <= j <= nd,
            keys_unique(entries_view(acc@)),
            entries_view(acc@) == merge_discovered(base, ds.take(j as int)),
        decreases nd - j,
    {
        let d = &discovered[j];
        let info = DeviceInfo {
            device_id: d.device_id.clone(),
            device_name: d.device_name.clone(),
            device_type: d.device_type.clone(),
            trusted: false,
        };
        assert(ds.take(j + 1).drop_last() =~= ds.take(j as int));
        assert(ds.take(j + 1).last() == ds[j as int]);
        info_insert_absent(&mut acc, info);
        j = j + 1;
    }
    assert(ds.take(nd as int) =~= ds);
    let n = acc.len();
    let mut out: Vec<DeviceInfo> = Vec::new();
    let mut k: usize = 0;
    while k < n
        invariant
            n == acc@.len(),
            entries_view(acc@) == merge_discovered(base, ds),
            0 <= k <= n,
            out@.len() == k,
            out@.map_values(|d: DeviceInfo| d@) == keyed_values(entries_view(acc@)).subrange(
                0,
                k as int,
            ),
        decreases n - k,
    {
        assert(entries_view(acc@)[k as int] == entry_view(acc@[k as int]));
        let item = acc[k].1.clone();
        let ghost prev = out@;
        out.push(item);
        assert forall|m: int| 0 <= m < k + 1 implies #[trigger] out@[m]@ == keyed_values(
            entries_view(acc@),
        )[m] by {
            if m < k {
                assert(prev.map_values(|d: DeviceInfo| d@)[m] == keyed_values(
                    entries_view(acc@),
                ).subrange(0, k as int)[m]);
            }
        }
        k = k + 1;
        assert(out@.map_values(|d: DeviceInfo| d@) =~= keyed_values(entries_view(acc@)).subrange(
            0,
            k as int,
        ));
    }
    assert(keyed_values(entries_view(acc@)).subrange(0, n as int) =~= keyed_values(
        entries_view(acc@),
    ));
    out
}

proof fn lemma_merge_trusted_lookup(ts: Seq<TrustedDeviceView>, id: Seq<char>)
    ensures
        (keyed_lookup(merge_trusted(ts), id) is Some) == (exists|i: int|
            0 <= i < ts.len() && #[trigger] ts[i].device_id == id),
        keyed_lookup(merge_trusted(ts), id) matches Some(v) ==> exists|i: int|
            0 <= i < ts.len() && #[trigger] ts[i].device_id == id && v == trusted_info(ts[i]),
    decreases ts.len(),
{
    if ts.len() > 0 {
        let prev = ts.drop_last();
        lemma_merge_trusted_lookup(prev, id);
        lemma_merge_trusted_unique(prev);
        lemma_keyed_upsert(merge_trusted(prev), ts.last().device_id, trusted_info(ts.last()));
        if id == ts.last().device_id {
            assert(ts[ts.len() - 1].device_id == id);
        } else {
            assert(keyed_lookup(merge_trusted(ts), id) == keyed_lookup(merge_trusted(prev), id));
            if exists|i: int| 0 <= i < ts.len() && #[trigger] ts[i].device_id == id {
                let i = choose|i: int| 0 <= i < ts.len() && #[trigger] ts[i].device_id == id;
                assert(prev[i].device_id == id);
            }
            if let Some(v) = keyed_lookup(merge_trusted(prev), id) {
                let i = choose|i: int|
                    0 <= i < prev.len() && #[trigger] prev[i].device_id == id && v == trusted_info(
                        prev[i],
                    );
                assert(ts[i] == prev[i]);
            }
        }
    }
}

proof fn lemma_merge_discovered_lookup(
    acc: Seq<(Seq<char>, DeviceInfoView)>,
    ds: Seq<DiscoveredDeviceView>,
    id: Seq<char>,
)
    requires
        keys_unique(acc),
    ensures
        keyed_lookup(acc, id) is Some ==> keyed_lookup(merge_discovered(acc, ds), id)
            == keyed_lookup(acc, id),
        keyed_lookup(acc, id) is None ==> (keyed_lookup(merge_discovered(acc, ds), id) is Some)
            == (exists|j: int| 0 <= j < ds.len() && #[trigger] ds[j].device_id == id),
        keyed_lookup(acc, id) is None ==> (keyed_lookup(merge_discovered(acc, ds), id) matches Some(
            v,
        ) ==> exists|j: int|
            0 <= j < ds.len() && #[trigger] ds[j].device_id == id && v == discovered_info(ds[j])),
    decreases ds.len(),
{
    if ds.len() > 0 {
        let prev = ds.drop_last();
        lemma_merge_discovered_lookup(acc, prev, id);
        lemma_merge_discovered_unique(acc, prev);
        lemma_keyed_insert_absent(
            merge_discovered(acc, prev),
            ds.last().device_id,
            discovered_info(ds.last()),
        );
        if id == ds.last().device_id {
            assert(ds[ds.len() - 1].device_id == id);
            if let Some(v) = keyed_lookup(merge_discovered(acc, prev), id) {
                if keyed_lookup(acc, id) is None {
                    let j = choose|j: int|
                        0 <= j < prev.len() && #[trigger] prev[j].device_id == id && v
                            == discovered_info(prev[j]);
                    assert(ds[j] == prev[j]);
                }
            }
        } else {
            if exists|j: int| 0 <= j < ds.len() && #[trigger] ds[j].device_id == id {
                let j = choose|j: int| 0 <= j < ds.len() && #[trigger] ds[j].device_id == id;
                assert(prev[j].device_id == id);
            }
            if let Some(v) = keyed_lookup(merge_discovered(acc, prev), id) {
                if keyed_lookup(acc, id) is None {
                    let j = choose|j: int|
                        0 <= j < prev.len() && #[trigger] prev[j].device_id == id && v
                            == discovered_info(prev[j]);
                    assert(ds[j] == prev[j]);
                }
            }
        }
    }
}

/// How a device id appears in the list the user sees: once at most; as a
/// trusted device when some trusted record has the id, taken from such a
/// record; otherwise as an untrusted device when it was discovered, taken
/// from its discovery; and not at all when it is neither.
pub proof fn lemma_list_devices_entry(
    ts: Seq<TrustedDeviceView>,
    ds: Seq<DiscoveredDeviceView>,
    id: Seq<char>,
)
    ensures
        keys_unique(merge_discovered(merge_trusted(ts), ds)),
        (exists|i: int| 0 <= i < ts.len() && #[trigger] ts[i].device_id == id) ==> (keyed_lookup(
            merge_discovered(merge_trusted(ts), ds),
            id,
        ) matches Some(v) && v.trusted && exists|i: int|
            0 <= i < ts.len() && #[trigger] ts[i].device_id == id && v == trusted_info(ts[i])),
        !(exists|i: int| 0 <= i < ts.len() && #[trigger] ts[i].device_id == id) && (exists|j: int|
            0 <= j < ds.len() && #[trigger] ds[j].device_id == id) ==> (keyed_lookup(
            merge_discovered(merge_trusted(ts), ds),
            id,
        ) matches Some(v) && !v.trusted && exists|j: int|
            0 <= j < ds.len() && #[trigger] ds[j].device_id == id && v == discovered_info(ds[j])),
        !(exists|i: int| 0 <= i < ts.len() && #[trigger] ts[i].device_id == id) && !(exists|j: int|
            0 <= j < ds.len() && #[trigger] ds[j].device_id == id) ==> keyed_lookup(
            merge_discovered(merge_trusted(ts), ds),
            id,
        ) is None,
{
    lemma_merge_trusted_unique(ts);
    lemma_merge_discovered_unique(merge_trusted(ts), ds);
    lemma_merge_trusted_lookup(ts, id);
    lemma_merge_discovered_lookup(merge_trusted(ts), ds, id);
}

/// Each entry of `m` is stored under its own device id.
pub open spec fn keyed_by_id(m: Seq<(Seq<char>, DeviceInfoView)>) -> bool {
    forall|k: int| 0 <= k < m.len() ==> (#[trigger] m[k]).1.device_id == m[k].0
}

proof fn lemma_keyed_by_id_step(m: Seq<(Seq<char>, DeviceInfoView)>, v: DeviceInfoView)
    requires
        keyed_by_id(m),
    ensures
        keyed_by_id(keyed_upsert(m, v.device_id, v)),
        keyed_by_id(keyed_insert_absent(m, v.device_id, v)),
{
    lemma_key_position(m, v.device_id);
    let u = keyed_upsert(m, v.device_id, v);
    assert forall|k: int| 0 <= k < u.len() implies (#[trigger] u[k]).1.device_id == u[k].0 by {
        if k < m.len() {
            assert(m[k].1.device_id == m[k].0);
        }
    }
    let w = keyed_insert_absent(m, v.device_id, v);
    assert forall|k: int| 0 <= k < w.len() implies (#[trigger] w[k]).1.device_id == w[k].0 by {
        if k < m.len() {
            assert(m[k].1.device_id == m[k].0);
        }
    }
}

proof fn lemma_merge_keyed_by_id(ts: Seq<TrustedDeviceView>, ds: Seq<DiscoveredDeviceView>)
    ensures
        keyed_by_id(merge_trusted(ts)),
        keyed_by_id(merge_discovered(merge_trusted(ts), ds)),
    decreases ts.len() + ds.len(),
{
    if ds.len() > 0 {
        lemma_merge_keyed_by_id(ts, ds.drop_last());
        lemma_keyed_by_id_step(
            merge_discovered(merge_trusted(ts), ds.drop_last()),
            discovered_info(ds.last()),
        );
    } else if ts.len() > 0 {
        lemma_merge_keyed_by_id(ts.drop_last(), ds);
        lemma_keyed_by_id_step(merge_trusted(ts.drop_last()), trusted_info(ts.last()));
    }
}

/// The device ids of a list, in order.
pub open spec fn listed_ids(list: Seq<DeviceInfoView>) -> Seq<Seq<char>> {
    list.map_values(|r: DeviceInfoView| r.device_id)
}

/// The ids of the trusted devices.
pub open spec fn trusted_ids(ts: Seq<TrustedDeviceView>) -> Set<Seq<char>> {
    ts.map_values(|t: TrustedDeviceView| t.device_id).to_set()
}

/// The ids of the discovered devices.
pub open spec fn discovered_ids(ds: Seq<DiscoveredDeviceView>) -> Set<Seq<char>> {
    ds.map_values(|d: DiscoveredDeviceView| d.device_id).to_set()
}

proof fn lemma_listed_entry(ts: Seq<TrustedDeviceView>, ds: Seq<DiscoveredDeviceView>, k: int)
    requires
        0 <= k < spec_list_devices(ts, ds).len(),
    ensures
        keyed_lookup(merge_discovered(merge_trusted(ts), ds), spec_list_devices(ts, ds)[k].device_id)
            == Some(spec_list_devices(ts, ds)[k]),
{
    let m = merge_discovered(merge_trusted(ts), ds);
    lemma_merge_keyed_by_id(ts, ds);
    lemma_list_devices_entry(ts, ds, m[k].0);
    assert(m[k].1.device_id == m[k].0);
    lemma_key_position_unique(m, m[k].0, k);
}

/// Every device in the list the user sees is listed as trusted exactly
/// when some trusted record has its id; a trusted one shows such a
/// record's name and type (the trust store wins over discovery), an
/// untrusted one those of a discovery of its id.
pub proof fn lemma_list_devices_trusted_wins(
    ts: Seq<TrustedDeviceView>,
    ds: Seq<DiscoveredDeviceView>,
    k: int,
)
    requires
        0 <= k < spec_list_devices(ts, ds).len(),
    ensures
        spec_list_devices(ts, ds)[k].trusted == (exists|i: int|
            0 <= i < ts.len() && #[trigger] ts[i].device_id == spec_list_devices(ts, ds)[k].device_id),
        spec_list_devices(ts, ds)[k].trusted ==> exists|i: int|
            0 <= i < ts.len() && #[trigger] ts[i].device_id == spec_list_devices(ts, ds)[k].device_id
                && spec_list_devices(ts, ds)[k] == trusted_info(ts[i]),
        !spec_list_devices(ts, ds)[k].trusted ==> exists|j: int|
            0 <= j < ds.len() && #[trigger] ds[j].device_id == spec_list_devices(ts, ds)[k].device_id
                && spec_list_devices(ts, ds)[k] == discovered_info(ds[j]),
{
    let r = spec_list_devices(ts, ds)[k];
    lemma_listed_entry(ts, ds, k);
    lemma_list_devices_entry(ts, ds, r.device_id);
}

/// The list the user sees holds each device id once, and its ids are
/// exactly those of the trusted devices and the discovered ones together;
/// so its length is the number of distinct ids among them.
pub proof fn lemma_list_devices_union(ts: Seq<TrustedDeviceView>, ds: Seq<DiscoveredDeviceView>)
    ensures
        listed_ids(spec_list_devices(ts, ds)).no_duplicates(),
        listed_ids(spec_list_devices(ts, ds)).to_set() == trusted_ids(ts).union(discovered_ids(ds)),
        spec_list_devices(ts, ds).len() == trusted_ids(ts).union(discovered_ids(ds)).len(),
{
    let l = spec_list_devices(ts, ds);
    let ids = listed_ids(l);
    let m = merge_discovered(merge_trusted(ts), ds);
    lemma_merge_keyed_by_id(ts, ds);
    lemma_merge_trusted_unique(ts);
    lemma_merge_discovered_unique(merge_trusted(ts), ds);
    assert forall|a: int, b: int|
        0 <= a < ids.len() && 0 <= b < ids.len() && a != b implies ids[a] != ids[b] by {
        assert(m[a].1.device_id == m[a].0);
        assert(m[b].1.device_id == m[b].0);
    }
    let tids = ts.map_values(|t: TrustedDeviceView| t.device_id);
    let dids = ds.map_values(|d: DiscoveredDeviceView| d.device_id);
    assert forall|id: Seq<char>|
        ids.to_set().contains(id) == trusted_ids(ts).union(discovered_ids(ds)).contains(id) by {
        if ids.to_set().contains(id) {
            let k = choose|k: int| 0 <= k < ids.len() && ids[k] == id;
            lemma_list_devices_trusted_wins(ts, ds, k);
            if l[k].trusted {
                let i = choose|i: int| 0 <= i < ts.len() && #[trigger] ts[i].device_id == id;
                assert(tids[i] == id);
            } else {
                let j = choose|j: int| 0 <= j < ds.len() && #[trigger] ds[j].device_id == id;
                assert(dids[j] == id);
            }
        }
        if trusted_ids(ts).union(discovered_ids(ds)).contains(id) {
            if tids.contains(id) {
                let i = choose|i: int| 0 <= i < tids.len() && tids[i] == id;
                assert(ts[i].device_id == id);
            } else {
                let j = choose|j: int| 0 <= j < dids.len() && dids[j] == id;
                assert(ds[j].device_id == id);
            }
            lemma_list_devices_entry(ts, ds, id);
            lemma_key_position(m, id);
            let p = key_position(m, id)->0;
            assert(m[p].1.device_id == m[p].0);
            assert(ids[p] == id);
        }
    }
    assert(ids.to_set() =~= trusted_ids(ts).union(discovered_ids(ds)));
    ids.unique_seq_to_set();
}

/// What is dialed to pair with the device `device_id` from the discovery
/// list. Pairing is refused while another pairing waits on the user, for
/// a device that was never discovered, and for one without an IPv4 address.
pub fn pair<R>(
    pairing: &PairingState<R>,
    registry: &DiscoveryRegistry,
    device_id: &str,
) -> (target: Result<DialTarget, HyprConnectError>)
    ensures
        pairing.pending() is Some ==> target == Err::<DialTarget, HyprConnectError>(
            HyprConnectError::PairingInProgress,
        ),
        pairing.pending() is None ==> match lookup(registry@, device_id@) {
            None => target == Err::<DialTarget, HyprConnectError>(
                HyprConnectError::DeviceNotFound,
            ),
            Some(d) => match d.address {
                None => target matches Err(HyprConnectError::Transport(msg)) && msg@
                    == "device has no resolved IPv4 address"@,
                Some(a) => target matches Ok(t) && t.target@ == dial_target(a, d.port)
                    && t.remote_id@ == d.device_id && t.remote_name@ == d.device_name
                    && t.remote_type@ == d.device_type,
            },
        },
{
    if crate::pairing::is_pairing_in_progress(pairing) {
        return Err(HyprConnectError::PairingInProgress);
    }
    let device = match get_discovered(registry, device_id) {
        Some(d) => d,
        None => {
            return Err(HyprConnectError::DeviceNotFound);
        },
    };
    let address = match device.address {
        Some(a) => a,
        None => {
            return Err(HyprConnectError::Transport("device has no resolved IPv4 address".to_owned()));
        },
    };
    let mut target = address;
    target.push(':');
    push_decimal(&mut target, device.port as u64);
    proof {
        assert(target@ =~= dial_target(device@.address->0, device.port));
    }
    Ok(
        DialTarget {
            target,
            remote_id: device.device_id,
            remote_name: device.device_name,
            remote_type: device.device_type,
        },
    )
}

/// Makes `callback` the one that shows pairing codes.
pub fn register_callback<C>(callbacks: &mut CallbackSlot<C>, callback: C)
    ensures
        final(callbacks).callback() == Some(callback),
{
    crate::pairing::register_callback(callbacks, callback);
}

/// The user's answer for `device_id`: see [`pairing::confirm_pairing`].
pub fn confirm_pairing<R>(
    pairing: &mut PairingState<R>,
    device_id: String,
    accepted: bool,
) -> (deliver: Option<(R, bool)>)
    ensures
        match old(pairing).pending() {
            Some((id, responder)) => if id == device_id@ {
                deliver == Some((responder, accepted)) && final(pairing).pending() is None
            } else {
                deliver is None && final(pairing).pending() == old(pairing).pending()
            },
            None => deliver is None && final(pairing).pending() is None,
        },
{
    crate::pairing::confirm_pairing(pairing, device_id, accepted)
}

/// What the user interface shows a pairing code through.
pub trait DeviceEventCallback {
    /// Shows `code` for the pairing with `device_id`.
    fn on_pairing_code(&self, device_id: String, code: String);
}

} // verus!
