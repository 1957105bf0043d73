use vstd::prelude::*;
use vstd::string::StringExecFns;

use crate::text::{
    chars_lt, decimal, digits_value, lemma_chars_lt_trichotomy, lemma_decimal_reads_back, push_decimal,
    str_eq, str_lt,
};

verus! {

/// A peer seen on the local network through an mDNS announcement.
pub struct DiscoveredDevice {
    pub device_id: String,
    pub device_name: String,
    pub device_type: String,
    /// The first IPv4 address of the announcement, if it carried one.
    pub address: Option<String>,
    pub port: u16,
}

/// The plain contents of a [`DiscoveredDevice`].
pub struct DiscoveredDeviceView {
    pub device_id: Seq<char>,
    pub device_name: Seq<char>,
    pub device_type: Seq<char>,
    pub address: Option<Seq<char>>,
    pub port: u16,
}

/// The characters of an optional string.
pub open spec fn opt_chars(s: Option<String>) -> Option<Seq<char>> {
    match s {
        Some(t) => Some(t@),
        None => None,
    }
}

impl View for DiscoveredDevice {
    type V = DiscoveredDeviceView;

    open spec fn view(&self) -> DiscoveredDeviceView {
        DiscoveredDeviceView {
            device_id: self.device_id@,
            device_name: self.device_name@,
            device_type: self.device_type@,
            address: opt_chars(self.address),
            port: self.port,
        }
    }
}

fn clone_opt_string(s: &Option<String>) -> (c: Option<String>)
    ensures
        opt_chars(c) == opt_chars(*s),
{
    match s {
        Some(t) => Some(t.clone()),
        None => None,
    }
}

impl Clone for DiscoveredDevice {
    fn clone(&self) -> (c: Self)
        ensures
            c@ == self@,
    {
        DiscoveredDevice {
            device_id: self.device_id.clone(),
            device_name: self.device_name.clone(),
            device_type: self.device_type.clone(),
            address: clone_opt_string(&self.address),
            port: self.port,
        }
    }
}

/// No device id occurs twice.
pub open spec fn ids_unique(s: Seq<DiscoveredDeviceView>) -> bool {
    forall|i: int, j: int|
        0 <= i < s.len() && 0 <= j < s.len() && i != j ==> #[trigger] s[i].device_id
            != #[trigger] s[j].device_id
}

/// The position of the device with this id, searching from `i` on.
pub open spec fn position_from(s: Seq<DiscoveredDeviceView>, id: Seq<char>, i: int) -> Option<int>
    decreases s.len() - i,
{
    if i < 0 || i >= s.len() {
        None
    } else if s[i].device_id == id {
        Some(i)
    } else {
        position_from(s, id, i + 1)
    }
}

/// The position of the device with this id.
pub open spec fn position_of(s: Seq<DiscoveredDeviceView>, id: Seq<char>) -> Option<int> {
    position_from(s, id, 0)
}

/// The device with this id, if one was recorded.
pub open spec fn lookup(s: Seq<DiscoveredDeviceView>, id: Seq<char>) -> Option<DiscoveredDeviceView> {
    match position_of(s, id) {
        Some(i) => Some(s[i]),
        None => None,
    }
}

/// Records a device: it replaces the entry with its id, or is added last.
pub open spec fn upsert(s: Seq<DiscoveredDeviceView>, d: DiscoveredDeviceView) -> Seq<
    DiscoveredDeviceView,
> {
    match position_of(s, d.device_id) {
        Some(i) => s.update(i, d),
        None => s.push(d),
    }
}

/// The first device, from position `i` on, whose address is `address`.
pub open spec fn first_at_address_from(
    s: Seq<DiscoveredDeviceView>,
    address: Seq<char>,
    i: int,
) -> Option<DiscoveredDeviceView>
    decreases s.len() - i,
{
    if i < 0 || i >= s.len() {
        None
    } else if s[i].address == Some(address) {
        Some(s[i])
    } else {
        first_at_address_from(s, address, i + 1)
    }
}

proof fn lemma_position_from(s: Seq<DiscoveredDeviceView>, id: Seq<char>, i: int)
    requires
        0 <= i <= s.len(),
    ensures
        position_from(s, id, i) matches Some(k) ==> i <= k < s.len() && s[k].device_id == id
            && forall|j: int| i <= j < k ==> s[j].device_id != id,
        position_from(s, id, i) is None ==> forall|j: int| i <= j < s.len() ==> s[j].device_id
            != id,
    decreases s.len() - i,
{
    if i < s.len() {
        lemma_position_from(s, id, i + 1);
    }
}

/// The position of an id is the index that holds it; there is none
/// exactly when no entry holds it.
pub proof fn lemma_position_of(s: Seq<DiscoveredDeviceView>, id: Seq<char>)
    ensures
        position_of(s, id) matches Some(k) ==> 0 <= k < s.len() && s[k].device_id == id
            && forall|j: int| 0 <= j < k ==> s[j].device_id != id,
        position_of(s, id) is None ==> forall|j: int| 0 <= j < s.len() ==> s[j].device_id != id,
{
    lemma_position_from(s, id, 0);
}

proof fn lemma_position_unique(s: Seq<DiscoveredDeviceView>, id: Seq<char>, k: int)
    requires
        ids_unique(s),
        0 <= k < s.len(),
        s[k].device_id == id,
    ensures
        position_of(s, id) == Some(k),
{
    lemma_position_of(s, id);
    if let Some(p) = position_of(s, id) {
        if p != k {
            assert(s[p].device_id == s[k].device_id);
        }
    }
}

/// Recording a device keeps the ids unique.
pub proof fn lemma_upsert_unique(s: Seq<DiscoveredDeviceView>, d: DiscoveredDeviceView)
    requires
        ids_unique(s),
    ensures
        ids_unique(upsert(s, d)),
{
    lemma_position_of(s, d.device_id);
    let t = upsert(s, d);
    assert forall|i: int, j: int|
        0 <= i < t.len() && 0 <= j < t.len() && i != j implies #[trigger] t[i].device_id
        != #[trigger] t[j].device_id by {
        if position_of(s, d.device_id) is None {
            if i < s.len() && j < s.len() {
                assert(s[i].device_id != s[j].device_id);
            }
        } else {
            assert(s[i].device_id != s[j].device_id);
        }
    }
}

/// A device that was just recorded is the one found under its id.
pub proof fn lemma_lookup_upsert_same(s: Seq<DiscoveredDeviceView>, d: DiscoveredDeviceView)
    requires
        ids_unique(s),
    ensures
        lookup(upsert(s, d), d.device_id) == Some(d),
{
    lemma_position_of(s, d.device_id);
    lemma_upsert_unique(s, d);
    let t = upsert(s, d);
    match position_of(s, d.device_id) {
        Some(k) => {
            lemma_position_unique(t, d.device_id, k);
        },
        None => {
            lemma_position_unique(t, d.device_id, s.len() as int);
        },
    }
}

/// Recording a device leaves what is found under every other id as it was.
pub proof fn lemma_lookup_upsert_other(
    s: Seq<DiscoveredDeviceView>,
    d: DiscoveredDeviceView,
    id: Seq<char>,
)
    requires
        ids_unique(s),
        id != d.device_id,
    ensures
        lookup(upsert(s, d), id) == lookup(s, id),
{
    lemma_position_of(s, d.device_id);
    lemma_position_of(s, id);
    lemma_upsert_unique(s, d);
    let t = upsert(s, d);
    lemma_position_of(t, id);
    match position_of(s, id) {
        Some(k) => {
            lemma_position_unique(t, id, k);
        },
        None => {
            assert forall|j: int| 0 <= j < t.len() implies t[j].device_id != id by {
                if j < s.len() {
                    assert(s[j].device_id != id);
                }
            }
        },
    }
}

/// The devices seen so far, each under its own id.
pub struct DiscoveryRegistry {
    devices: Vec<DiscoveredDevice>,
}

impl View for DiscoveryRegistry {
    type V = Seq<DiscoveredDeviceView>;

    closed spec fn view(&self) -> Seq<DiscoveredDeviceView> {
        self.devices@.map_values(|d: DiscoveredDevice| d@)
    }
}

impl DiscoveryRegistry {
    /// The registry's invariant: no id is recorded twice.
    pub open spec fn wf(&self) -> bool {
        ids_unique(self@)
    }

    /// An empty registry.
    pub fn new() -> (r: Self)
        ensures
            r.wf(),
            r@ == Seq::<DiscoveredDeviceView>::empty(),
    {
        let r = DiscoveryRegistry { devices: Vec::new() };
        assert(r@ =~= Seq::<DiscoveredDeviceView>::empty());
        r
    }

    fn find_position(&self, device_id: &str) -> (pos: Option<usize>)
        ensures
            match pos {
                Some(p) => position_of(self@, device_id@) == Some(p as int) && p
                    < self.devices@.len(),
                None => position_of(self@, device_id@) is None,
            },
    {
        let n = self.devices.len();
        let mut i: usize = 0;
        while i < n
            invariant
                n == self.devices@.len(),
                self@.len() == n,
                0 <= i <= n,
                position_of(self@, device_id@) == position_from(self@, device_id@, i as int),
            decreases n - i,
        {
            assert(self@[i as int] == self.devices@[i as int]@);
            if str_eq(self.devices[i].device_id.as_str(), device_id) {
                return Some(i);
            }
            i = i + 1;
        }
        None
    }

    /// Records what an announcement said about a device, replacing what
    /// was known of it before.
    pub fn record(&mut self, device: DiscoveredDevice)
        requires
            old(self).wf(),
        ensures
            final(self).wf(),
            final(self)@ == upsert(old(self)@, device@),
    {
        proof {
            lemma_upsert_unique(self@, device@);
        }
        match self.find_position(device.device_id.as_str()) {
            Some(p) => {
                let ghost dv = device@;
                assert(self@.len() == self.devices@.len());
                self.devices.set(p, device);
                assert(self@ =~= old(self)@.update(p as int, dv));
            },
            None => {
                let ghost dv = device@;
                self.devices.push(device);
                assert(self@ =~= old(self)@.push(dv));
            },
        }
    }
}

/// Every device seen so far, in the order first seen.
pub fn discovered_devices(registry: &DiscoveryRegistry) -> (devices: Vec<DiscoveredDevice>)
    ensures
        devices@.map_values(|d: DiscoveredDevice| d@) == registry@,
{
    let n = registry.devices.len();
    let mut out: Vec<DiscoveredDevice> = Vec::new();
    let mut i: usize = 0;
    while i < n
        invariant
            n == registry.devices@.len(),
            registry@.len() == n,
            0 <= i <= n,
            out@.len() == i,
            out@.map_values(|d: DiscoveredDevice| d@) == registry@.subrange(0, i as int),
        decreases n - i,
    {
        assert(registry@[i as int] == registry.devices@[i as int]@);
        let d = registry.devices[i].clone();
        let ghost prev = out@;
        out.push(d);
        assert(out@ == prev.push(d));
        assert forall|k: int| 0 <= k < i + 1 implies #[trigger] out@[k]@ == registry@[k] by {
            if k < i {
                assert(prev.map_values(|d: DiscoveredDevice| d@)[k] == registry@.subrange(
                    0,
                    i as int,
                )[k]);
            }
        }
        i = i + 1;
        assert(out@.map_values(|d: DiscoveredDevice| d@) =~= registry@.subrange(0, i as int));
    }
    assert(registry@.subrange(0, n as int) =~= registry@);
    out
}

/// The device recorded under `device_id`, if any.
pub fn get_discovered(
    registry: &DiscoveryRegistry,
    device_id: &str,
) -> (found: Option<DiscoveredDevice>)
    ensures
        match found {
            Some(d) => lookup(registry@, device_id@) == Some(d@),
            None => lookup(registry@, device_id@) is None,
        },
{
    match registry.find_position(device_id) {
        Some(p) => {
            assert(registry@[p as int] == registry.devices@[p as int]@);
            Some(registry.devices[p].clone())
        },
        None => None,
    }
}

/// The first recorded device whose IPv4 address is `address`, if any.
pub fn get_discovered_by_address(
    registry: &DiscoveryRegistry,
    address: &str,
) -> (found: Option<DiscoveredDevice>)
    ensures
        match found {
            Some(d) => first_at_address_from(registry@, address@, 0) == Some(d@),
            None => first_at_address_from(registry@, address@, 0) is None,
        },
{
    let n = registry.devices.len();
    let mut i: usize = 0;
    while i < n
        invariant
            n == registry.devices@.len(),
            registry@.len() == n,
            0 <= i <= n,
            first_at_address_from(registry@, address@, 0) == first_at_address_from(
                registry@,
                address@,
                i as int,
            ),
        decreases n - i,
    {
        assert(registry@[i as int] == registry.devices@[i as int]@);
        match &registry.devices[i].address {
            Some(a) => {
                if str_eq(a.as_str(), address) {
                    return Some(registry.devices[i].clone());
                }
            },
            None => {},
        }
        i = i + 1;
    }
    None
}

/// One address of an mDNS announcement, as the network layer reports it.
pub struct AnnouncedAddress {
    pub is_ipv4: bool,
    /// The address written out, as `Display` writes it.
    pub text: String,
}

/// What a resolved mDNS service announcement says about a peer.
pub struct ServiceAnnouncement {
    /// The `device_id` TXT property, if present.
    pub device_id: Option<String>,
    /// The `device_name` TXT property, if present.
    pub device_name: Option<String>,
    /// The `device_type` TXT property, if present.
    pub device_type: Option<String>,
    /// The addresses the service resolved to, in the order reported.
    pub addresses: Vec<AnnouncedAddress>,
    pub port: u16,
}

/// The text that stands in for a TXT property an announcement left out.
pub open spec fn unknown_chars() -> Seq<char> {
    seq!['u', 'n', 'k', 'n', 'o', 'w', 'n']
}

/// A TXT property's value, or "unknown" when it is missing.
pub open spec fn property_or_unknown(p: Option<String>) -> Seq<char> {
    match p {
        Some(s) => s@,
        None => unknown_chars(),
    }
}

/// The first IPv4 address in `addrs` from position `i` on.
pub open spec fn first_ipv4_from(addrs: Seq<AnnouncedAddress>, i: int) -> Option<Seq<char>>
    decreases addrs.len() - i,
{
    if i < 0 || i >= addrs.len() {
        None
    } else if addrs[i].is_ipv4 {
        Some(addrs[i].text@)
    } else {
        first_ipv4_from(addrs, i + 1)
    }
}

proof fn lemma_first_ipv4_from(addrs: Seq<AnnouncedAddress>, i: int)
    requires
        0 <= i <= addrs.len(),
    ensures
        first_ipv4_from(addrs, i) is None <==> forall|k: int|
            i <= k < addrs.len() ==> !(#[trigger] addrs[k]).is_ipv4,
        forall|k: int|
            i <= k < addrs.len() && (#[trigger] addrs[k]).is_ipv4 && (forall|j: int|
                i <= j < k ==> !addrs[j].is_ipv4) ==> first_ipv4_from(addrs, i) == Some(
                addrs[k].text@,
            ),
    decreases addrs.len() - i,
{
    if i < addrs.len() {
        lemma_first_ipv4_from(addrs, i + 1);
    }
}

/// The address taken from an announcement is its first IPv4 address:
/// there is one exactly when some announced address is IPv4, and then it
/// is the text of the earliest such address, whatever comes before it.
pub proof fn lemma_first_ipv4(addrs: Seq<AnnouncedAddress>)
    ensures
        first_ipv4_from(addrs, 0) is Some <==> exists|k: int|
            0 <= k < addrs.len() && (#[trigger] addrs[k]).is_ipv4,
        forall|k: int|
            0 <= k < addrs.len() && (#[trigger] addrs[k]).is_ipv4 && (forall|j: int|
                0 <= j < k ==> !addrs[j].is_ipv4) ==> first_ipv4_from(addrs, 0) == Some(
                addrs[k].text@,
            ),
{
    lemma_first_ipv4_from(addrs, 0);
}

/// The device an announcement describes.
pub open spec fn announced_device(ann: ServiceAnnouncement) -> DiscoveredDeviceView {
    DiscoveredDeviceView {
        device_id: property_or_unknown(ann.device_id),
        device_name: property_or_unknown(ann.device_name),
        device_type: property_or_unknown(ann.device_type),
        address: first_ipv4_from(ann.addresses@, 0),
        port: ann.port,
    }
}

/// The `address:port` text a peer is dialed at.
pub open spec fn dial_target(address: Seq<char>, port: u16) -> Seq<char> {
    address + seq![':'] + decimal(port as nat)
}

/// A dial target is the address, a colon, and the port written in base
/// 10 without leading zeros: the text after the colon reads back as the
/// port.
pub proof fn lemma_dial_target_port(address: Seq<char>, port: u16)
    ensures
        dial_target(address, port).subrange(0, address.len() as int) == address,
        dial_target(address, port)[address.len() as int] == ':',
        digits_value(
            dial_target(address, port).subrange(
                (address.len() + 1) as int,
                dial_target(address, port).len() as int,
            ),
        ) == port as nat,
        dial_target(address, port)[(address.len() + 1) as int] == '0' ==> port == 0,
{
    let t = dial_target(address, port);
    lemma_decimal_reads_back(port as nat);
    assert(t.subrange(0, address.len() as int) =~= address);
    assert(t.subrange((address.len() + 1) as int, t.len() as int) =~= decimal(port as nat));
}

/// How the discovery loop answers an announcement.
#[derive(PartialEq, Eq, Structural)]
pub enum Resolution {
    /// Our own announcement echoed back: nothing is recorded.
    OwnAnnouncement,
    /// Recorded; automatic pairing is off, so nobody is dialed.
    Recorded,
    /// Recorded; a dial to this peer is already under way.
    AlreadyDialing,
    /// Recorded; the peer has the smaller id, so it dials us.
    YieldToPeer,
    /// Recorded; no IPv4 address yet, so a later announcement may dial.
    AwaitingAddress,
    /// Recorded, and the peer is dialed now.
    Dial,
}

/// The rule the discovery loop follows for one resolved announcement.
pub open spec fn resolve(
    my_id: Seq<char>,
    auto_pair: bool,
    dialing: Set<Seq<char>>,
    dev: DiscoveredDeviceView,
) -> Resolution {
    if dev.device_id == my_id {
        Resolution::OwnAnnouncement
    } else if !auto_pair {
        Resolution::Recorded
    } else if dialing.contains(dev.device_id) {
        Resolution::AlreadyDialing
    } else if chars_lt(dev.device_id, my_id) {
        Resolution::YieldToPeer
    } else if dev.address is None {
        Resolution::AwaitingAddress
    } else {
        Resolution::Dial
    }
}

/// The peers being dialed after a resolution.
pub open spec fn next_dialing(
    dialing: Set<Seq<char>>,
    res: Resolution,
    id: Seq<char>,
) -> Set<Seq<char>> {
    if res == Resolution::Dial {
        dialing.insert(id)
    } else {
        dialing
    }
}

/// Whom to dial, and what the session will be told about the peer.
pub struct DialTarget {
    /// `address:port`.
    pub target: String,
    pub remote_id: String,
    pub remote_name: String,
    pub remote_type: String,
}

/// The discovery loop's answer to one announcement.
pub enum DialDecision {
    OwnAnnouncement,
    Recorded,
    AlreadyDialing,
    YieldToPeer,
    AwaitingAddress,
    Dial(DialTarget),
}

/// Which resolution a decision carries out.
pub open spec fn resolution_of(d: DialDecision) -> Resolution {
    match d {
        DialDecision::OwnAnnouncement => Resolution::OwnAnnouncement,
        DialDecision::Recorded => Resolution::Recorded,
        DialDecision::AlreadyDialing => Resolution::AlreadyDialing,
        DialDecision::YieldToPeer => Resolution::YieldToPeer,
        DialDecision::AwaitingAddress => Resolution::AwaitingAddress,
        DialDecision::Dial(_) => Resolution::Dial,
    }
}

/// The characters of the strings in `v`, as a set.
pub open spec fn string_set(v: Seq<String>) -> Set<Seq<char>> {
    Set::new(|k: Seq<char>| exists|i: int| 0 <= i < v.len() && #[trigger] v[i]@ == k)
}

/// The discovery loop's own state: who we are, whether we dial peers
/// ourselves, and which peers we have committed to dialing.
pub struct Dialer {
    my_device_id: String,
    auto_pair: bool,
    dialing: Vec<String>,
}

impl Dialer {
    /// Our own device id.
    pub closed spec fn my_id(&self) -> Seq<char> {
        self.my_device_id@
    }

    /// Whether discovered peers are dialed automatically.
    pub closed spec fn auto_pair(&self) -> bool {
        self.auto_pair
    }

    /// The peers we have committed to dialing and whose dial has not failed.
    pub closed spec fn dialing(&self) -> Set<Seq<char>> {
        string_set(self.dialing@)
    }

    /// A dialer for the device that `identity` announces, dialing nobody yet.
    pub fn new(identity: &DiscoveryIdentity) -> (d: Self)
        ensures
            d.my_id() == identity.device_id@,
            d.auto_pair() == identity.auto_pair,
            d.dialing() == Set::<Seq<char>>::empty(),
    {
        let d = Dialer {
            my_device_id: identity.device_id.clone(),
            auto_pair: identity.auto_pair,
            dialing: Vec::new(),
        };
        assert(d.dialing() =~= Set::<Seq<char>>::empty());
        d
    }

    fn is_dialing(&self, id: &str) -> (b: bool)
        ensures
            b == self.dialing().contains(id@),
    {
        let n = self.dialing.len();
        let mut i: usize = 0;
        while i < n
            invariant
                n == self.dialing@.len(),
                0 <= i <= n,
                forall|j: int| 0 <= j < i ==> #[trigger] self.dialing@[j]@ != id@,
            decreases n - i,
        {
            if str_eq(self.dialing[i].as_str(), id) {
                assert(self.dialing@[i as int]@ == id@);
                return true;
            }
            i = i + 1;
        }
        false
    }

    /// Answers one resolved announcement: records the peer (unless it is
    /// our own announcement) and decides whether to dial it now.
    pub fn on_service_resolved(
        &mut self,
        registry: &mut DiscoveryRegistry,
        ann: ServiceAnnouncement,
    ) -> (decision: DialDecision)
        requires
            old(registry).wf(),
        ensures
            final(registry).wf(),
            resolution_of(decision) == resolve(
                old(self).my_id(),
                old(self).auto_pair(),
                old(self).dialing(),
                announced_device(ann),
            ),
            final(registry)@ == if resolution_of(decision) == Resolution::OwnAnnouncement {
                old(registry)@
            } else {
                upsert(old(registry)@, announced_device(ann))
            },
            final(self).my_id() == old(self).my_id(),
            final(self).auto_pair() == old(self).auto_pair(),
            final(self).dialing() == next_dialing(
                old(self).dialing(),
                resolution_of(decision),
                announced_device(ann).device_id,
            ),
            final(self).dialing() == dialing_step(
                old(self).my_id(),
                old(self).auto_pair(),
                old(self).dialing(),
                DiscoveryEvent::Resolved(announced_device(ann)),
            ),
            decision matches DialDecision::Dial(t) ==> {
                &&& announced_device(ann).address matches Some(a) && t.target@ == dial_target(
                    a,
                    ann.port,
                )
                &&& t.remote_id@ == announced_device(ann).device_id
                &&& t.remote_name@ == announced_device(ann).device_name
                &&& t.remote_type@ == announced_device(ann).device_type
            },
    {
        let ghost dev = announced_device(ann);
        let port = ann.port;
        let address = first_ipv4(&ann.addresses);
        let remote_id = or_unknown(ann.device_id);
        if str_eq(remote_id.as_str(), self.my_device_id.as_str()) {
            return DialDecision::OwnAnnouncement;
        }
        let remote_name = or_unknown(ann.device_name);
        let remote_type = or_unknown(ann.device_type);
        let device = DiscoveredDevice {
            device_id: remote_id.clone(),
            device_name: remote_name.clone(),
            device_type: remote_type.clone(),
            address: clone_opt_string(&address),
            port,
        };
        assert(device@ == dev);
        registry.record(device);
        if !self.auto_pair {
            return DialDecision::Recorded;
        }
        if self.is_dialing(remote_id.as_str()) {
            return DialDecision::AlreadyDialing;
        }
        if str_lt(remote_id.as_str(), self.my_device_id.as_str()) {
            return DialDecision::YieldToPeer;
        }
        match address {
            None => DialDecision::AwaitingAddress,
            Some(addr) => {
                let ghost before = self.dialing@;
                self.dialing.push(remote_id.clone());
                proof {
                    assert forall|k: Seq<char>|
                        string_set(self.dialing@).contains(k) == string_set(before).insert(
                            dev.device_id,
                        ).contains(k) by {
                        if string_set(before).contains(k) {
                            let w = choose|i: int| 0 <= i < before.len() && #[trigger] before[i]@ == k;
                            assert(self.dialing@[w]@ == k);
                        }
                        if k == dev.device_id {
                            assert(self.dialing@[before.len() as int]@ == k);
                        }
                        if string_set(self.dialing@).contains(k) {
                            let w = choose|i: int|
                                0 <= i < self.dialing@.len() && #[trigger] self.dialing@[i]@ == k;
                            if w < before.len() {
                                assert(before[w]@ == k);
                            }
                        }
                    }
                    assert(string_set(self.dialing@) =~= string_set(before).insert(dev.device_id));
                }
                let mut target = String::new();
                target.append(addr.as_str());
                target.push(':');
                push_decimal(&mut target, port as u64);
                proof {
                    assert(target@ =~= dial_target(addr@, port));
                }
                DialDecision::Dial(
                    DialTarget { target, remote_id, remote_name, remote_type },
                )
            },
        }
    }

    /// Forgets a failed dial, so that the next announcement of the peer
    /// may dial it again.
    pub fn on_dial_failed(&mut self, remote_id: &str)
        ensures
            final(self).my_id() == old(self).my_id(),
            final(self).auto_pair() == old(self).auto_pair(),
            final(self).dialing() == old(self).dialing().remove(remote_id@),
            final(self).dialing() == dialing_step(
                old(self).my_id(),
                old(self).auto_pair(),
                old(self).dialing(),
                DiscoveryEvent::DialFailed(remote_id@),
            ),
    {
        let n = self.dialing.len();
        let mut kept: Vec<String> = Vec::new();
        let mut i: usize = 0;
        while i < n
            invariant
                n == self.dialing@.len(),
                0 <= i <= n,
                string_set(kept@) == string_set(self.dialing@.subrange(0, i as int)).remove(
                    remote_id@,
                ),
            decreases n - i,
        {
            let ghost before = kept@;
            let ghost prefix = self.dialing@.subrange(0, i as int);
            let ghost next = self.dialing@.subrange(0, i + 1);
            let ghost item = self.dialing@[i as int];
            assert(next =~= prefix.push(item));
            if !str_eq(self.dialing[i].as_str(), remote_id) {
                kept.push(self.dialing[i].clone());
                assert forall|k: Seq<char>|
                    string_set(kept@).contains(k) == string_set(next).remove(remote_id@).contains(
                        k,
                    ) by {
                    if string_set(before).contains(k) {
                        let w = choose|j: int| 0 <= j < before.len() && #[trigger] before[j]@ == k;
                        assert(kept@[w]@ == k);
                        let v = choose|j: int| 0 <= j < prefix.len() && #[trigger] prefix[j]@ == k;
                        assert(next[v]@ == k);
                    }
                    if string_set(next).contains(k) && k != remote_id@ {
                        let v = choose|j: int| 0 <= j < next.len() && #[trigger] next[j]@ == k;
                        if v < prefix.len() {
                            assert(prefix[v]@ == k);
                        } else {
                            assert(kept@[before.len() as int]@ == k);
                        }
                    }
                    if string_set(kept@).contains(k) {
                        let w = choose|j: int| 0 <= j < kept@.len() && #[trigger] kept@[j]@ == k;
                        if w < before.len() {
                            assert(before[w]@ == k);
                        } else {
                            assert(next[i as int]@ == k);
                        }
                    }
                }
            } else {
                assert forall|k: Seq<char>|
                    string_set(kept@).contains(k) == string_set(next).remove(remote_id@).contains(
                        k,
                    ) by {
                    if string_set(next).contains(k) && k != remote_id@ {
                        let v = choose|j: int| 0 <= j < next.len() && #[trigger] next[j]@ == k;
                        if v < prefix.len() {
                            assert(prefix[v]@ == k);
                        }
                    }
                    if string_set(prefix).contains(k) {
                        let v = choose|j: int| 0 <= j < prefix.len() && #[trigger] prefix[j]@ == k;
                        assert(next[v]@ == k);
                    }
                }
            }
            i = i + 1;
            assert(string_set(kept@) =~= string_set(self.dialing@.subrange(0, i as int)).remove(
                remote_id@,
            ));
        }
        assert(self.dialing@.subrange(0, n as int) =~= self.dialing@);
        self.dialing = kept;
    }
}

fn or_unknown(p: Option<String>) -> (s: String)
    ensures
        s@ == property_or_unknown(p),
{
    match p {
        Some(s) => s,
        None => {
            let s = "unknown".to_owned();
            proof {
                reveal_strlit("unknown");
            }
            s
        },
    }
}

fn first_ipv4(addrs: &Vec<AnnouncedAddress>) -> (a: Option<String>)
    ensures
        opt_chars(a) == first_ipv4_from(addrs@, 0),
{
    let n = addrs.len();
    let mut i: usize = 0;
    while i < n
        invariant
            n == addrs@.len(),
            0 <= i <= n,
            first_ipv4_from(addrs@, 0) == first_ipv4_from(addrs@, i as int),
        decreases n - i,
    {
        if addrs[i].is_ipv4 {
            return Some(addrs[i].text.clone());
        }
        i = i + 1;
    }
    None
}

/// A device never dials itself.
pub proof fn lemma_never_dial_self(
    my_id: Seq<char>,
    auto_pair: bool,
    dialing: Set<Seq<char>>,
    dev: DiscoveredDeviceView,
)
    ensures
        resolve(my_id, auto_pair, dialing, dev) == Resolution::Dial ==> dev.device_id != my_id,
{
}

/// When two devices with different ids each see the other's announcement
/// (with an address) and neither is dialing the other yet, exactly one of
/// them dials: the one with the smaller id.
pub proof fn lemma_tie_break(
    dev_a: DiscoveredDeviceView,
    dev_b: DiscoveredDeviceView,
    dialing_a: Set<Seq<char>>,
    dialing_b: Set<Seq<char>>,
)
    requires
        dev_a.device_id != dev_b.device_id,
        dev_a.address is Some,
        dev_b.address is Some,
        !dialing_a.contains(dev_b.device_id),
        !dialing_b.contains(dev_a.device_id),
    ensures
        (resolve(dev_a.device_id, true, dialing_a, dev_b) == Resolution::Dial) != (resolve(
            dev_b.device_id,
            true,
            dialing_b,
            dev_a,
        ) == Resolution::Dial),
        resolve(dev_a.device_id, true, dialing_a, dev_b) == Resolution::Dial <==> chars_lt(
            dev_a.device_id,
            dev_b.device_id,
        ),
{
    lemma_chars_lt_trichotomy(dev_a.device_id, dev_b.device_id);
}

/// After a peer is dialed, further announcements of it do not dial it
/// again until the dial fails.
pub proof fn lemma_single_dial(
    my_id: Seq<char>,
    dialing: Set<Seq<char>>,
    dev: DiscoveredDeviceView,
    again: DiscoveredDeviceView,
)
    requires
        resolve(my_id, true, dialing, dev) == Resolution::Dial,
        again.device_id == dev.device_id,
    ensures
        resolve(
            my_id,
            true,
            next_dialing(dialing, Resolution::Dial, dev.device_id),
            again,
        ) == Resolution::AlreadyDialing,
{
}

/// What the discovery loop sees, as far as it decides whom to dial: a
/// resolved announcement, or the failure of a dial to a peer.
pub enum DiscoveryEvent {
    Resolved(DiscoveredDeviceView),
    DialFailed(Seq<char>),
}

/// The peers being dialed after one event: an announcement goes through
/// [`resolve`], a failure forgets its peer.
pub open spec fn dialing_step(
    my_id: Seq<char>,
    auto_pair: bool,
    dialing: Set<Seq<char>>,
    event: DiscoveryEvent,
) -> Set<Seq<char>> {
    match event {
        DiscoveryEvent::Resolved(dev) => next_dialing(
            dialing,
            resolve(my_id, auto_pair, dialing, dev),
            dev.device_id,
        ),
        DiscoveryEvent::DialFailed(id) => dialing.remove(id),
    }
}

/// The peers being dialed after `events`, starting from `start`: each
/// announcement goes through [`resolve`], each failure forgets its peer.
pub open spec fn dialing_after(
    my_id: Seq<char>,
    auto_pair: bool,
    start: Set<Seq<char>>,
    events: Seq<DiscoveryEvent>,
) -> Set<Seq<char>>
    decreases events.len(),
{
    if events.len() == 0 {
        start
    } else {
        dialing_step(
            my_id,
            auto_pair,
            dialing_after(my_id, auto_pair, start, events.drop_last()),
            events.last(),
        )
    }
}

/// A run is taken one event at a time: the peers dialed after one more
/// event are those that event's step (the step [`Dialer::on_service_resolved`]
/// and [`Dialer::on_dial_failed`] each take) leaves of the peers dialed before.
pub proof fn lemma_dialing_after_push(
    my_id: Seq<char>,
    auto_pair: bool,
    start: Set<Seq<char>>,
    events: Seq<DiscoveryEvent>,
    event: DiscoveryEvent,
)
    ensures
        dialing_after(my_id, auto_pair, start, events.push(event)) == dialing_step(
            my_id,
            auto_pair,
            dialing_after(my_id, auto_pair, start, events),
            event,
        ),
{
    assert(events.push(event).drop_last() =~= events);
}

/// Whether the event at position `i` dials the peer `id`.
pub open spec fn dials_at(
    my_id: Seq<char>,
    auto_pair: bool,
    start: Set<Seq<char>>,
    events: Seq<DiscoveryEvent>,
    i: int,
    id: Seq<char>,
) -> bool {
    &&& 0 <= i < events.len()
    &&& events[i] matches DiscoveryEvent::Resolved(dev)
    &&& dev.device_id == id
    &&& resolve(my_id, auto_pair, dialing_after(my_id, auto_pair, start, events.take(i)), dev)
        == Resolution::Dial
}

proof fn lemma_dialing_kept(
    my_id: Seq<char>,
    auto_pair: bool,
    start: Set<Seq<char>>,
    events: Seq<DiscoveryEvent>,
    i: int,
    m: int,
    id: Seq<char>,
)
    requires
        0 <= i < m <= events.len(),
        dialing_after(my_id, auto_pair, start, events.take(i + 1)).contains(id),
        forall|k: int| i < k < m ==> events[k] != DiscoveryEvent::DialFailed(id),
    ensures
        dialing_after(my_id, auto_pair, start, events.take(m)).contains(id),
    decreases m - i,
{
    if m > i + 1 {
        lemma_dialing_kept(my_id, auto_pair, start, events, i, m - 1, id);
        assert(events.take(m).drop_last() =~= events.take(m - 1));
        assert(events.take(m).last() == events[m - 1]);
    }
}

/// Over any run of the discovery loop, a peer is dialed again only after
/// its earlier dial failed: between two dials of the same peer stands a
/// failure of a dial to it.
pub proof fn lemma_redial_only_after_failure(
    my_id: Seq<char>,
    auto_pair: bool,
    start: Set<Seq<char>>,
    events: Seq<DiscoveryEvent>,
    i: int,
    j: int,
    id: Seq<char>,
)
    requires
        i < j,
        dials_at(my_id, auto_pair, start, events, i, id),
        dials_at(my_id, auto_pair, start, events, j, id),
    ensures
        exists|k: int| i < k < j && #[trigger] events[k] == DiscoveryEvent::DialFailed(id),
{
    assert(events.take(i + 1).drop_last() =~= events.take(i));
    assert(events.take(i + 1).last() == events[i]);
    if !(exists|k: int| i < k < j && #[trigger] events[k] == DiscoveryEvent::DialFailed(id)) {
        lemma_dialing_kept(my_id, auto_pair, start, events, i, j, id);
    }
}

/// A run in which no dial is reported as failed dials each peer at most
/// once.
pub proof fn lemma_dial_once_without_failures(
    my_id: Seq<char>,
    auto_pair: bool,
    start: Set<Seq<char>>,
    events: Seq<DiscoveryEvent>,
    i: int,
    j: int,
    id: Seq<char>,
)
    requires
        forall|k: int| 0 <= k < events.len() ==> #[trigger] events[k] is Resolved,
        dials_at(my_id, auto_pair, start, events, i, id),
        dials_at(my_id, auto_pair, start, events, j, id),
    ensures
        i == j,
{
    if i < j {
        lemma_redial_only_after_failure(my_id, auto_pair, start, events, i, j, id);
    } else if j < i {
        lemma_redial_only_after_failure(my_id, auto_pair, start, events, j, i, id);
    }
}

/// A peer that could not be dialed for want of an address, or whose dial
/// failed, is dialed once an announcement with an address arrives.
pub proof fn lemma_retry_after_skip(
    my_id: Seq<char>,
    dialing: Set<Seq<char>>,
    dev: DiscoveredDeviceView,
    again: DiscoveredDeviceView,
)
    requires
        resolve(my_id, true, dialing, dev) == Resolution::AwaitingAddress
            || resolve(my_id, true, dialing, dev) == Resolution::Dial,
        again.device_id == dev.device_id,
        again.address is Some,
    ensures
        resolve(
            my_id,
            true,
            next_dialing(dialing, resolve(my_id, true, dialing, dev), dev.device_id).remove(
                dev.device_id,
            ),
            again,
        ) == Resolution::Dial,
{
}

/// The name the device registers its mDNS host under: `<device_id>.local.`
pub open spec fn spec_host_name(device_id: Seq<char>) -> Seq<char> {
    device_id + seq!['.', 'l', 'o', 'c', 'a', 'l', '.']
}

/// What the device says about itself on the network.
pub struct DiscoveryIdentity {
    pub device_id: String,
    pub device_name: String,
    pub device_type: String,
    pub protocol_version: u32,
    pub port: u16,
    pub auto_pair: bool,
}

/// The mDNS host name for a device id.
pub fn host_name(device_id: &str) -> (name: String)
    ensures
        name@ == spec_host_name(device_id@),
{
    let mut name = device_id.to_owned();
    name.append(".local.");
    proof {
        reveal_strlit(".local.");
    }
    name
}

/// The TXT properties the device announces, as (key, value) pairs.
pub open spec fn spec_service_properties(
    device_id: Seq<char>,
    device_name: Seq<char>,
    device_type: Seq<char>,
    protocol_version: u32,
) -> Seq<(Seq<char>, Seq<char>)> {
    seq![
        (seq!['d', 'e', 'v', 'i', 'c', 'e', '_', 'i', 'd'], device_id),
        (seq!['d', 'e', 'v', 'i', 'c', 'e', '_', 'n', 'a', 'm', 'e'], device_name),
        (seq!['d', 'e', 'v', 'i', 'c', 'e', '_', 't', 'y', 'p', 'e'], device_type),
        (
            seq!['p', 'r', 'o', 't', 'o', 'c', 'o', 'l', '_', 'v', 'e', 'r', 's', 'i', 'o', 'n'],
            decimal(protocol_version as nat),
        ),
    ]
}

/// The characters of a list of (key, value) string pairs.
pub open spec fn pair_chars(v: Seq<(String, String)>) -> Seq<(Seq<char>, Seq<char>)> {
    v.map_values(|p: (String, String)| (p.0@, p.1@))
}

/// The TXT properties that announce `identity`.
pub fn service_properties(identity: &DiscoveryIdentity) -> (props: Vec<(String, String)>)
    ensures
        pair_chars(props@) == spec_service_properties(
            identity.device_id@,
            identity.device_name@,
            identity.device_type@,
            identity.protocol_version,
        ),
{
    let mut version = String::new();
    push_decimal(&mut version, identity.protocol_version as u64);
    let mut props: Vec<(String, String)> = Vec::new();
    props.push(("device_id".to_owned(), identity.device_id.clone()));
    props.push(("device_name".to_owned(), identity.device_name.clone()));
    props.push(("device_type".to_owned(), identity.device_type.clone()));
    props.push(("protocol_version".to_owned(), version));
    proof {
        reveal_strlit("device_id");
        reveal_strlit("device_name");
        reveal_strlit("device_type");
        reveal_strlit("protocol_version");
        assert(props@.len() == 4);
        assert(props@[0].0@ == seq!['d', 'e', 'v', 'i', 'c', 'e', '_', 'i', 'd']);
        assert(props@[3].1@ == decimal(identity.protocol_version as nat));
        let spec_props = spec_service_properties(
            identity.device_id@,
            identity.device_name@,
            identity.device_type@,
            identity.protocol_version,
        );
        assert forall|i: int| 0 <= i < 4 implies #[trigger] pair_chars(props@)[i] == spec_props[i] by {
            assert(pair_chars(props@)[i] == (props@[i].0@, props@[i].1@));
        }
        assert(pair_chars(props@) =~= spec_service_properties(
            identity.device_id@,
            identity.device_name@,
            identity.device_type@,
            identity.protocol_version,
        ));
    }
    props
}

/// The identity announced by a device listening on `port`.
pub fn discovery_identity(
    device_id: String,
    device_name: &str,
    device_type: &str,
    port: u16,
    auto_pair: bool,
) -> (identity: DiscoveryIdentity)
    ensures
        identity.device_id@ == device_id@,
        identity.device_name@ == device_name@,
        identity.device_type@ == device_type@,
        identity.protocol_version == 1,
        identity.port == port,
        identity.auto_pair == auto_pair,
{
    DiscoveryIdentity {
        device_id,
        device_name: device_name.to_owned(),
        device_type: device_type.to_owned(),
        protocol_version: 1,
        port,
        auto_pair,
    }
}

} // verus!
