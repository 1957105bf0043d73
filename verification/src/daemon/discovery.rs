use vstd::prelude::*;

verus! {

/// What the daemon says about itself on the network. The daemon always
/// dials the peers it discovers (subject to the tie-break).
pub struct DiscoveryIdentity {
    pub device_id: String,
    pub device_name: String,
    pub device_type: String,
    pub protocol_version: u32,
    pub port: u16,
}

impl DiscoveryIdentity {
    /// The announcement this identity makes, with automatic dialing on.
    pub fn announced(&self) -> (identity: crate::discovery::DiscoveryIdentity)
        ensures
            identity.device_id@ == self.device_id@,
            identity.device_name@ == self.device_name@,
            identity.device_type@ == self.device_type@,
            identity.protocol_version == self.protocol_version,
            identity.port == self.port,
            identity.auto_pair,
    {
        crate::discovery::DiscoveryIdentity {
            device_id: self.device_id.clone(),
            device_name: self.device_name.clone(),
            device_type: self.device_type.clone(),
            protocol_version: self.protocol_version,
            port: self.port,
            auto_pair: true,
        }
    }
}

} // verus!
