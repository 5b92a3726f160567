use vstd::prelude::*;

use crate::text::lower;

verus! {

/// One network interface as recorded in a connection profile: the logical
/// name assumed at build time, the MAC address (canonical lowercase form
/// once normalized), and the interface type tag produced by the generator
/// (such as "ethernet", "linux-bridge" or "loopback").
#[derive(Debug, Clone, PartialEq, Eq)]
pub struct Interface {
    pub logical_name: String,
    pub mac_address: Option<String>,
    pub interface_type: String,
}

/// A named collection of interfaces: one record of the host mapping store.
#[derive(Debug, Clone, PartialEq, Eq)]
pub struct Host {
    pub hostname: String,
    pub interfaces: Vec<Interface>,
}

/// A network interface as reported by the operating system at run time:
/// its current name and, when known, its MAC address.
#[derive(Debug, Clone, PartialEq, Eq)]
pub struct LiveInterface {
    pub name: String,
    pub mac_address: Option<String>,
}

/// The interface is of Ethernet type.
pub open spec fn is_ethernet_iface(i: Interface) -> bool {
    i.interface_type@ == "ethernet"@
}

/// The interface is of loopback type.
pub open spec fn is_loopback_iface(i: Interface) -> bool {
    i.interface_type@ == "loopback"@
}

/// The live interface carries the same MAC address as the profile
/// interface. The comparison is case-normalized: the two addresses match
/// when their lowercase forms are equal, whatever letter case either side
/// arrived in. An interface without a MAC address on either side matches
/// nothing.
pub open spec fn macs_match(nic: LiveInterface, iface: Interface) -> bool {
    match (iface.mac_address, nic.mac_address) {
        (Some(a), Some(b)) => lower(a@) == lower(b@),
        _ => false,
    }
}

} // verus!
