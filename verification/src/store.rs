use vstd::prelude::*;
use vstd::string::*;

use crate::text::{lower, lowercase};
use crate::types::{Host, Interface};

verus! {

/// The fixed name of the host mapping store file, shared by the generator
/// (which appends to it) and the identifier (which reads it whole).
pub fn host_mapping_file_name() -> (r: String)
    ensures
        r@ == "host_config.yaml"@,
{
    let r = String::from_str("host_config.yaml");
    r
}

/// `b` is `a` with its MAC address normalized to the canonical lowercase
/// form and every other field kept as it was.
pub open spec fn iface_normalized(a: Interface, b: Interface) -> bool {
    &&& b.logical_name@ == a.logical_name@
    &&& b.interface_type@ == a.interface_type@
    &&& (match (a.mac_address, b.mac_address) {
        (Some(m), Some(l)) => l@ == lower(m@),
        (None, None) => true,
        _ => false,
    })
}

/// `b` is `a` with every interface's MAC address normalized to lowercase,
/// position by position.
pub open spec fn normalized_seq(a: Seq<Interface>, b: Seq<Interface>) -> bool {
    &&& b.len() == a.len()
    &&& (forall|i: int| 0 <= i < a.len() ==> iface_normalized(a[i], b[i]))
}

/// `b` is `a` with every interface's MAC address normalized to lowercase.
pub open spec fn host_normalized(a: Host, b: Host) -> bool {
    &&& b.hostname@ == a.hostname@
    &&& normalized_seq(a.interfaces@, b.interfaces@)
}

/// Normalize one interface: lowercase its MAC address, keep the rest.
fn normalize_interface(i: &Interface) -> (r: Interface)
    ensures
        iface_normalized(*i, r),
{
    Interface {
        logical_name: i.logical_name.clone(),
        mac_address: match &i.mac_address {
            Some(m) => Some(lowercase(m.as_str())),
            None => None,
        },
        interface_type: i.interface_type.clone(),
    }
}

/// Normalize every interface's MAC address of the list to the canonical
/// lowercase form, keeping names, types and order.
pub fn normalize_interfaces(interfaces: &Vec<Interface>) -> (r: Vec<Interface>)
    ensures
        normalized_seq(interfaces@, r@),
{
    let mut out: Vec<Interface> = Vec::new();
    let m = interfaces.len();
    for i in 0..m
        invariant
            m == interfaces@.len(),
            out@.len() == i,
            forall|i0: int| 0 <= i0 < i ==> iface_normalized(interfaces@[i0], out@[i0]),
    {
        let ni = normalize_interface(&interfaces[i]);
        out.push(ni);
    }
    out
}

/// Normalize every MAC address of every host record to the canonical
/// lowercase form, immediately after parsing the store: upstream producers
/// may emit mixed case, and the identifier's matching is case-insensitive
/// by construction because it only ever sees normalized addresses.
pub fn normalize_hosts(hosts: &Vec<Host>) -> (r: Vec<Host>)
    ensures
        r@.len() == hosts@.len(),
        forall|k: int| 0 <= k < hosts@.len() ==> host_normalized(hosts@[k], r@[k]),
{
    let mut out: Vec<Host> = Vec::new();
    let n = hosts.len();
    for k in 0..n
        invariant
            n == hosts@.len(),
            out@.len() == k,
            forall|k0: int| 0 <= k0 < k ==> host_normalized(hosts@[k0], out@[k0]),
    {
        let h = &hosts[k];
        let ifaces = normalize_interfaces(&h.interfaces);
        let nh = Host { hostname: h.hostname.clone(), interfaces: ifaces };
        out.push(nh);
    }
    out
}

} // verus!
