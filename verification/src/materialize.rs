use vstd::prelude::*;
use vstd::string::*;

use crate::text::{last_dot, replace_all, replaced, split_last_dot, str_eq, str_eq_ignore_case};
use crate::types::{Host, Interface, LiveInterface, macs_match};

verus! {

/// The stem of a connection profile file name: the part before the final
/// '.' when the extension is exactly "nmconnection"; any other entry is not
/// a connection profile and is skipped by the materializer.
pub open spec fn connection_stem(name: Seq<char>) -> Option<Seq<char>> {
    match last_dot(name) {
        Some(i) => if i >= 1 && name.skip(i + 1) == "nmconnection"@ {
            Some(name.take(i))
        } else {
            None
        },
        None => None,
    }
}

/// Split a file name into its stem when its extension marks it as a
/// connection profile file, as `connection_stem` describes.
pub fn connection_file_stem(name: &str) -> (r: Option<String>)
    ensures
        (match connection_stem(name@) {
            Some(stem) => r matches Some(s) && s@ == stem,
            None => r is None,
        }),
{
    match split_last_dot(name) {
        Some((stem, ext)) => {
            if str_eq(ext.as_str(), "nmconnection") {
                Some(stem)
            } else {
                None
            }
        },
        None => None,
    }
}

/// The first interface of the sequence, from position `k` on, whose logical
/// name is `stem`.
pub open spec fn first_iface_named_from(ifaces: Seq<Interface>, stem: Seq<char>, k: int) -> Option<
    Interface,
>
    decreases ifaces.len() - k,
{
    if k < 0 || k >= ifaces.len() {
        None
    } else if ifaces[k].logical_name@ == stem {
        Some(ifaces[k])
    } else {
        first_iface_named_from(ifaces, stem, k + 1)
    }
}

/// The first interface of the sequence whose logical name is `stem`.
pub open spec fn first_iface_named(ifaces: Seq<Interface>, stem: Seq<char>) -> Option<Interface> {
    first_iface_named_from(ifaces, stem, 0)
}

/// The first live interface, from position `k` on, that shares the profile
/// interface's MAC address while carrying a different name: the rename case
/// of materialization.
pub open spec fn first_rename_nic_from(
    nics: Seq<LiveInterface>,
    iface: Interface,
    k: int,
) -> Option<LiveInterface>
    decreases nics.len() - k,
{
    if k < 0 || k >= nics.len() {
        None
    } else if macs_match(nics[k], iface) && nics[k].name@ != iface.logical_name@ {
        Some(nics[k])
    } else {
        first_rename_nic_from(nics, iface, k + 1)
    }
}

/// The first live interface that shares the profile interface's MAC address
/// while carrying a different name.
pub open spec fn first_rename_nic(nics: Seq<LiveInterface>, iface: Interface) -> Option<
    LiveInterface,
> {
    first_rename_nic_from(nics, iface, 0)
}

/// The live interface, if any, whose name replaces the profile's assumed
/// logical name: there must be a host interface whose logical name equals
/// the file stem, a live interface sharing its MAC address, and that live
/// interface's name must differ from the logical name.
pub open spec fn rename_target(host: Host, nics: Seq<LiveInterface>, stem: Seq<char>) -> Option<
    LiveInterface,
> {
    match first_iface_named(host.interfaces@, stem) {
        Some(iface) => first_rename_nic(nics, iface),
        None => None,
    }
}

/// Find the first interface of the host whose logical name equals `stem`.
fn find_iface_named(host: &Host, stem: &str) -> (r: Option<usize>)
    ensures
        (match r {
            Some(j) => j < host.interfaces@.len() && first_iface_named(host.interfaces@, stem@)
                == Some(host.interfaces@[j as int]),
            None => first_iface_named(host.interfaces@, stem@) is None,
        }),
{
    let n = host.interfaces.len();
    for j in 0..n
        invariant
            n == host.interfaces@.len(),
            first_iface_named(host.interfaces@, stem@) == first_iface_named_from(
                host.interfaces@,
                stem@,
                j as int,
            ),
    {
        if str_eq(host.interfaces[j].logical_name.as_str(), stem) {
            return Some(j);
        }
    }
    None
}

/// Find the first live interface that renames `iface`: same MAC address,
/// different name.
fn find_rename_nic(nics: &Vec<LiveInterface>, iface: &Interface) -> (r: Option<usize>)
    ensures
        (match r {
            Some(k) => k < nics@.len() && first_rename_nic(nics@, *iface) == Some(
                nics@[k as int],
            ),
            None => first_rename_nic(nics@, *iface) is None,
        }),
{
    let n = nics.len();
    for k in 0..n
        invariant
            n == nics@.len(),
            first_rename_nic(nics@, *iface) == first_rename_nic_from(nics@, *iface, k as int),
    {
        let nic = &nics[k];
        let mac_ok: bool = match (&iface.mac_address, &nic.mac_address) {
            (Some(a), Some(b)) => str_eq_ignore_case(a.as_str(), b.as_str()),
            _ => false,
        };
        if mac_ok && !str_eq(nic.name.as_str(), iface.logical_name.as_str()) {
            return Some(k);
        }
    }
    None
}

/// Decide the destination stem and content of one connection profile file.
///
/// When a host interface is named `stem` and a live interface shares its
/// MAC address under a different name, the profile is renamed: the live
/// name becomes the destination stem and every occurrence of the assumed
/// logical name in the content is replaced with the live name. In every
/// other case stem and content are kept unchanged.
pub fn resolve_profile(host: &Host, nics: &Vec<LiveInterface>, stem: &str, contents: &str) -> (r: (
    String,
    String,
))
    ensures
        (match rename_target(*host, nics@, stem@) {
            Some(nic) => r.0@ == nic.name@ && r.1@ == replaced(contents@, stem@, nic.name@),
            None => r.0@ == stem@ && r.1@ == contents@,
        }),
{
    if let Some(j) = find_iface_named(host, stem) {
        let iface = &host.interfaces[j];
        if let Some(k) = find_rename_nic(nics, iface) {
            let nic = &nics[k];
            let new_contents = replace_all(contents, stem, nic.name.as_str());
            return (nic.name.clone(), new_contents);
        }
    }
    (stem.to_owned(), contents.to_owned())
}

} // verus!
