use vstd::prelude::*;
use vstd::multiset::Multiset;

use crate::types::Interface;

verus! {

/// The network-state translation engine's state type, carried opaquely:
/// the library reads it only through the wrappers below.
#[verifier::external_type_specification]
#[verifier::external_body]
pub struct ExNetworkState(nmstate::NetworkState);

/// The interfaces a network state holds, each as a plain record of name,
/// MAC address and type tag. The state iterates its interfaces out of hash
/// maps, so no order is defined and only the contents are named.
pub uninterp spec fn state_interfaces(ns: nmstate::NetworkState) -> Multiset<Interface>;

/// Whether the translation engine accepts a document: the parse is
/// serde-based and deterministic, a function of the document text alone,
/// so its outcome carries a name.
pub uninterp spec fn parse_ok(data: Seq<char>) -> bool;

/// The interfaces of the state parsed from a document the engine accepts:
/// like the parse outcome itself, a function of the document text alone.
pub uninterp spec fn parsed_ifaces(data: Seq<char>) -> Multiset<Interface>;

/// Relies on nmstate::NetworkState::new_from_yaml: parses a declarative
/// network-state document from YAML text; on failure it reports an error
/// whose text describes the rejected input. Whether the parse succeeds,
/// and which interfaces the parsed state holds, are deterministic in the
/// document, stated through `parse_ok` and `parsed_ifaces`.
#[verifier::external_body]
pub(crate) fn parse_network_state(data: &str) -> (r: Result<nmstate::NetworkState, String>)
    ensures
        (r is Ok) == parse_ok(data@),
        (match r {
            Ok(ns) => state_interfaces(ns) == parsed_ifaces(data@),
            Err(_) => true,
        }),
{
    nmstate::NetworkState::new_from_yaml(data).map_err(|e| e.to_string())
}

/// Relies on nmstate's Interfaces::iter together with the accessors
/// Interface::name, Interface::iface_type (shown textually through its
/// Display form) and BaseInterface::mac_address: every interface of the
/// state is copied into one plain record each.
#[verifier::external_body]
pub(crate) fn list_state_interfaces(ns: &nmstate::NetworkState) -> (r: Vec<Interface>)
    ensures
        r@.to_multiset() == state_interfaces(*ns),
{
    ns.interfaces
        .iter()
        .map(
            |i| Interface {
                logical_name: i.name().to_owned(),
                mac_address: i.base_iface().mac_address.clone(),
                interface_type: i.iface_type().to_string(),
            },
        )
        .collect()
}

/// Relies on nmstate::NetworkState::gen_conf: generates offline
/// configuration file sets keyed by backend name. Its source builds the
/// result as a map holding exactly one entry, keyed "NetworkManager", with
/// the generated (file name, file content) pairs as its value.
#[verifier::external_body]
pub(crate) fn generate_network_configurations(ns: &nmstate::NetworkState) -> (r: Result<
    Vec<(String, Vec<(String, String)>)>,
    String,
>)
    ensures
        (match r {
            Ok(groups) => groups@.len() == 1 && groups@[0].0@ == "NetworkManager"@,
            Err(_) => true,
        }),
{
    match ns.gen_conf() {
        Ok(m) => Ok(m.into_iter().collect()),
        Err(e) => Err(e.to_string()),
    }
}

} // verus!
