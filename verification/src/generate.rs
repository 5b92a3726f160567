use vstd::prelude::*;
use vstd::multiset::Multiset;
use vstd::string::*;

use crate::nm::{
    generate_network_configurations, list_state_interfaces, parse_network_state, parse_ok,
    parsed_ifaces, state_interfaces,
};
use crate::store::{iface_normalized, normalize_interfaces, normalized_seq};
use crate::text::{
    comma_joined, join_comma, last_dot, lemma_lower_idempotent, lower, split_last_dot, str_eq,
};
use crate::types::{Interface, is_ethernet_iface, is_loopback_iface};

verus! {

/// Why a generator run failed for one network-state document.
#[derive(Debug, Clone, PartialEq, Eq)]
pub enum GenerateError {
    /// The translation engine rejected the document; its own description
    /// is carried along.
    InvalidNetworkState(String),
    /// The document describes no Ethernet-type interface at all.
    NoEthernetInterfaces,
    /// Ethernet-type interfaces lack a MAC address; their logical names,
    /// in encounter order.
    MissingMacAddresses(Vec<String>),
    /// The translation engine failed to generate configurations; its own
    /// description is carried along.
    GenerationFailed(String),
    /// The generated configurations hold no "NetworkManager" set.
    MissingNetworkManagerConfig,
}

/// The human-readable message of a generator error.
pub open spec fn generate_error_message(e: GenerateError) -> Seq<char> {
    match e {
        GenerateError::InvalidNetworkState(s) => s@,
        GenerateError::NoEthernetInterfaces => "No Ethernet interfaces were provided"@,
        GenerateError::MissingMacAddresses(names) => "Detected Ethernet interfaces without a MAC address: "@
            + comma_joined(names@.map_values(|n: String| n@)),
        GenerateError::GenerationFailed(s) => s@,
        GenerateError::MissingNetworkManagerConfig => "Invalid NM configuration"@,
    }
}

impl GenerateError {
    /// The human-readable message, as `generate_error_message` describes.
    pub fn message(&self) -> (r: String)
        ensures
            r@ == generate_error_message(*self),
    {
        match self {
            GenerateError::InvalidNetworkState(s) => s.clone(),
            GenerateError::NoEthernetInterfaces => String::from_str(
                "No Ethernet interfaces were provided",
            ),
            GenerateError::MissingMacAddresses(names) => {
                let mut m = String::from_str("Detected Ethernet interfaces without a MAC address: ");
                let joined = join_comma(names);
                m.append(joined.as_str());
                m
            },
            GenerateError::GenerationFailed(s) => s.clone(),
            GenerateError::MissingNetworkManagerConfig => String::from_str(
                "Invalid NM configuration",
            ),
        }
    }
}

/// At least one interface of the sequence is of Ethernet type.
pub open spec fn ethernet_present(ifaces: Seq<Interface>) -> bool {
    exists|i: int| 0 <= i < ifaces.len() && is_ethernet_iface(ifaces[i])
}

/// The logical names of the Ethernet-type interfaces that carry no MAC
/// address, in encounter order.
pub open spec fn eth_names_missing_mac(ifaces: Seq<Interface>) -> Seq<Seq<char>>
    decreases ifaces.len(),
{
    if ifaces.len() == 0 {
        Seq::empty()
    } else {
        let rest = eth_names_missing_mac(ifaces.drop_last());
        let last = ifaces.last();
        if is_ethernet_iface(last) && last.mac_address is None {
            rest.push(last.logical_name@)
        } else {
            rest
        }
    }
}

/// Check one document's interfaces: at least one Ethernet-type interface
/// must be present, and every Ethernet-type interface must carry a MAC
/// address. On the second failure the error lists exactly the logical
/// names of the offending interfaces, in encounter order.
pub fn validate_interfaces(interfaces: &Vec<Interface>) -> (r: Result<(), GenerateError>)
    ensures
        !ethernet_present(interfaces@) ==> r == Err::<(), GenerateError>(
            GenerateError::NoEthernetInterfaces,
        ),
        ethernet_present(interfaces@) && eth_names_missing_mac(interfaces@).len() == 0 ==> r
            == Ok::<(), GenerateError>(()),
        ethernet_present(interfaces@) && eth_names_missing_mac(interfaces@).len() > 0 ==> (
        r matches Err(GenerateError::MissingMacAddresses(names)) && names@.map_values(
            |n: String| n@,
        ) == eth_names_missing_mac(interfaces@)),
{
    let n = interfaces.len();
    let mut has_eth = false;
    for i in 0..n
        invariant
            n == interfaces@.len(),
            has_eth == (exists|j: int| 0 <= j < i && is_ethernet_iface(interfaces@[j])),
    {
        if str_eq(interfaces[i].interface_type.as_str(), "ethernet") {
            has_eth = true;
        }
    }
    if !has_eth {
        return Err(GenerateError::NoEthernetInterfaces);
    }
    let mut names: Vec<String> = Vec::new();
    for i in 0..n
        invariant
            n == interfaces@.len(),
            names@.map_values(|n0: String| n0@) == eth_names_missing_mac(
                interfaces@.take(i as int),
            ),
    {
        let iface = &interfaces[i];
        if str_eq(iface.interface_type.as_str(), "ethernet") && iface.mac_address.is_none() {
            names.push(iface.logical_name.clone());
        }
        proof {
            assert(interfaces@.take(i + 1).drop_last() =~= interfaces@.take(i as int));
            assert(interfaces@.take(i + 1).last() == interfaces@[i as int]);
            assert(names@.map_values(|n0: String| n0@) =~= eth_names_missing_mac(
                interfaces@.take(i + 1),
            ));
        }
    }
    proof {
        assert(interfaces@.take(n as int) =~= interfaces@);
    }
    if names.len() > 0 {
        return Err(GenerateError::MissingMacAddresses(names));
    }
    Ok(())
}

/// A loopback-type interface is never an Ethernet-type interface.
pub proof fn lemma_loopback_is_not_ethernet(i: Interface)
    requires
        is_loopback_iface(i),
    ensures
        !is_ethernet_iface(i),
{
    reveal_strlit("loopback");
    reveal_strlit("ethernet");
    assert("loopback"@[0] != "ethernet"@[0]);
}

/// Loopback-type interfaces take no part in validation: appending one to
/// an interface list changes neither whether an Ethernet interface is
/// present nor the names reported as missing a MAC address.
pub proof fn lemma_validation_ignores_loopback(ifaces: Seq<Interface>, lo: Interface)
    requires
        is_loopback_iface(lo),
    ensures
        ethernet_present(ifaces.push(lo)) == ethernet_present(ifaces),
        eth_names_missing_mac(ifaces.push(lo)) == eth_names_missing_mac(ifaces),
{
    lemma_loopback_is_not_ethernet(lo);
    let pushed = ifaces.push(lo);
    assert(pushed.drop_last() =~= ifaces);
    assert(pushed.last() == lo);
    if ethernet_present(ifaces) {
        let i = choose|i: int| 0 <= i < ifaces.len() && is_ethernet_iface(ifaces[i]);
        assert(is_ethernet_iface(pushed[i]));
    }
    if ethernet_present(pushed) {
        let i = choose|i: int| 0 <= i < pushed.len() && is_ethernet_iface(pushed[i]);
        assert(i < ifaces.len());
        assert(is_ethernet_iface(ifaces[i]));
    }
}

/// The non-loopback part of a multiset of interfaces.
pub open spec fn non_loopback_part(m: Multiset<Interface>) -> Multiset<Interface> {
    m.filter(|i: Interface| !is_loopback_iface(i))
}

/// Extract the interfaces of a parsed network state, leaving every
/// loopback-type interface out: loopback interfaces never enter a host's
/// interface list. The state defines no interface order, so the result is
/// pinned as a multiset.
pub fn extract_interfaces(ns: &nmstate::NetworkState) -> (r: Vec<Interface>)
    ensures
        forall|i: int| 0 <= i < r@.len() ==> !is_loopback_iface(r@[i]),
        r@.to_multiset() == non_loopback_part(state_interfaces(*ns)),
{
    broadcast use vstd::seq_lib::group_to_multiset_ensures;
    broadcast use vstd::multiset::group_multiset_axioms;

    let raw = list_state_interfaces(ns);
    let n = raw.len();
    let mut out: Vec<Interface> = Vec::new();
    proof {
        assert(raw@.take(0) =~= Seq::<Interface>::empty());
        assert(out@.to_multiset() =~= non_loopback_part(raw@.take(0).to_multiset()));
    }
    for i in 0..n
        invariant
            n == raw@.len(),
            raw@.to_multiset() == state_interfaces(*ns),
            forall|j: int| 0 <= j < out@.len() ==> !is_loopback_iface(out@[j]),
            out@.to_multiset() == non_loopback_part(raw@.take(i as int).to_multiset()),
    {
        broadcast use vstd::seq_lib::group_to_multiset_ensures;
        broadcast use vstd::multiset::group_multiset_axioms;

        let ghost m0 = raw@.take(i as int).to_multiset();
        let ghost out0 = out@;
        let iface = &raw[i];
        if !str_eq(iface.interface_type.as_str(), "loopback") {
            let copy = Interface {
                logical_name: iface.logical_name.clone(),
                mac_address: match &iface.mac_address {
                    Some(m) => Some(m.clone()),
                    None => None,
                },
                interface_type: iface.interface_type.clone(),
            };
            proof {
                assert(copy == raw@[i as int]);
            }
            out.push(copy);
        }
        proof {
            assert(raw@.take(i + 1) =~= raw@.take(i as int).push(raw@[i as int]));
            assert(raw@.take(i + 1).to_multiset() == m0.insert(raw@[i as int]));
            assert(out@.to_multiset() =~= non_loopback_part(raw@.take(i + 1).to_multiset()));
        }
    }
    proof {
        assert(raw@.take(n as int) =~= raw@);
    }
    out
}

/// Some interface of the multiset is of Ethernet type.
pub open spec fn ms_ethernet_present(m: Multiset<Interface>) -> bool {
    exists|i: Interface| m.count(i) > 0 && is_ethernet_iface(i)
}

/// Some Ethernet-type interface of the multiset carries no MAC address.
pub open spec fn ms_missing_mac_present(m: Multiset<Interface>) -> bool {
    exists|i: Interface| m.count(i) > 0 && is_ethernet_iface(i) && i.mac_address is None
}

/// An Ethernet-type interface is present in a list exactly when one is
/// present in the list's contents: the outcome does not depend on the
/// order the interfaces were encountered in.
pub proof fn lemma_ethernet_present_multiset(s: Seq<Interface>)
    ensures
        ethernet_present(s) == ms_ethernet_present(s.to_multiset()),
{
    broadcast use vstd::seq_lib::group_to_multiset_ensures;

    if ethernet_present(s) {
        let i = choose|i: int| 0 <= i < s.len() && is_ethernet_iface(s[i]);
        assert(s.contains(s[i]));
        assert(s.to_multiset().count(s[i]) > 0);
    }
    if ms_ethernet_present(s.to_multiset()) {
        let a = choose|a: Interface| s.to_multiset().count(a) > 0 && is_ethernet_iface(a);
        assert(s.contains(a));
        let i = choose|i: int| 0 <= i < s.len() && s[i] == a;
        assert(is_ethernet_iface(s[i]));
    }
}

proof fn lemma_missing_mac_len(s: Seq<Interface>)
    ensures
        (eth_names_missing_mac(s).len() > 0) == (exists|i: int|
            0 <= i < s.len() && is_ethernet_iface(s[i]) && s[i].mac_address is None),
    decreases s.len(),
{
    if s.len() > 0 {
        let t = s.drop_last();
        lemma_missing_mac_len(t);
        let last = s.last();
        if is_ethernet_iface(last) && last.mac_address is None {
            assert(is_ethernet_iface(s[s.len() - 1]) && s[s.len() - 1].mac_address is None);
        } else {
            if exists|i: int|
                0 <= i < s.len() && is_ethernet_iface(s[i]) && s[i].mac_address is None {
                let i = choose|i: int|
                    0 <= i < s.len() && is_ethernet_iface(s[i]) && s[i].mac_address is None;
                assert(i < s.len() - 1);
                assert(t[i] == s[i]);
            }
            if exists|i: int|
                0 <= i < t.len() && is_ethernet_iface(t[i]) && t[i].mac_address is None {
                let i = choose|i: int|
                    0 <= i < t.len() && is_ethernet_iface(t[i]) && t[i].mac_address is None;
                assert(s[i] == t[i]);
            }
        }
    }
}

/// An Ethernet-type interface without a MAC address makes validation fail
/// exactly when one is present in the list's contents: the outcome does
/// not depend on the order the interfaces were encountered in (only the
/// reported names do).
pub proof fn lemma_missing_mac_multiset(s: Seq<Interface>)
    ensures
        (eth_names_missing_mac(s).len() > 0) == ms_missing_mac_present(s.to_multiset()),
{
    broadcast use vstd::seq_lib::group_to_multiset_ensures;

    lemma_missing_mac_len(s);
    if exists|i: int| 0 <= i < s.len() && is_ethernet_iface(s[i]) && s[i].mac_address is None {
        let i = choose|i: int|
            0 <= i < s.len() && is_ethernet_iface(s[i]) && s[i].mac_address is None;
        assert(s.contains(s[i]));
        assert(s.to_multiset().count(s[i]) > 0);
    }
    if ms_missing_mac_present(s.to_multiset()) {
        let a = choose|a: Interface|
            s.to_multiset().count(a) > 0 && is_ethernet_iface(a) && a.mac_address is None;
        assert(s.contains(a));
        let i = choose|i: int| 0 <= i < s.len() && s[i] == a;
        assert(is_ethernet_iface(s[i]) && s[i].mac_address is None);
    }
}

/// MAC normalization changes no validation outcome: the normalized list
/// holds an Ethernet-type interface exactly where the plain list does,
/// and reports exactly the same names as missing a MAC address, since
/// normalization keeps every name and type and only changes the letter
/// case of addresses that are present.
pub proof fn lemma_validation_unchanged_by_normalization(a: Seq<Interface>, b: Seq<Interface>)
    requires
        normalized_seq(a, b),
    ensures
        ethernet_present(b) == ethernet_present(a),
        eth_names_missing_mac(b) == eth_names_missing_mac(a),
    decreases a.len(),
{
    if ethernet_present(a) {
        let i = choose|i: int| 0 <= i < a.len() && is_ethernet_iface(a[i]);
        assert(is_ethernet_iface(b[i]));
    }
    if ethernet_present(b) {
        let i = choose|i: int| 0 <= i < b.len() && is_ethernet_iface(b[i]);
        assert(is_ethernet_iface(a[i]));
    }
    if a.len() > 0 {
        assert(a.drop_last().len() == b.drop_last().len());
        assert(forall|i: int|
            0 <= i < a.drop_last().len() ==> a.drop_last()[i] == a[i] && b.drop_last()[i]
                == b[i]);
        lemma_validation_unchanged_by_normalization(a.drop_last(), b.drop_last());
        assert(iface_normalized(a.last(), b.last()));
        assert(b.last().logical_name@ == a.last().logical_name@);
    }
}

/// The first configuration set of the sequence keyed "NetworkManager",
/// from position `k` on.
pub open spec fn first_nm_group_from(groups: Seq<(String, Vec<(String, String)>)>, k: int) -> Option<
    Vec<(String, String)>,
>
    decreases groups.len() - k,
{
    if k < 0 || k >= groups.len() {
        None
    } else if groups[k].0@ == "NetworkManager"@ {
        Some(groups[k].1)
    } else {
        first_nm_group_from(groups, k + 1)
    }
}

/// The first configuration set keyed "NetworkManager", if any.
pub open spec fn first_nm_group(groups: Seq<(String, Vec<(String, String)>)>) -> Option<
    Vec<(String, String)>,
> {
    first_nm_group_from(groups, 0)
}

/// Select the "NetworkManager"-keyed configuration set out of the
/// generated groups; `None` when no group carries that key.
pub fn select_nm_config(groups: Vec<(String, Vec<(String, String)>)>) -> (r: Option<
    Vec<(String, String)>,
>)
    ensures
        (match r {
            Some(c) => first_nm_group(groups@) == Some(c),
            None => first_nm_group(groups@) is None,
        }),
{
    let ghost orig = groups@;
    let mut remaining = groups;
    let n = remaining.len();
    for j in 0..n
        invariant
            groups@ == orig,
            remaining@ == orig,
            n == orig.len(),
            first_nm_group_from(orig, 0) == first_nm_group_from(orig, j as int),
    {
        if str_eq(remaining[j].0.as_str(), "NetworkManager") {
            proof {
                assert(first_nm_group_from(orig, j as int) == Some(orig[j as int].1));
            }
            let g = remaining.remove(j);
            return Some(g.1);
        }
        proof {
            assert(first_nm_group_from(orig, j as int) == first_nm_group_from(orig, j + 1));
        }
    }
    proof {
        assert(first_nm_group_from(orig, n as int) is None);
    }
    None
}

/// The interface's MAC address, when present, is already in the canonical
/// lowercase form.
pub open spec fn mac_lowercased(i: Interface) -> bool {
    i.mac_address matches Some(m) ==> m@ == lower(m@)
}

/// The non-loopback interfaces of the state parsed from a document the
/// engine accepts.
pub open spec fn parsed_non_loopback(data: Seq<char>) -> Multiset<Interface> {
    non_loopback_part(parsed_ifaces(data))
}

/// Generate one host's network configuration from its declarative
/// network-state document: parse the document through the translation
/// engine, extract its non-loopback interfaces, normalize their MAC
/// addresses to lowercase before they are stored, validate them, and hand
/// back the validated interface list together with the "NetworkManager"
/// connection-profile file set.
///
/// The contract classifies every outcome: the invalid-document error comes
/// exactly when the engine rejects the document; the validation errors
/// come exactly as the parsed document's non-loopback contents dictate;
/// what remains is success or the engine's own generation failure. On
/// success the interface list is the normalized image of the parsed
/// non-loopback interfaces, every stored MAC address lowercase. The
/// missing-configuration error never comes, since the engine keys its one
/// generated set "NetworkManager"; the check is kept all the same.
pub fn generate_config(data: &str) -> (r: Result<
    (Vec<Interface>, Vec<(String, String)>),
    GenerateError,
>)
    ensures
        (r matches Err(e) && e matches GenerateError::InvalidNetworkState(_)) == !parse_ok(
            data@,
        ),
        !(r matches Err(GenerateError::MissingNetworkManagerConfig)),
        parse_ok(data@) && !ms_ethernet_present(parsed_non_loopback(data@)) ==> r == Err::<
            (Vec<Interface>, Vec<(String, String)>),
            GenerateError,
        >(GenerateError::NoEthernetInterfaces),
        parse_ok(data@) && ms_ethernet_present(parsed_non_loopback(data@))
            && ms_missing_mac_present(parsed_non_loopback(data@)) ==> (r matches Err(e)
            && e matches GenerateError::MissingMacAddresses(names) && names@.len() > 0),
        parse_ok(data@) && ms_ethernet_present(parsed_non_loopback(data@))
            && !ms_missing_mac_present(parsed_non_loopback(data@)) ==> (r matches Ok(_) || (
        r matches Err(e) && e matches GenerateError::GenerationFailed(_))),
        r matches Ok(p) ==> {
            &&& exists|raw: Seq<Interface>|
                raw.to_multiset() == parsed_non_loopback(data@) && #[trigger] normalized_seq(
                    raw,
                    p.0@,
                )
            &&& forall|i: int| 0 <= i < p.0@.len() ==> !is_loopback_iface(p.0@[i])
            &&& forall|i: int| 0 <= i < p.0@.len() ==> mac_lowercased(p.0@[i])
            &&& ethernet_present(p.0@)
            &&& eth_names_missing_mac(p.0@).len() == 0
        },
{
    let network_state = match parse_network_state(data) {
        Ok(ns) => ns,
        Err(msg) => {
            return Err(GenerateError::InvalidNetworkState(msg));
        },
    };
    let extracted = extract_interfaces(&network_state);
    let interfaces = normalize_interfaces(&extracted);
    proof {
        assert(extracted@.to_multiset() == parsed_non_loopback(data@));
        lemma_validation_unchanged_by_normalization(extracted@, interfaces@);
        lemma_ethernet_present_multiset(extracted@);
        lemma_missing_mac_multiset(extracted@);
        assert forall|i: int| 0 <= i < interfaces@.len() implies !is_loopback_iface(
            interfaces@[i],
        ) by {
            assert(iface_normalized(extracted@[i], interfaces@[i]));
        }
        assert forall|i: int| 0 <= i < interfaces@.len() implies mac_lowercased(
            interfaces@[i],
        ) by {
            assert(iface_normalized(extracted@[i], interfaces@[i]));
            if extracted@[i].mac_address is Some {
                lemma_lower_idempotent(extracted@[i].mac_address->0@);
            }
        }
    }
    if let Err(e) = validate_interfaces(&interfaces) {
        return Err(e);
    }
    let groups = match generate_network_configurations(&network_state) {
        Ok(groups) => groups,
        Err(msg) => {
            return Err(GenerateError::GenerationFailed(msg));
        },
    };
    let ghost groups_view = groups@;
    proof {
        assert(first_nm_group_from(groups_view, 0) == Some(groups_view[0].1));
    }
    match select_nm_config(groups) {
        Some(config) => {
            proof {
                assert(exists|raw: Seq<Interface>|
                    raw.to_multiset() == parsed_non_loopback(data@) && #[trigger] normalized_seq(
                        raw,
                        interfaces@,
                    )) by {
                    assert(normalized_seq(extracted@, interfaces@));
                }
            }
            Ok((interfaces, config))
        },
        None => {
            proof {
                assert(first_nm_group(groups_view) is None);
            }
            Err(GenerateError::MissingNetworkManagerConfig)
        },
    }
}

/// What a generator run does, decided from the shape of the config
/// directory.
#[derive(Debug, Clone, Copy, PartialEq, Eq, Structural)]
pub enum GenerationMode {
    /// The config directory holds no entries: the run fails with the
    /// empty-directory error.
    EmptyConfigDir,
    /// Exactly one entry, readable as the designated all-nodes file: one
    /// undifferentiated configuration is generated into a fixed output
    /// subdirectory, and no host mapping is written.
    AllNodes,
    /// One document per host: every non-directory entry is processed and
    /// one host record is appended to the mapping store for each.
    PerHost,
}

/// The run mode a config directory dictates, from its entry count and
/// whether its single entry reads as the designated all-nodes file.
pub open spec fn spec_generation_mode(files_count: int, all_nodes_readable: bool) -> GenerationMode {
    if files_count == 0 {
        GenerationMode::EmptyConfigDir
    } else if files_count == 1 && all_nodes_readable {
        GenerationMode::AllNodes
    } else {
        GenerationMode::PerHost
    }
}

/// Decide the generator's run mode, as `spec_generation_mode` describes:
/// no entries fail the run, a single readable all-nodes file selects the
/// undifferentiated mode, and anything else is processed per host.
pub fn generation_mode(files_count: usize, all_nodes_readable: bool) -> (r: GenerationMode)
    ensures
        r == spec_generation_mode(files_count as int, all_nodes_readable),
{
    if files_count == 0 {
        GenerationMode::EmptyConfigDir
    } else if files_count == 1 && all_nodes_readable {
        GenerationMode::AllNodes
    } else {
        GenerationMode::PerHost
    }
}

/// The message with which a run surfaces an empty config directory.
pub fn empty_config_dir_message() -> (r: String)
    ensures
        r@ == "Empty config directory"@,
{
    let r = String::from_str("Empty config directory");
    r
}

/// The hostname derived from a document's file name: a recognized YAML
/// extension ("yml" or "yaml") is stripped; any other name is taken
/// verbatim; an empty name yields nothing.
pub open spec fn hostname_of(name: Seq<char>) -> Option<Seq<char>> {
    if name.len() == 0 {
        None
    } else {
        match last_dot(name) {
            Some(i) => if i >= 1 && (name.skip(i + 1) == "yml"@ || name.skip(i + 1) == "yaml"@) {
                Some(name.take(i))
            } else {
                Some(name)
            },
            None => Some(name),
        }
    }
}

/// Derive the hostname from a document's file name, as `hostname_of`
/// describes.
pub fn extract_hostname(name: &str) -> (r: Option<String>)
    ensures
        (match hostname_of(name@) {
            Some(h) => r matches Some(s) && s@ == h,
            None => r is None,
        }),
{
    if name.unicode_len() == 0 {
        return None;
    }
    match split_last_dot(name) {
        Some((stem, ext)) => {
            if str_eq(ext.as_str(), "yml") || str_eq(ext.as_str(), "yaml") {
                Some(stem)
            } else {
                Some(name.to_owned())
            }
        },
        None => Some(name.to_owned()),
    }
}

} // verus!
