use nm_configurator::identify::{identify_host, no_matching_host_message};
use nm_configurator::store::normalize_hosts;
use nm_configurator::types::{Host, Interface, LiveInterface};

fn store_host(hostname: &str, pairs: &[(&str, &str)]) -> Host {
    Host {
        hostname: hostname.to_string(),
        interfaces: pairs
            .iter()
            .map(|(name, mac)| Interface {
                logical_name: name.to_string(),
                mac_address: Some(mac.to_string()),
                interface_type: "ethernet".to_string(),
            })
            .collect(),
    }
}

fn live(name: &str, mac: Option<&str>) -> LiveInterface {
    LiveInterface {
        name: name.to_string(),
        mac_address: mac.map(|m| m.to_string()),
    }
}

#[test]
fn identifies_host_by_shared_mac() {
    let hosts = vec![
        store_host("node1", &[("eth0", "aa:bb:cc:dd:ee:ff")]),
        store_host("node2", &[("eth0", "11:22:33:44:55:66")]),
    ];
    let nics = vec![
        live("lo", None),
        live("enp1s0", Some("11:22:33:44:55:66")),
    ];

    let host = identify_host(hosts, &nics).unwrap();
    assert_eq!(host.hostname, "node2");
}

#[test]
fn identification_is_deterministic() {
    let hosts = vec![
        store_host("node1", &[("eth0", "aa:bb:cc:dd:ee:ff")]),
        store_host("node2", &[("eth0", "aa:bb:cc:dd:ee:ff")]),
    ];
    let nics = vec![live("eth0", Some("aa:bb:cc:dd:ee:ff"))];

    let first = identify_host(hosts.clone(), &nics).unwrap();
    let second = identify_host(hosts, &nics).unwrap();
    assert_eq!(first.hostname, second.hostname);
    // Two hosts sharing a MAC address is a misconfiguration; the first
    // match in store order wins.
    assert_eq!(first.hostname, "node1");
}

#[test]
fn identification_fails_when_no_mac_matches() {
    let hosts = vec![
        store_host("node1", &[("eth0", "aa:bb:cc:dd:ee:ff")]),
        store_host("node2", &[("eth0", "11:22:33:44:55:66")]),
    ];
    let nics = vec![
        live("eth0", Some("de:ad:be:ef:00:01")),
        live("eth1", None),
    ];

    assert!(identify_host(hosts, &nics).is_none());
    assert_eq!(
        no_matching_host_message(),
        "None of the preconfigured hosts match local NICs"
    );
}

#[test]
fn identification_matches_macs_case_insensitively() {
    // Matching is case-normalized on both sides: a lowercase store entry
    // matches a live interface reporting the same address in upper case,
    // with no normalization pass in between.
    let hosts = vec![store_host("node1", &[("eth0", "aa:bb:cc:dd:ee:ff")])];
    let nics = vec![live("enp1s0", Some("AA:BB:CC:DD:EE:FF"))];

    let host = identify_host(hosts, &nics).unwrap();
    assert_eq!(host.hostname, "node1");
}

#[test]
fn normalized_store_matches_case_insensitively() {
    let hosts = vec![store_host("node1", &[("eth0", "AA:BB:CC:DD:EE:FF")])];
    let hosts = normalize_hosts(&hosts);
    assert_eq!(
        hosts[0].interfaces[0].mac_address.as_deref(),
        Some("aa:bb:cc:dd:ee:ff")
    );

    let nics = vec![live("enp1s0", Some("aa:bb:cc:dd:ee:ff"))];
    let host = identify_host(hosts, &nics).unwrap();
    assert_eq!(host.hostname, "node1");
}

#[test]
fn apply_renames_profile_of_identified_host() {
    // The mapping store holds node1 with eth0 under a known MAC; the live
    // machine carries the same MAC under the name enp1s0. Identification
    // selects node1 and materialization renames the profile, rewriting
    // every occurrence of the preconfigured name.
    let hosts = vec![store_host("node1", &[("eth0", "aa:bb:cc:dd:ee:ff")])];
    let hosts = normalize_hosts(&hosts);
    let nics = vec![live("enp1s0", Some("aa:bb:cc:dd:ee:ff"))];

    let host = identify_host(hosts, &nics).unwrap();
    assert_eq!(host.hostname, "node1");

    let contents = "[connection]\nid=eth0\ninterface-name=eth0\n";
    let (name, rewritten) =
        nm_configurator::materialize::resolve_profile(&host, &nics, "eth0", contents);
    assert_eq!(name, "enp1s0");
    assert_eq!(
        rewritten,
        "[connection]\nid=enp1s0\ninterface-name=enp1s0\n"
    );
}

#[test]
fn normalize_keeps_names_and_types() {
    let hosts = vec![Host {
        hostname: "node1".to_string(),
        interfaces: vec![
            Interface {
                logical_name: "eth0".to_string(),
                mac_address: Some("FE:C4:05:42:8B:AA".to_string()),
                interface_type: "ethernet".to_string(),
            },
            Interface {
                logical_name: "bond0".to_string(),
                mac_address: None,
                interface_type: "bond".to_string(),
            },
        ],
    }];

    let normalized = normalize_hosts(&hosts);
    assert_eq!(
        normalized,
        vec![Host {
            hostname: "node1".to_string(),
            interfaces: vec![
                Interface {
                    logical_name: "eth0".to_string(),
                    mac_address: Some("fe:c4:05:42:8b:aa".to_string()),
                    interface_type: "ethernet".to_string(),
                },
                Interface {
                    logical_name: "bond0".to_string(),
                    mac_address: None,
                    interface_type: "bond".to_string(),
                },
            ],
        }]
    );
}
