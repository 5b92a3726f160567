use nm_configurator::materialize::{connection_file_stem, resolve_profile};
use nm_configurator::text::{join_comma, lowercase, replace_all};
use nm_configurator::types::{Host, Interface, LiveInterface};

fn host_with_eth0() -> Host {
    Host {
        hostname: "node1".to_string(),
        interfaces: vec![Interface {
            logical_name: "eth0".to_string(),
            mac_address: Some("aa:bb:cc:dd:ee:ff".to_string()),
            interface_type: "ethernet".to_string(),
        }],
    }
}

fn live(name: &str, mac: Option<&str>) -> LiveInterface {
    LiveInterface {
        name: name.to_string(),
        mac_address: mac.map(|m| m.to_string()),
    }
}

#[test]
fn connection_file_stem_recognizes_profiles() {
    assert_eq!(
        connection_file_stem("eth0.nmconnection"),
        Some("eth0".to_string())
    );
    assert_eq!(
        connection_file_stem("bridge0.filter.nmconnection"),
        Some("bridge0.filter".to_string())
    );
    assert_eq!(connection_file_stem("readme.txt"), None);
    assert_eq!(connection_file_stem("eth0"), None);
    assert_eq!(connection_file_stem(".nmconnection"), None);
}

#[test]
fn resolve_profile_renames_on_mac_match_with_different_name() {
    let host = host_with_eth0();
    let nics = vec![
        live("lo", None),
        live("enp1s0", Some("aa:bb:cc:dd:ee:ff")),
    ];
    let contents = "[connection]\nid=eth0\ninterface-name=eth0\n";

    let (name, rewritten) = resolve_profile(&host, &nics, "eth0", contents);
    assert_eq!(name, "enp1s0");
    assert_eq!(rewritten, "[connection]\nid=enp1s0\ninterface-name=enp1s0\n");
}

#[test]
fn resolve_profile_matches_macs_case_insensitively() {
    let host = host_with_eth0();
    let nics = vec![live("enp1s0", Some("AA:BB:CC:DD:EE:FF"))];
    let contents = "[connection]\nid=eth0\n";

    let (name, rewritten) = resolve_profile(&host, &nics, "eth0", contents);
    assert_eq!(name, "enp1s0");
    assert_eq!(rewritten, "[connection]\nid=enp1s0\n");
}

#[test]
fn resolve_profile_keeps_name_when_live_name_matches() {
    let host = host_with_eth0();
    let nics = vec![live("eth0", Some("aa:bb:cc:dd:ee:ff"))];
    let contents = "[connection]\nid=eth0\n";

    let (name, rewritten) = resolve_profile(&host, &nics, "eth0", contents);
    assert_eq!(name, "eth0");
    assert_eq!(rewritten, contents);
}

#[test]
fn resolve_profile_keeps_name_without_mac_match() {
    let host = host_with_eth0();
    let nics = vec![live("enp1s0", Some("11:22:33:44:55:66"))];
    let contents = "[connection]\nid=eth0\n";

    let (name, rewritten) = resolve_profile(&host, &nics, "eth0", contents);
    assert_eq!(name, "eth0");
    assert_eq!(rewritten, contents);
}

#[test]
fn resolve_profile_keeps_name_for_unknown_stem() {
    let host = host_with_eth0();
    let nics = vec![live("enp1s0", Some("aa:bb:cc:dd:ee:ff"))];
    let contents = "[connection]\nid=bridge0\n";

    let (name, rewritten) = resolve_profile(&host, &nics, "bridge0", contents);
    assert_eq!(name, "bridge0");
    assert_eq!(rewritten, contents);
}

#[test]
fn replace_all_rewrites_every_occurrence() {
    assert_eq!(
        replace_all("eth0 and eth0, not eth1", "eth0", "enp1s0"),
        "enp1s0 and enp1s0, not eth1"
    );
    assert_eq!(replace_all("aaa", "aa", "b"), "ba");
    assert_eq!(replace_all("abc", "", "x"), "abc");
    assert_eq!(replace_all("", "eth0", "x"), "");
}

#[test]
fn lowercase_normalizes_letters_only() {
    assert_eq!(lowercase("FE:C4:05:42:8B:AA"), "fe:c4:05:42:8b:aa");
    assert_eq!(lowercase("aa:bb:cc:dd:ee:ff"), "aa:bb:cc:dd:ee:ff");
    assert_eq!(lowercase("MiXeD-123"), "mixed-123");
}

#[test]
fn join_comma_separates_names() {
    assert_eq!(join_comma(&vec![]), "");
    assert_eq!(join_comma(&vec!["eth1".to_string()]), "eth1");
    assert_eq!(
        join_comma(&vec!["eth1".to_string(), "eth3".to_string()]),
        "eth1, eth3"
    );
}
