use nm_configurator::generate::{
    empty_config_dir_message, extract_hostname, extract_interfaces, generate_config,
    generation_mode, validate_interfaces, GenerationMode,
};
use nm_configurator::types::Interface;

#[test]
fn generate_config_fails_due_to_invalid_data() {
    let err = generate_config("<invalid>").unwrap_err();
    assert!(err.message().contains("Invalid YAML string"))
}

#[test]
fn extract_interfaces_skips_loopback() -> Result<(), serde_yaml::Error> {
    let net_state: nmstate::NetworkState = serde_yaml::from_str(
        r#"---
        interfaces:
          - name: eth1
            type: ethernet
            mac-address: FE:C4:05:42:8B:AA
          - name: bridge0
            type: linux-bridge
            mac-address: FE:C4:05:42:8B:AB
          - name: lo
            type: loopback
            mac-address: 00:00:00:00:00:00
        "#,
    )?;

    let mut interfaces = extract_interfaces(&net_state);
    interfaces.sort_by(|a, b| a.logical_name.cmp(&b.logical_name));

    assert_eq!(
        interfaces,
        vec![
            Interface {
                logical_name: "bridge0".to_string(),
                mac_address: Option::from("FE:C4:05:42:8B:AB".to_string()),
                interface_type: "linux-bridge".to_string(),
            },
            Interface {
                logical_name: "eth1".to_string(),
                mac_address: Option::from("FE:C4:05:42:8B:AA".to_string()),
                interface_type: "ethernet".to_string(),
            },
        ]
    );

    Ok(())
}

#[test]
fn validate_interfaces_missing_ethernet_interfaces() {
    let interfaces = vec![
        Interface {
            logical_name: "eth3.1365".to_string(),
            mac_address: None,
            interface_type: "vlan".to_string(),
        },
        Interface {
            logical_name: "bond0".to_string(),
            mac_address: None,
            interface_type: "bond".to_string(),
        },
    ];

    let error = validate_interfaces(&interfaces).unwrap_err();
    assert_eq!(error.message(), "No Ethernet interfaces were provided")
}

#[test]
fn validate_interfaces_missing_mac_addresses() {
    let interfaces = vec![
        Interface {
            logical_name: "eth0".to_string(),
            mac_address: Option::from("00:11:22:33:44:55".to_string()),
            interface_type: "ethernet".to_string(),
        },
        Interface {
            logical_name: "eth1".to_string(),
            mac_address: None,
            interface_type: "ethernet".to_string(),
        },
        Interface {
            logical_name: "eth2".to_string(),
            mac_address: Option::from("00:11:22:33:44:56".to_string()),
            interface_type: "ethernet".to_string(),
        },
        Interface {
            logical_name: "eth3".to_string(),
            mac_address: None,
            interface_type: "ethernet".to_string(),
        },
        Interface {
            logical_name: "eth3.1365".to_string(),
            mac_address: None,
            interface_type: "vlan".to_string(),
        },
        Interface {
            logical_name: "bond0".to_string(),
            mac_address: Option::from("00:11:22:33:44:58".to_string()),
            interface_type: "bond".to_string(),
        },
    ];

    let error = validate_interfaces(&interfaces).unwrap_err();
    assert_eq!(
        error.message(),
        "Detected Ethernet interfaces without a MAC address: eth1, eth3"
    )
}

#[test]
fn validate_interfaces_successfully() {
    let interfaces = vec![
        Interface {
            logical_name: "eth0".to_string(),
            mac_address: Option::from("00:11:22:33:44:55".to_string()),
            interface_type: "ethernet".to_string(),
        },
        Interface {
            logical_name: "eth0.1365".to_string(),
            mac_address: None,
            interface_type: "vlan".to_string(),
        },
        Interface {
            logical_name: "bond0".to_string(),
            mac_address: None,
            interface_type: "bond".to_string(),
        },
    ];

    assert!(validate_interfaces(&interfaces).is_ok())
}

#[test]
fn extract_host_name() {
    assert_eq!(extract_hostname(""), None);
    assert_eq!(extract_hostname("node1"), Some("node1".to_string()));
    assert_eq!(
        extract_hostname("node1.example"),
        Some("node1.example".to_string())
    );
    assert_eq!(
        extract_hostname("node1.example.com"),
        Some("node1.example.com".to_string())
    );
    assert_eq!(
        extract_hostname("node1.example.com.yml"),
        Some("node1.example.com".to_string())
    );
    assert_eq!(
        extract_hostname("node1.example.com.yaml"),
        Some("node1.example.com".to_string())
    );
}

#[test]
fn generate_config_produces_profiles_and_interfaces() {
    let doc = r#"---
interfaces:
  - name: eth0
    type: ethernet
    state: up
    mac-address: aa:bb:cc:dd:ee:ff
  - name: lo
    type: loopback
    state: up
    mac-address: 00:00:00:00:00:00
"#;

    let (interfaces, config) = generate_config(doc).unwrap();

    assert_eq!(interfaces.len(), 1);
    assert_eq!(interfaces[0].logical_name, "eth0");
    assert_eq!(interfaces[0].interface_type, "ethernet");
    // Stored MAC addresses are normalized to lowercase, whatever case the
    // document or the engine hands back.
    assert_eq!(
        interfaces[0].mac_address.as_deref(),
        Some("aa:bb:cc:dd:ee:ff")
    );

    assert!(config
        .iter()
        .any(|(file_name, _)| file_name == "eth0.nmconnection"));
}

#[test]
fn generate_config_normalizes_uppercase_macs() {
    let doc = r#"---
interfaces:
  - name: eth0
    type: ethernet
    state: up
    mac-address: FE:C4:05:42:8B:AA
"#;

    let (interfaces, _) = generate_config(doc).unwrap();
    assert_eq!(interfaces.len(), 1);
    assert_eq!(
        interfaces[0].mac_address.as_deref(),
        Some("fe:c4:05:42:8b:aa")
    );
}

#[test]
fn generation_mode_decides_from_directory_shape() {
    assert_eq!(generation_mode(0, false), GenerationMode::EmptyConfigDir);
    assert_eq!(generation_mode(0, true), GenerationMode::EmptyConfigDir);
    assert_eq!(generation_mode(1, true), GenerationMode::AllNodes);
    assert_eq!(generation_mode(1, false), GenerationMode::PerHost);
    assert_eq!(generation_mode(2, true), GenerationMode::PerHost);
    assert_eq!(empty_config_dir_message(), "Empty config directory");
}

#[test]
fn generate_config_fails_without_ethernet_interfaces() {
    let doc = r#"---
interfaces:
  - name: bridge0
    type: linux-bridge
    state: up
"#;

    let err = generate_config(doc).unwrap_err();
    assert_eq!(err.message(), "No Ethernet interfaces were provided");
}
