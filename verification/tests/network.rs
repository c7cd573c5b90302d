use config_validator::{NetworkInterface, NetworkType, Validate};

#[test]
fn network_valid_interface() {
    let ni = NetworkInterface {
        name: String::from("eth0"),
        network_type: NetworkType::Ethernet,
        speed_gbps: 10,
    };
    assert!(ni.validate().is_ok());
}

#[test]
fn network_invalid_interface() {
    let ni = NetworkInterface {
        name: "0eth".into(),
        network_type: NetworkType::Ethernet,
        speed_gbps: 10,
    };
    assert!(ni.validate().is_err());
}
