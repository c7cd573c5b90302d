use config_validator::{
    NetworkConfig, NetworkInterface, NetworkType, Validate, ValidationError,
};

fn interface(name: &str) -> NetworkInterface {
    NetworkInterface { name: name.to_string(), network_type: NetworkType::Infiniband, speed_gbps: 0 }
}

fn reason(name: &str) -> String {
    match interface(name).validate() {
        Err(ValidationError::InvalidNetworkInterface { name: reported, reason }) => {
            assert_eq!(reported, name);
            reason
        }
        other => panic!("unexpected result for {:?}: {:?}", name, other),
    }
}

#[test]
fn letters_then_digits_are_accepted() {
    assert!(interface("eth0").validate().is_ok());
    assert!(interface("e0").validate().is_ok());
    assert!(interface("ib12").validate().is_ok());
    assert!(interface("ETH00123").validate().is_ok());
    assert!(interface("OmniPath9").validate().is_ok());
}

#[test]
fn a_name_without_leading_letters_is_rejected() {
    assert_eq!(reason("0eth"), "Must start with letters and end with digits");
    assert_eq!(reason(""), "Must start with letters and end with digits");
    assert_eq!(reason("0"), "Must start with letters and end with digits");
    assert_eq!(reason("-eth0"), "Must start with letters and end with digits");
    assert_eq!(reason("éth0"), "Must start with letters and end with digits");
}

#[test]
fn a_name_without_digits_is_rejected() {
    assert_eq!(reason("ethx"), "Must start with letters and end with digits");
    assert_eq!(reason("e"), "Must start with letters and end with digits");
}

#[test]
fn anything_but_digits_after_the_letters_is_rejected() {
    assert_eq!(reason("eth0x"), "Invalid character");
    assert_eq!(reason("eth-0"), "Invalid character");
    assert_eq!(reason("eth0.1"), "Invalid character");
    assert_eq!(reason("eth0 "), "Invalid character");
    assert_eq!(reason("eth_"), "Invalid character");
    assert_eq!(reason("eth٣"), "Invalid character");
}

#[test]
fn a_network_without_interfaces_is_valid() {
    assert!(NetworkConfig { interfaces: vec![] }.validate().is_ok());
}

#[test]
fn a_network_reports_every_bad_interface_in_order() {
    let network = NetworkConfig {
        interfaces: vec![interface("eth0"), interface("0eth"), interface("ib1"), interface("ib1x")],
    };
    match network.validate() {
        Err(ValidationError::MultipleErrors(errors)) => {
            assert_eq!(errors.len(), 2);
            assert!(matches!(
                &errors[0],
                ValidationError::InvalidNetworkInterface { name, reason }
                    if name == "0eth" && reason == "Must start with letters and end with digits"
            ));
            assert!(matches!(
                &errors[1],
                ValidationError::InvalidNetworkInterface { name, reason }
                    if name == "ib1x" && reason == "Invalid character"
            ));
        }
        other => panic!("unexpected result: {:?}", other),
    }
}

#[test]
fn a_single_bad_interface_is_still_reported_in_an_aggregate() {
    let network = NetworkConfig { interfaces: vec![interface("eth")] };
    match network.validate() {
        Err(ValidationError::MultipleErrors(errors)) => {
            assert_eq!(errors.len(), 1);
            assert!(matches!(&errors[0], ValidationError::InvalidNetworkInterface { .. }));
        }
        other => panic!("unexpected result: {:?}", other),
    }
}
