use config_validator::validation::validate_ip_address;

#[test]
fn dotted_quads_are_accepted() {
    assert_eq!(validate_ip_address("192.168.1.1"), Ok(()));
    assert_eq!(validate_ip_address("0.0.0.0"), Ok(()));
    assert_eq!(validate_ip_address("255.255.255.255"), Ok(()));
    assert_eq!(validate_ip_address("10.0.0.254"), Ok(()));
}

#[test]
fn octets_may_carry_a_sign_and_leading_zeros() {
    assert_eq!(validate_ip_address("+1.02.003.0004"), Ok(()));
    assert_eq!(validate_ip_address("000000000000000000000255.0.0.0"), Ok(()));
}

#[test]
fn other_part_counts_are_rejected() {
    let reason = Err("IP address must have exactly 4 octets".to_string());
    assert_eq!(validate_ip_address(""), reason);
    assert_eq!(validate_ip_address("1"), reason);
    assert_eq!(validate_ip_address("1.2.3"), reason);
    assert_eq!(validate_ip_address("1.2.3.4.5"), reason);
    assert_eq!(validate_ip_address("1.2.3.4."), reason);
    assert_eq!(validate_ip_address(".1.2.3.4"), reason);
    assert_eq!(validate_ip_address("...."), reason);
}

#[test]
fn the_part_count_is_checked_before_the_octets() {
    assert_eq!(
        validate_ip_address("999.x.1"),
        Err("IP address must have exactly 4 octets".to_string())
    );
}

#[test]
fn octets_out_of_range_are_rejected() {
    assert_eq!(validate_ip_address("256.1.1.1"), Err("Invalid octet: 256".to_string()));
    assert_eq!(validate_ip_address("1.1.1.999"), Err("Invalid octet: 999".to_string()));
    assert_eq!(
        validate_ip_address("1.99999999999999999999999.1.1"),
        Err("Invalid octet: 99999999999999999999999".to_string())
    );
}

#[test]
fn octets_that_are_not_numbers_are_rejected() {
    assert_eq!(validate_ip_address("a.b.c.d"), Err("Invalid octet: a".to_string()));
    assert_eq!(validate_ip_address("1..3.4"), Err("Invalid octet: ".to_string()));
    assert_eq!(validate_ip_address("..."), Err("Invalid octet: ".to_string()));
    assert_eq!(validate_ip_address("1.-2.3.4"), Err("Invalid octet: -2".to_string()));
    assert_eq!(validate_ip_address("1.2.+.4"), Err("Invalid octet: +".to_string()));
    assert_eq!(validate_ip_address("1.2.++3.4"), Err("Invalid octet: ++3".to_string()));
    assert_eq!(validate_ip_address("1.2.3. 4"), Err("Invalid octet:  4".to_string()));
    assert_eq!(validate_ip_address("1.2.3.4 "), Err("Invalid octet: 4 ".to_string()));
    assert_eq!(validate_ip_address("1.2.0x3.4"), Err("Invalid octet: 0x3".to_string()));
    assert_eq!(validate_ip_address("1.٣.3.4"), Err("Invalid octet: ٣".to_string()));
}

#[test]
fn the_first_bad_octet_is_named() {
    assert_eq!(validate_ip_address("1.x.300.y"), Err("Invalid octet: x".to_string()));
    assert_eq!(validate_ip_address("1.2.300.y"), Err("Invalid octet: 300".to_string()));
    assert_eq!(validate_ip_address("é.2.3.4"), Err("Invalid octet: é".to_string()));
    assert_eq!(validate_ip_address("1.2.3.ü9"), Err("Invalid octet: ü9".to_string()));
}
