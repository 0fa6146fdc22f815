use heatmon::discovery::{
    address_allowed, is_sensor_characteristic, select_transport, sensor_family_matches,
    should_retry, DiscoveryTransport, SENSOR_CHARACTERISTIC_UUID,
};

#[test]
fn transport_selection_prefers_low_energy() {
    assert_eq!(select_transport(false, false), DiscoveryTransport::Auto);
    assert_eq!(select_transport(true, false), DiscoveryTransport::Le);
    assert_eq!(select_transport(false, true), DiscoveryTransport::BrEdr);
    assert_eq!(select_transport(true, true), DiscoveryTransport::Le);
}

#[test]
fn empty_allow_list_admits_every_address() {
    let filter: Vec<String> = Vec::new();
    assert!(address_allowed(&filter, &"AA:BB".to_string()));
}

#[test]
fn allow_list_admits_only_its_members() {
    let filter = vec!["AA:BB".to_string(), "CC:DD".to_string()];
    assert!(address_allowed(&filter, &"AA:BB".to_string()));
    assert!(address_allowed(&filter, &"CC:DD".to_string()));
    assert!(!address_allowed(&filter, &"EE:FF".to_string()));
}

#[test]
fn sensor_family_is_recognised_by_name_prefix() {
    assert!(sensor_family_matches("TP357"));
    assert!(sensor_family_matches("TP357S (9141)"));
    assert!(!sensor_family_matches("TP35"));
    assert!(!sensor_family_matches("XTP357"));
    assert!(!sensor_family_matches(""));
    assert!(!sensor_family_matches("TP358"));
}

#[test]
fn connector_makes_three_attempts() {
    assert!(should_retry(0));
    assert!(should_retry(1));
    assert!(should_retry(2));
    assert!(!should_retry(3));
    assert!(!should_retry(200));
}

#[test]
fn only_the_fixed_characteristic_matches() {
    assert!(is_sensor_characteristic(SENSOR_CHARACTERISTIC_UUID));
    assert!(is_sensor_characteristic(0x000102030405060708090a0b0c0d2b10));
    assert!(!is_sensor_characteristic(0x000102030405060708090a0b0c0d2b11));
    assert!(!is_sensor_characteristic(0));
}
