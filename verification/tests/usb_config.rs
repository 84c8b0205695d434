//! Construction-time USB configuration: packet-size selection and bulk
//! endpoint resolution.

use fastboot::usb::{
    id_matches, packet_size, reply_buffer_len, resolve_endpoints, ConfigError, DeviceConfig,
    EndpointDesc, EndpointDirection, LinkSpeed, TransferKind,
};

fn ep(address: u8, direction: EndpointDirection, kind: TransferKind) -> EndpointDesc {
    EndpointDesc { address, direction, kind }
}

#[test]
fn packet_size_full_speed_is_64() {
    assert_eq!(packet_size(Some(LinkSpeed::Full)), Ok(64));
    assert_eq!(packet_size(Some(LinkSpeed::Low)), Ok(64));
}

#[test]
fn packet_size_high_speed_is_512() {
    assert_eq!(packet_size(Some(LinkSpeed::High)), Ok(512));
}

#[test]
fn packet_size_super_speed_is_1024() {
    assert_eq!(packet_size(Some(LinkSpeed::Super)), Ok(1024));
    assert_eq!(packet_size(Some(LinkSpeed::SuperPlus)), Ok(1024));
}

#[test]
fn packet_size_unknown_speed_is_rejected() {
    assert_eq!(packet_size(None), Err(ConfigError::UnknownSpeed));
}

#[test]
fn resolve_finds_first_bulk_endpoint_of_each_direction() {
    let eps = vec![
        ep(0x83, EndpointDirection::In, TransferKind::Interrupt),
        ep(0x81, EndpointDirection::In, TransferKind::Bulk),
        ep(0x01, EndpointDirection::Out, TransferKind::Bulk),
        ep(0x82, EndpointDirection::In, TransferKind::Bulk),
    ];
    assert_eq!(resolve_endpoints(&eps), Ok((0x81, 0x01)));
}

#[test]
fn resolve_without_bulk_in_fails() {
    let eps = vec![
        ep(0x01, EndpointDirection::Out, TransferKind::Bulk),
        ep(0x82, EndpointDirection::In, TransferKind::Interrupt),
    ];
    assert_eq!(resolve_endpoints(&eps), Err(ConfigError::MissingBulkIn));
}

#[test]
fn resolve_without_bulk_out_fails() {
    let eps = vec![ep(0x81, EndpointDirection::In, TransferKind::Bulk)];
    assert_eq!(resolve_endpoints(&eps), Err(ConfigError::MissingBulkOut));
}

#[test]
fn resolve_on_empty_interface_fails() {
    assert_eq!(resolve_endpoints(&Vec::new()), Err(ConfigError::MissingBulkIn));
}

#[test]
fn device_config_combines_speed_and_endpoints() {
    let eps = vec![
        ep(0x81, EndpointDirection::In, TransferKind::Bulk),
        ep(0x01, EndpointDirection::Out, TransferKind::Bulk),
    ];
    assert_eq!(
        DeviceConfig::resolve(Some(LinkSpeed::High), &eps),
        Ok(DeviceConfig { bufsize: 512, e_in: 0x81, e_out: 0x01 })
    );
}

#[test]
fn device_config_rejects_unknown_speed_first() {
    let eps = vec![
        ep(0x81, EndpointDirection::In, TransferKind::Bulk),
        ep(0x01, EndpointDirection::Out, TransferKind::Bulk),
    ];
    assert_eq!(DeviceConfig::resolve(None, &eps), Err(ConfigError::UnknownSpeed));
}

#[test]
fn device_config_never_builds_a_handle_without_bulk_in() {
    let eps = vec![ep(0x01, EndpointDirection::Out, TransferKind::Bulk)];
    assert_eq!(
        DeviceConfig::resolve(Some(LinkSpeed::Full), &eps),
        Err(ConfigError::MissingBulkIn)
    );
}

#[test]
fn reply_buffer_is_at_least_the_fixed_bound() {
    assert_eq!(reply_buffer_len(64), 512);
    assert_eq!(reply_buffer_len(512), 512);
    assert_eq!(reply_buffer_len(1024), 1024);
}

#[test]
fn id_matches_wants_both_ids() {
    assert!(id_matches(0x0451, 0xd022, 0x0451, 0xd022));
    assert!(!id_matches(0x0451, 0xd022, 0x0451, 0xd023));
    assert!(!id_matches(0x0452, 0xd022, 0x0451, 0xd022));
}
