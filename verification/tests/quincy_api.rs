use quincy_tun::builder::{ConfigStep, DeviceBuilder};
use quincy_tun::error::AddressError;
use quincy_tun::netmask::{ipv4_prefix_from_len, ipv4_prefix_from_mask};

fn address_contract() -> Result<(), AddressError> {
    // "10.0.0.1" and "255.255.255.0" as big-endian integers
    let _address: u32 = 0x0A00_0001;
    let prefix = ipv4_prefix_from_mask(0xFFFF_FF00)?;
    assert_eq!(prefix, 24);
    Ok(())
}

fn desktop_builder_contract() -> Vec<ConfigStep> {
    let builder = DeviceBuilder::<AddressError>::new()
        .name("tun0".to_string())
        .mtu(1400)
        .enable(true)
        .ipv4(Ok(0x0A00_0001), ipv4_prefix_from_len(24), None);
    let builder = builder.packet_information(false);
    builder.config().steps
}

#[test]
fn quincy_public_api_compiles() {
    let _ = address_contract;
    let _ = desktop_builder_contract;
    assert!(address_contract().is_ok());
    assert_eq!(
        desktop_builder_contract(),
        vec![
            ConfigStep::SetMtu(1400),
            ConfigStep::SetNetworkAddress { address: 0x0A00_0001, prefix: 24, destination: None },
            ConfigStep::Enable(true),
        ]
    );
}
