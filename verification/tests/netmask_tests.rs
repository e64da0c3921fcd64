use quincy_tun::error::AddressError;
use quincy_tun::netmask::{
    ipv4_netmask, ipv4_netmask_from_len, ipv4_netmask_from_mask, ipv4_prefix_from_len, ipv4_prefix_from_mask,
    ipv6_netmask, ipv6_netmask_from_len, ipv6_netmask_from_mask, ipv6_prefix_from_len, ipv6_prefix_from_mask,
};

#[test]
fn ipv4_prefix_from_len_accepts_up_to_32() {
    assert_eq!(ipv4_prefix_from_len(0), Ok(0));
    assert_eq!(ipv4_prefix_from_len(24), Ok(24));
    assert_eq!(ipv4_prefix_from_len(32), Ok(32));
    assert_eq!(ipv4_prefix_from_len(33), Err(AddressError::InvalidPrefixLength));
    assert_eq!(ipv4_prefix_from_len(255), Err(AddressError::InvalidPrefixLength));
}

#[test]
fn ipv6_prefix_from_len_accepts_up_to_128() {
    assert_eq!(ipv6_prefix_from_len(64), Ok(64));
    assert_eq!(ipv6_prefix_from_len(128), Ok(128));
    assert_eq!(ipv6_prefix_from_len(129), Err(AddressError::InvalidPrefixLength));
}

#[test]
fn ipv4_netmask_values() {
    assert_eq!(ipv4_netmask(0), 0);
    assert_eq!(ipv4_netmask(1), 0x8000_0000);
    assert_eq!(ipv4_netmask(24), 0xFFFF_FF00);
    assert_eq!(ipv4_netmask(32), 0xFFFF_FFFF);
}

#[test]
fn ipv6_netmask_values() {
    assert_eq!(ipv6_netmask(0), 0);
    assert_eq!(ipv6_netmask(64), 0xFFFF_FFFF_FFFF_FFFF_0000_0000_0000_0000);
    assert_eq!(ipv6_netmask(128), u128::MAX);
    assert_eq!(ipv6_netmask(127), u128::MAX - 1);
}

#[test]
fn ipv4_prefix_from_mask_reads_contiguous_masks() {
    assert_eq!(ipv4_prefix_from_mask(0xFFFF_FF00), Ok(24));
    assert_eq!(ipv4_prefix_from_mask(0), Ok(0));
    assert_eq!(ipv4_prefix_from_mask(0xFFFF_FFFF), Ok(32));
    assert_eq!(ipv4_prefix_from_mask(0xFFFF_0000), Ok(16));
}

#[test]
fn ipv4_prefix_from_mask_refuses_holes() {
    assert_eq!(ipv4_prefix_from_mask(0xFF00_FF00), Err(AddressError::InvalidNetmask));
    assert_eq!(ipv4_prefix_from_mask(0x0000_00FF), Err(AddressError::InvalidNetmask));
    assert_eq!(ipv4_prefix_from_mask(0x7FFF_FFFF), Err(AddressError::InvalidNetmask));
}

#[test]
fn ipv6_prefix_from_mask_reads_and_refuses() {
    assert_eq!(ipv6_prefix_from_mask(0xFFFF_FFFF_FFFF_FFFF_0000_0000_0000_0000), Ok(64));
    assert_eq!(ipv6_prefix_from_mask(u128::MAX), Ok(128));
    assert_eq!(ipv6_prefix_from_mask(0), Ok(0));
    assert_eq!(ipv6_prefix_from_mask(1), Err(AddressError::InvalidNetmask));
    assert_eq!(
        ipv6_prefix_from_mask(0xFFFF_0000_FFFF_0000_0000_0000_0000_0000),
        Err(AddressError::InvalidNetmask)
    );
}

#[test]
fn netmask_round_trips_through_prefix() {
    for p in 0..=32u8 {
        assert_eq!(ipv4_prefix_from_mask(ipv4_netmask(p)), Ok(p));
    }
    for p in 0..=128u8 {
        assert_eq!(ipv6_prefix_from_mask(ipv6_netmask(p)), Ok(p));
    }
}

#[test]
fn netmask_from_len_and_mask() {
    assert_eq!(ipv4_netmask_from_len(24), Ok(0xFFFF_FF00));
    assert_eq!(ipv4_netmask_from_len(40), Err(AddressError::InvalidPrefixLength));
    assert_eq!(ipv4_netmask_from_mask(0xFFFF_FF00), Ok(0xFFFF_FF00));
    assert_eq!(ipv4_netmask_from_mask(0xFFFF_FF01), Err(AddressError::InvalidNetmask));
    assert_eq!(ipv6_netmask_from_len(8), Ok(0xFF00_0000_0000_0000_0000_0000_0000_0000));
    assert_eq!(ipv6_netmask_from_len(200), Err(AddressError::InvalidPrefixLength));
    assert_eq!(ipv6_netmask_from_mask(u128::MAX << 100), Ok(u128::MAX << 100));
    assert_eq!(ipv6_netmask_from_mask(5), Err(AddressError::InvalidNetmask));
}

#[test]
fn address_error_messages() {
    assert_eq!(AddressError::InvalidAddress.message(), "invalid address");
    assert_eq!(AddressError::InvalidIpv4Str.message(), "invalid IPv4 str");
    assert_eq!(AddressError::InvalidIpv6Str.message(), "invalid IPv6 str");
    assert_eq!(AddressError::InvalidPrefixLength.message(), "invalid IP prefix length");
    assert_eq!(AddressError::InvalidNetmask.message(), "invalid netmask");
    assert_eq!(AddressError::InvalidNetmaskStr.message(), "invalid netmask str");
}
