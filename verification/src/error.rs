use vstd::prelude::*;

verus! {

/// Why an address, prefix length or netmask given to the library was refused.
#[derive(Clone, Copy, Debug, PartialEq, Eq, Structural)]
pub enum AddressError {
    /// An address of the other family was given.
    InvalidAddress,
    /// A string that is not an IPv4 address was given as an address.
    InvalidIpv4Str,
    /// A string that is not an IPv6 address was given as an address.
    InvalidIpv6Str,
    /// A prefix length longer than the address was given.
    InvalidPrefixLength,
    /// A netmask whose one-bits are not all leading bits was given.
    InvalidNetmask,
    /// A string that is not an address was given as a netmask.
    InvalidNetmaskStr,
}

impl AddressError {
    /// The message that accompanies the error when it is reported as I/O data error.
    pub fn message(&self) -> (r: &'static str)
        ensures
            *self == AddressError::InvalidAddress ==> r@ == "invalid address"@,
            *self == AddressError::InvalidIpv4Str ==> r@ == "invalid IPv4 str"@,
            *self == AddressError::InvalidIpv6Str ==> r@ == "invalid IPv6 str"@,
            *self == AddressError::InvalidPrefixLength ==> r@ == "invalid IP prefix length"@,
            *self == AddressError::InvalidNetmask ==> r@ == "invalid netmask"@,
            *self == AddressError::InvalidNetmaskStr ==> r@ == "invalid netmask str"@,
    {
        match self {
            AddressError::InvalidAddress => "invalid address",
            AddressError::InvalidIpv4Str => "invalid IPv4 str",
            AddressError::InvalidIpv6Str => "invalid IPv6 str",
            AddressError::InvalidPrefixLength => "invalid IP prefix length",
            AddressError::InvalidNetmask => "invalid netmask",
            AddressError::InvalidNetmaskStr => "invalid netmask str",
        }
    }
}

} // verus!

verus! {

/// Why a device operation was refused by the library.
#[derive(Clone, Copy, Debug, PartialEq, Eq, Structural)]
pub enum DeviceError {
    /// The operation is not available on this platform.
    Unsupported,
}

} // verus!
