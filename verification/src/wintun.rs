use vstd::prelude::*;
use crate::error::DeviceError;
use crate::adapter::bytes_equal;
use vstd::string::StringSliceAdditionalSpecFns;

verus! {

/// The length of an Ethernet hardware address.
pub const ETHER_ADDR_LEN: u8 = 6;

/// A request to set the MTU of an interface for one address family.
#[derive(Clone, Copy, Debug, PartialEq, Eq)]
pub struct MtuRequest {
    pub if_index: u32,
    pub mtu: u32,
    pub ipv4: bool,
}

/// A request to read the MTU of an interface for one address family.
#[derive(Clone, Copy, Debug, PartialEq, Eq)]
pub struct MtuQuery {
    pub if_index: u32,
    pub ipv4: bool,
}

/// A request to set the route metric of an interface.
#[derive(Clone, Copy, Debug, PartialEq, Eq)]
pub struct MetricRequest {
    pub if_index: u32,
    pub metric: u32,
}

/// A request to set the IPv4 address of an interface.
#[derive(Clone, Copy, Debug, PartialEq, Eq)]
pub struct Ipv4AddressRequest {
    pub if_index: u32,
    pub address: u32,
    pub prefix: u8,
    pub destination: Option<u32>,
}

/// A request to add an IPv6 address to an interface.
#[derive(Clone, Copy, Debug, PartialEq, Eq)]
pub struct Ipv6AddressRequest {
    pub if_index: u32,
    pub address: u128,
    pub prefix: u8,
}

/// A request to rename an interface.
pub struct RenameRequest {
    pub from: String,
    pub to: String,
}

/// A wintun device, as its configuration sees it: the interface it drives.
pub struct DeviceImpl {
    if_index: u32,
}

impl DeviceImpl {
    /// The device driving the interface with index `if_index`.
    pub fn from_index(if_index: u32) -> (r: Self)
        ensures
            r.index() == if_index,
    {
        DeviceImpl { if_index }
    }

    /// The index of the interface.
    pub closed spec fn index(&self) -> u32 {
        self.if_index
    }

    /// The index of the interface.
    pub fn if_index(&self) -> (r: u32)
        ensures
            r == self.index(),
    {
        self.if_index
    }

    /// Renaming the interface whose current name is `current` to `value`:
    /// nothing to do when the names are the same, else the rename to perform.
    pub fn set_name(&self, current: &str, value: &str) -> (r: Option<RenameRequest>)
        ensures
            current.spec_bytes() == value.spec_bytes() <==> r is None,
            r matches Some(req) ==> req.from@ == current@ && req.to@ == value@,
    {
        let same = bytes_equal(current.as_bytes(), value.as_bytes());
        if same {
            return None;
        }
        Some(RenameRequest { from: current.to_owned(), to: value.to_owned() })
    }

    /// The request that reads the IPv4 MTU of the interface.
    pub fn mtu_query(&self) -> (r: MtuQuery)
        ensures
            r == (MtuQuery { if_index: self.index(), ipv4: true }),
    {
        MtuQuery { if_index: self.if_index, ipv4: true }
    }

    /// The request that reads the IPv6 MTU of the interface.
    pub fn mtu_v6_query(&self) -> (r: MtuQuery)
        ensures
            r == (MtuQuery { if_index: self.index(), ipv4: false }),
    {
        MtuQuery { if_index: self.if_index, ipv4: false }
    }

    /// The IPv4 MTU of the interface, from the value the system reports for
    /// the request of `mtu_query`.
    pub fn mtu(&self, reported: u32) -> (r: u16)
        ensures
            r == reported as u16,
    {
        reported as u16
    }

    /// The IPv6 MTU of the interface, from the value the system reports for
    /// the request of `mtu_v6_query`.
    pub fn mtu_v6(&self, reported: u32) -> (r: u16)
        ensures
            r == reported as u16,
    {
        reported as u16
    }

    /// The request that sets the IPv4 MTU of the interface.
    pub fn set_mtu(&self, mtu: u16) -> (r: MtuRequest)
        ensures
            r == (MtuRequest { if_index: self.index(), mtu: mtu as u32, ipv4: true }),
    {
        MtuRequest { if_index: self.if_index, mtu: mtu as u32, ipv4: true }
    }

    /// The request that sets the IPv6 MTU of the interface.
    pub fn set_mtu_v6(&self, mtu: u16) -> (r: MtuRequest)
        ensures
            r == (MtuRequest { if_index: self.index(), mtu: mtu as u32, ipv4: false }),
    {
        MtuRequest { if_index: self.if_index, mtu: mtu as u32, ipv4: false }
    }

    /// The request that sets the route metric of the interface.
    pub fn set_metric(&self, metric: u16) -> (r: MetricRequest)
        ensures
            r == (MetricRequest { if_index: self.index(), metric: metric as u32 }),
    {
        MetricRequest { if_index: self.if_index, metric: metric as u32 }
    }

    /// The request that sets the IPv4 address of the interface, or the first
    /// conversion that failed: the address is looked at first, then the
    /// prefix length, then the destination.
    pub fn set_network_address<E>(
        &self,
        address: Result<u32, E>,
        prefix: Result<u8, E>,
        destination: Option<Result<u32, E>>,
    ) -> (r: Result<Ipv4AddressRequest, E>)
        ensures
            r == (match address {
                Err(e) => Err(e),
                Ok(a) => match prefix {
                    Err(e) => Err(e),
                    Ok(p) => match destination {
                        Some(Err(e)) => Err(e),
                        Some(Ok(d)) => Ok(Ipv4AddressRequest { if_index: self.index(), address: a, prefix: p, destination: Some(d) }),
                        None => Ok(Ipv4AddressRequest { if_index: self.index(), address: a, prefix: p, destination: None }),
                    },
                },
            }),
    {
        let address = match address {
            Ok(a) => a,
            Err(e) => return Err(e),
        };
        let prefix = match prefix {
            Ok(p) => p,
            Err(e) => return Err(e),
        };
        let destination = match destination {
            Some(Err(e)) => return Err(e),
            Some(Ok(d)) => Some(d),
            None => None,
        };
        Ok(Ipv4AddressRequest { if_index: self.if_index, address, prefix, destination })
    }

    /// The request that adds an IPv4 address to the interface, or the first
    /// conversion that failed: the address is looked at first, then the
    /// prefix length.
    pub fn add_address_v4<E>(&self, address: Result<u32, E>, prefix: Result<u8, E>) -> (r: Result<
        Ipv4AddressRequest,
        E,
    >)
        ensures
            r == (match address {
                Err(e) => Err(e),
                Ok(a) => match prefix {
                    Err(e) => Err(e),
                    Ok(p) => Ok(Ipv4AddressRequest { if_index: self.index(), address: a, prefix: p, destination: None }),
                },
            }),
    {
        let address = match address {
            Ok(a) => a,
            Err(e) => return Err(e),
        };
        let prefix = match prefix {
            Ok(p) => p,
            Err(e) => return Err(e),
        };
        Ok(Ipv4AddressRequest { if_index: self.if_index, address, prefix, destination: None })
    }

    /// The request that adds an IPv6 address to the interface, or the first
    /// conversion that failed: the address is looked at first, then the
    /// prefix length.
    pub fn add_address_v6<E>(&self, address: Result<u128, E>, prefix: Result<u8, E>) -> (r: Result<
        Ipv6AddressRequest,
        E,
    >)
        ensures
            r == (match address {
                Err(e) => Err(e),
                Ok(a) => match prefix {
                    Err(e) => Err(e),
                    Ok(p) => Ok(Ipv6AddressRequest { if_index: self.index(), address: a, prefix: p }),
                },
            }),
    {
        let address = match address {
            Ok(a) => a,
            Err(e) => return Err(e),
        };
        let prefix = match prefix {
            Ok(p) => p,
            Err(e) => return Err(e),
        };
        Ok(Ipv6AddressRequest { if_index: self.if_index, address, prefix })
    }

    /// A wintun interface has no hardware address to set: always `Unsupported`.
    pub fn set_mac_address(&self, eth_addr: [u8; 6]) -> (r: Result<(), DeviceError>)
        ensures
            r == Err::<(), DeviceError>(DeviceError::Unsupported),
    {
        Err(DeviceError::Unsupported)
    }

    /// A wintun interface has no hardware address: always `Unsupported`.
    pub fn mac_address(&self) -> (r: Result<[u8; 6], DeviceError>)
        ensures
            r == Err::<[u8; 6], DeviceError>(DeviceError::Unsupported),
    {
        Err(DeviceError::Unsupported)
    }
}

} // verus!
