use vstd::prelude::*;
use crate::error::DeviceError;

verus! {

/// A TUN device whose descriptor was handed over by the operating system's
/// VPN service (Android, iOS); its interface cannot be queried or configured
/// through the descriptor alone.
pub struct DeviceImpl {
    fd: i32,
}

impl DeviceImpl {
    /// The device on the descriptor `fd`.
    pub fn from_fd(fd: i32) -> (r: Self)
        ensures
            r.fd() == fd,
    {
        DeviceImpl { fd }
    }

    /// The descriptor the device uses.
    pub closed spec fn fd(&self) -> i32 {
        self.fd
    }

    /// The descriptor the device uses.
    pub fn raw_fd(&self) -> (r: i32)
        ensures
            r == self.fd(),
    {
        self.fd
    }

    /// The interface name cannot be queried from the descriptor: always
    /// `Unsupported`.
    pub fn name(&self) -> (r: Result<String, DeviceError>)
        ensures
            r == Err::<String, DeviceError>(DeviceError::Unsupported),
    {
        Err(DeviceError::Unsupported)
    }

    /// The interface cannot be brought up or down through the descriptor:
    /// always `Unsupported`.
    pub fn enabled(&self, value: bool) -> (r: Result<(), DeviceError>)
        ensures
            r == Err::<(), DeviceError>(DeviceError::Unsupported),
    {
        Err(DeviceError::Unsupported)
    }

    /// The MTU cannot be queried from the descriptor: always `Unsupported`.
    pub fn mtu(&self) -> (r: Result<u16, DeviceError>)
        ensures
            r == Err::<u16, DeviceError>(DeviceError::Unsupported),
    {
        Err(DeviceError::Unsupported)
    }
}

} // verus!
