//! Verified core of a cross-platform TUN interface library: address and
//! netmask conversions, device configuration, interface naming and the
//! decisions that drive packet batches and descriptor ownership.

pub mod error;
pub mod netmask;
pub mod decimal;
pub mod utun;
pub mod builder;
pub mod adapter;
pub mod mobile;
pub mod wintun;
pub mod batch;
pub mod fd;
pub mod interfaces;
