//! Why finding the default network interface failed.
use vstd::prelude::*;

verus! {

/// Why finding the default network interface failed.
#[derive(Debug, Clone, Copy, PartialEq, Eq, Structural)]
pub enum Error {
    /// A Win32 call gave this error code.
    Win32(u32),
    /// No route has destination 0.0.0.0.
    DefaultRouteMissing,
    /// No interface has the index of the default route.
    DefaultInterfaceMissing,
    /// The name of the default interface holds no `{`.
    DefaultInterfaceUnidentified,
    /// No IPv4 address is bound to the default interface.
    DefaultInterfaceNoIPAddr,
    /// No adapter with a six-byte address has the index of the default interface.
    DefaultInterfaceNoMACAddr,
}

} // verus!
