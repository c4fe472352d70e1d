//! Local TCP sockets.

use crate::cli::LocalAddr;
use vstd::prelude::*;

verus! {

/// The address at which connections are taken or made.
pub struct TCPConnectionProvider {
    address: LocalAddr,
}

impl TCPConnectionProvider {
    /// The address of the provider.
    pub closed spec fn addr(&self) -> LocalAddr {
        self.address
    }

    /// A provider for `address`.
    pub fn new(address: LocalAddr) -> (provider: Self)
        ensures
            provider.addr() == address,
    {
        TCPConnectionProvider { address }
    }

    /// The address of the provider.
    pub fn address(&self) -> (address: LocalAddr)
        ensures
            address == self.addr(),
    {
        self.address
    }
}

} // verus!
