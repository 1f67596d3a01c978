//! What the kernel asks of a device driver.
use vstd::prelude::*;
use crate::result::Error;

verus! {

/// A 48-bit Ethernet MAC address.
#[derive(Clone, Copy, Debug, PartialEq, Eq)]
pub struct MacAddress([u8; 6]);

impl MacAddress {
    /// The six octets of the address.
    pub closed spec fn view(self) -> Seq<u8> {
        self.0@
    }

    pub fn new(addr: [u8; 6]) -> (r: MacAddress)
        ensures
            r@ == addr@,
    {
        MacAddress(addr)
    }

    pub fn as_array(&self) -> (r: [u8; 6])
        ensures
            r@ == self@,
    {
        self.0
    }
}

/// A device driver.
pub trait Driver {
    /// The driver's name, for messages.
    fn name(&self) -> &str;
}

/// A driver of an Ethernet card.
pub trait EthernetDriver: Driver {
    /// The card's MAC address.
    fn mac_addr(&self) -> Result<MacAddress, Error>;

    /// Sends one Ethernet frame.
    fn transmit(&mut self, frame: &[u8]) -> Result<(), Error>;
}

} // verus!
