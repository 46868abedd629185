//! Zero-copy decoder for nested network protocol headers: Ethernet (with
//! 802.1Q VLAN tagging), IPv4, IPv6 (with extension-header chains), TCP and
//! GRE. A view over a caller-supplied byte buffer is constructed fallibly,
//! validates its declared header length up front, and exposes typed field
//! accessors plus a cursor into the encapsulated payload.

use vstd::prelude::*;

pub mod ethernet;
pub mod gre;
pub mod ipv4;
pub mod ipv6;
pub mod options;
pub mod tcp;
pub mod util;

use crate::ipv4::{ipv4_valid, Ipv4Pdu};
use crate::ipv6::{ipv6_valid, Ipv6Pdu};

verus! {

/// Ethertype of an encapsulated IPv4 packet.
pub const ETHERTYPE_IPV4: u16 = 0x0800;

/// Ethertype of an encapsulated IPv6 packet.
pub const ETHERTYPE_IPV6: u16 = 0x86DD;

/// Ethertype of transparent Ethernet bridging (an Ethernet frame inside GRE).
pub const ETHERTYPE_TEB: u16 = 0x6558;

/// The 802.1Q tag protocol identifier.
pub const ETHERTYPE_DOT1Q: u16 = 0x8100;

/// IP protocol number of TCP.
pub const IP_PROTOCOL_TCP: u8 = 6;

/// IP protocol number of GRE.
pub const IP_PROTOCOL_GRE: u8 = 47;

/// Why a parser or field accessor failed.
#[derive(Debug, Clone, Copy, PartialEq, Eq, Structural)]
pub enum Error {
    /// The buffer is shorter than a required (fixed or computed) header length.
    Truncated,
    /// The bytes violate a structural wire-format invariant that this parser checks.
    Malformed,
    /// A specific byte range needed for one field lies beyond the buffer.
    OutOfBounds,
    /// A validated slice could not be converted to a fixed-size value.
    ConversionError,
}

/// A buffer starts with a parseable network-layer packet: its version nibble
/// selects IPv4 or IPv6 and the chosen header validates.
pub open spec fn ip_valid(b: Seq<u8>) -> bool {
    b.len() >= 1 && ((b[0] / 16 == 4 && ipv4_valid(b)) || (b[0] / 16 == 6 && ipv6_valid(b)))
}

/// The error `Ip::new` reports when `ip_valid` does not hold.
pub open spec fn ip_new_error(b: Seq<u8>) -> Error
    recommends
        !ip_valid(b),
{
    if b.len() < 1 {
        Error::Truncated
    } else if b[0] / 16 == 4 || b[0] / 16 == 6 {
        Error::Truncated
    } else {
        Error::Malformed
    }
}

/// A network-layer view: either protocol version, selected by the version
/// nibble of the first byte.
#[derive(Debug, Copy, Clone)]
pub enum Ip<'a> {
    Ipv4(Ipv4Pdu<'a>),
    Ipv6(Ipv6Pdu<'a>),
}

impl<'a> Ip<'a> {
    /// Constructs an [`Ipv4Pdu`] or [`Ipv6Pdu`] backed by the provided
    /// `buffer`, selected by the version nibble of its first byte
    pub fn new(buffer: &'a [u8]) -> (r: Result<Self, Error>)
        ensures
            match r {
                Ok(Ip::Ipv4(p)) => buffer@[0] / 16 == 4 && ipv4_valid(buffer@) && p@ == buffer@,
                Ok(Ip::Ipv6(p)) => buffer@[0] / 16 == 6 && ipv6_valid(buffer@) && p@ == buffer@,
                Err(e) => !ip_valid(buffer@) && e == ip_new_error(buffer@),
            },
    {
        if buffer.len() < 1 {
            return Err(Error::Truncated);
        }
        let version = *vstd::slice::slice_index_get(buffer, 0) / 16;
        if version == 4 {
            match ipv4::Ipv4Pdu::new(buffer) {
                Ok(p) => Ok(Ip::Ipv4(p)),
                Err(e) => Err(e),
            }
        } else if version == 6 {
            match ipv6::Ipv6Pdu::new(buffer) {
                Ok(p) => Ok(Ip::Ipv6(p)),
                Err(e) => Err(e),
            }
        } else {
            Err(Error::Malformed)
        }
    }
}

/// Any buffer shorter than a layer's minimum header size never validates for
/// that layer, so the layer's `new` — whose contract reports exactly
/// `Truncated` on such a buffer — fails as `Truncated`: 14 bytes for
/// Ethernet, 20 for IPv4, 40 for IPv6, 20 for TCP, 4 for GRE, and 1 for the
/// version-dispatching network-layer entry point.
pub proof fn lemma_minimum_header_sizes(b: Seq<u8>)
    ensures
        b.len() < 14 ==> !ethernet::eth_valid(b),
        b.len() < 20 ==> !ipv4_valid(b),
        b.len() < 40 ==> !ipv6_valid(b),
        b.len() < 20 ==> !tcp::tcp_valid(b),
        b.len() < 4 ==> !gre::gre_valid(b) && gre::gre_new_error(b) == Error::Truncated,
        b.len() < 1 ==> !ip_valid(b) && ip_new_error(b) == Error::Truncated,
{
}

} // verus!
