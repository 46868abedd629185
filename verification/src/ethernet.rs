//! Ethernet II header view: a fixed 14-byte header, extended to 18 bytes when
//! an 802.1Q VLAN tag is present (tag protocol identifier 0x8100 in the
//! ethertype field), in which case the real ethertype follows the tag.

use vstd::prelude::*;
use vstd::slice::{slice_index_get, slice_subrange};

use crate::ipv4::{ipv4_valid, Ipv4Pdu};
use crate::ipv6::{ipv6_valid, Ipv6Pdu};
use crate::util;
use crate::util::be16;
use crate::{Error, ETHERTYPE_IPV4, ETHERTYPE_IPV6};

verus! {

/// Contains the inner payload of an [`EthernetPdu`]
#[derive(Debug, Copy, Clone)]
pub enum Ethernet<'a> {
    Raw(&'a [u8]),
    Ipv4(Ipv4Pdu<'a>),
    Ipv6(Ipv6Pdu<'a>),
}

/// Whether the frame carries an 802.1Q VLAN tag: the ethertype field at
/// offset 12 holds the tag protocol identifier 0x8100.
pub open spec fn eth_is_tagged(b: Seq<u8>) -> bool
    recommends
        b.len() >= 14,
{
    be16(b, 12) == 0x8100
}

/// The header length in bytes: 14, or 18 when a VLAN tag is present.
pub open spec fn eth_computed_ihl(b: Seq<u8>) -> int
    recommends
        b.len() >= 14,
{
    if eth_is_tagged(b) {
        18int
    } else {
        14int
    }
}

/// A buffer holds a well-formed Ethernet header: at least 14 bytes, and at
/// least 18 when a VLAN tag is present.
pub open spec fn eth_valid(b: Seq<u8>) -> bool {
    b.len() >= 14 && b.len() >= eth_computed_ihl(b)
}

/// The ethertype of the payload: read after the VLAN tag when one is
/// present, else from the fixed header.
pub open spec fn eth_ethertype(b: Seq<u8>) -> u16
    recommends
        eth_valid(b),
{
    if eth_is_tagged(b) {
        be16(b, 16)
    } else {
        be16(b, 12)
    }
}

/// The 12-bit VLAN identifier, present only on a tagged frame.
pub open spec fn eth_vlan(b: Seq<u8>) -> Option<u16>
    recommends
        eth_valid(b),
{
    if eth_is_tagged(b) {
        Some(be16(b, 14) & 0x0fff)
    } else {
        None
    }
}

/// The 3-bit VLAN priority code point, present only on a tagged frame.
pub open spec fn eth_vlan_pcp(b: Seq<u8>) -> Option<u8>
    recommends
        eth_valid(b),
{
    if eth_is_tagged(b) {
        Some((be16(b, 14) >> 13) as u8)
    } else {
        None
    }
}

/// The VLAN drop-eligible indicator bit, present only on a tagged frame.
pub open spec fn eth_vlan_dei(b: Seq<u8>) -> Option<bool>
    recommends
        eth_valid(b),
{
    if eth_is_tagged(b) {
        Some(be16(b, 14) & 0x1000 != 0)
    } else {
        None
    }
}

/// Represents an Ethernet header and payload
#[derive(Debug, Copy, Clone)]
pub struct EthernetPdu<'a> {
    buffer: &'a [u8],
}

impl<'a> View for EthernetPdu<'a> {
    type V = Seq<u8>;

    closed spec fn view(&self) -> Seq<u8> {
        self.buffer@
    }
}

impl<'a> EthernetPdu<'a> {
    #[verifier::type_invariant]
    spec fn wf(self) -> bool {
        eth_valid(self.buffer@)
    }

    /// Constructs an [`EthernetPdu`] backed by the provided `buffer`
    pub fn new(buffer: &'a [u8]) -> (r: Result<Self, Error>)
        ensures
            match r {
                Ok(p) => eth_valid(buffer@) && p@ == buffer@,
                Err(e) => !eth_valid(buffer@) && e == Error::Truncated,
            },
    {
        if buffer.len() < 14 {
            return Err(Error::Truncated);
        }
        let hi = *slice_index_get(buffer, 12);
        let lo = *slice_index_get(buffer, 13);
        let tpid: u16 = (hi as u16) * 256 + (lo as u16);
        let ihl: usize = if tpid == 0x8100 {
            18
        } else {
            14
        };
        if buffer.len() < ihl {
            return Err(Error::Truncated);
        }
        Ok(EthernetPdu { buffer })
    }

    /// Returns a reference to the entire underlying buffer that was provided
    /// during construction
    pub fn buffer(&'a self) -> (r: &'a [u8])
        ensures
            r@ == self@,
    {
        self.buffer
    }

    /// Consumes this object and returns a reference to the entire underlying
    /// buffer that was provided during construction
    pub fn into_buffer(self) -> (r: &'a [u8])
        ensures
            r@ == self@,
    {
        self.buffer
    }

    /// Returns the slice of the underlying buffer that contains the header
    /// part of this PDU
    pub fn as_bytes(&'a self) -> (r: &'a [u8])
        ensures
            r@ == self@.subrange(0, eth_computed_ihl(self@)),
    {
        self.clone().into_bytes()
    }

    /// Consumes this object and returns the slice of the underlying buffer
    /// that contains the header part of this PDU
    pub fn into_bytes(self) -> (r: &'a [u8])
        ensures
            r@ == self@.subrange(0, eth_computed_ihl(self@)),
    {
        proof {
            use_type_invariant(&self);
        }
        let ihl = match self.computed_ihl() {
            Ok(ihl) => ihl,
            Err(_) => 14,
        };
        slice_subrange(self.buffer, 0, ihl)
    }

    /// Returns an object representing the inner payload of this PDU
    pub fn inner(&'a self) -> (r: Result<Ethernet<'a>, Error>)
        ensures
            ({
                let rest = self@.skip(eth_computed_ihl(self@));
                let et = eth_ethertype(self@);
                match r {
                    Ok(Ethernet::Ipv4(p)) => et == ETHERTYPE_IPV4 && ipv4_valid(rest) && p@
                        == rest,
                    Ok(Ethernet::Ipv6(p)) => et == ETHERTYPE_IPV6 && ipv6_valid(rest) && p@
                        == rest,
                    Ok(Ethernet::Raw(s)) => et != ETHERTYPE_IPV4 && et != ETHERTYPE_IPV6 && s@
                        == rest,
                    Err(e) => {
                        ||| et == ETHERTYPE_IPV4 && !ipv4_valid(rest) && e == Error::Truncated
                        ||| et == ETHERTYPE_IPV6 && !ipv6_valid(rest) && e == Error::Truncated
                    },
                }
            }),
    {
        self.clone().into_inner()
    }

    /// Consumes this object and returns an object representing the inner
    /// payload of this PDU
    pub fn into_inner(self) -> (r: Result<Ethernet<'a>, Error>)
        ensures
            ({
                let rest = self@.skip(eth_computed_ihl(self@));
                let et = eth_ethertype(self@);
                match r {
                    Ok(Ethernet::Ipv4(p)) => et == ETHERTYPE_IPV4 && ipv4_valid(rest) && p@
                        == rest,
                    Ok(Ethernet::Ipv6(p)) => et == ETHERTYPE_IPV6 && ipv6_valid(rest) && p@
                        == rest,
                    Ok(Ethernet::Raw(s)) => et != ETHERTYPE_IPV4 && et != ETHERTYPE_IPV6 && s@
                        == rest,
                    Err(e) => {
                        ||| et == ETHERTYPE_IPV4 && !ipv4_valid(rest) && e == Error::Truncated
                        ||| et == ETHERTYPE_IPV6 && !ipv6_valid(rest) && e == Error::Truncated
                    },
                }
            }),
    {
        proof {
            use_type_invariant(&self);
        }
        let ihl = match self.computed_ihl() {
            Ok(ihl) => ihl,
            Err(e) => return Err(e),
        };
        let rest = slice_subrange(self.buffer, ihl, self.buffer.len());
        proof {
            assert(rest@ =~= self@.skip(eth_computed_ihl(self@)));
        }
        let et = match self.ethertype() {
            Ok(v) => v,
            Err(e) => return Err(e),
        };
        if et == ETHERTYPE_IPV4 {
            match Ipv4Pdu::new(rest) {
                Ok(p) => Ok(Ethernet::Ipv4(p)),
                Err(e) => Err(e),
            }
        } else if et == ETHERTYPE_IPV6 {
            match Ipv6Pdu::new(rest) {
                Ok(p) => Ok(Ethernet::Ipv6(p)),
                Err(e) => Err(e),
            }
        } else {
            Ok(Ethernet::Raw(rest))
        }
    }

    /// The header length in bytes: 14, or 18 when a VLAN tag is present
    pub fn computed_ihl(&'a self) -> (r: Result<usize, Error>)
        ensures
            r matches Ok(ihl) && ihl == eth_computed_ihl(self@),
    {
        proof {
            use_type_invariant(&*self);
        }
        match util::read_u16(self.buffer, 12) {
            Ok(tpid) => if tpid == 0x8100 {
                Ok(18)
            } else {
                Ok(14)
            },
            Err(e) => Err(e),
        }
    }

    /// The destination MAC address: the first 6 bytes of the header
    pub fn destination_address(&'a self) -> (r: Result<&'a [u8], Error>)
        ensures
            r matches Ok(a) && a@ == self@.subrange(0, 6),
    {
        proof {
            use_type_invariant(&*self);
        }
        util::read_slice(self.buffer, 0, 6)
    }

    /// The source MAC address: bytes 6 to 11 of the header
    pub fn source_address(&'a self) -> (r: Result<&'a [u8], Error>)
        ensures
            r matches Ok(a) && a@ == self@.subrange(6, 12),
    {
        proof {
            use_type_invariant(&*self);
        }
        util::read_slice(self.buffer, 6, 12)
    }

    /// The ethertype of the payload; on a VLAN-tagged frame this is the
    /// encapsulated ethertype that follows the tag, not the tag protocol
    /// identifier
    pub fn ethertype(&'a self) -> (r: Result<u16, Error>)
        ensures
            r == Ok::<u16, Error>(eth_ethertype(self@)),
    {
        proof {
            use_type_invariant(&*self);
        }
        match util::read_u16(self.buffer, 12) {
            Ok(tpid) => if tpid == 0x8100 {
                util::read_u16(self.buffer, 16)
            } else {
                Ok(tpid)
            },
            Err(e) => Err(e),
        }
    }

    /// The 12-bit VLAN identifier of a tagged frame, or nothing on an
    /// untagged frame
    pub fn vlan(&'a self) -> (r: Option<u16>)
        ensures
            r == eth_vlan(self@),
    {
        proof {
            use_type_invariant(&*self);
        }
        match util::read_u16(self.buffer, 12) {
            Ok(tpid) => if tpid == 0x8100 {
                match util::read_u16(self.buffer, 14) {
                    Ok(tci) => Some(tci & 0x0fff),
                    Err(_) => None,
                }
            } else {
                None
            },
            Err(_) => None,
        }
    }

    /// The 3-bit VLAN priority code point of a tagged frame, or nothing on
    /// an untagged frame
    pub fn vlan_pcp(&'a self) -> (r: Option<u8>)
        ensures
            r == eth_vlan_pcp(self@),
    {
        proof {
            use_type_invariant(&*self);
        }
        match util::read_u16(self.buffer, 12) {
            Ok(tpid) => if tpid == 0x8100 {
                match util::read_u16(self.buffer, 14) {
                    Ok(tci) => Some((tci >> 13) as u8),
                    Err(_) => None,
                }
            } else {
                None
            },
            Err(_) => None,
        }
    }

    /// The VLAN drop-eligible indicator of a tagged frame, or nothing on an
    /// untagged frame
    pub fn vlan_dei(&'a self) -> (r: Option<bool>)
        ensures
            r == eth_vlan_dei(self@),
    {
        proof {
            use_type_invariant(&*self);
        }
        match util::read_u16(self.buffer, 12) {
            Ok(tpid) => if tpid == 0x8100 {
                match util::read_u16(self.buffer, 14) {
                    Ok(tci) => Some(tci & 0x1000 != 0),
                    Err(_) => None,
                }
            } else {
                None
            },
            Err(_) => None,
        }
    }
}

/// On a frame whose ethertype field holds the 802.1Q tag protocol identifier
/// 0x8100, the reported ethertype is the encapsulated value after the tag and
/// the VLAN fields are present; on any other frame the VLAN fields are
/// absent.
pub proof fn lemma_eth_vlan_tagging(b: Seq<u8>)
    requires
        eth_valid(b),
    ensures
        be16(b, 12) == 0x8100 ==> {
            &&& eth_ethertype(b) == be16(b, 16)
            &&& eth_vlan(b) == Some(be16(b, 14) & 0x0fff)
            &&& eth_vlan_pcp(b) == Some((be16(b, 14) >> 13) as u8)
            &&& eth_vlan_dei(b) == Some(be16(b, 14) & 0x1000 != 0)
        },
        be16(b, 12) != 0x8100 ==> {
            &&& eth_ethertype(b) == be16(b, 12)
            &&& eth_vlan(b) == None::<u16>
            &&& eth_vlan_pcp(b) == None::<u8>
            &&& eth_vlan_dei(b) == None::<bool>
        },
{
}

} // verus!
