//! GRE (RFC 2784) header view: a fixed 4-byte header followed by optional
//! checksum, key and sequence-number fields, each present or absent according
//! to a flag bit and always laid out in that fixed order.

use vstd::prelude::*;
use vstd::slice::{slice_index_get, slice_subrange};

use crate::ethernet::{eth_valid, EthernetPdu};
use crate::ipv4::{ipv4_valid, Ipv4Pdu};
use crate::ipv6::{ipv6_valid, Ipv6Pdu};
use crate::util;
use crate::util::{be16, be32, checksum_of, spans_views};
use crate::{Error, ETHERTYPE_IPV4, ETHERTYPE_IPV6, ETHERTYPE_TEB};

verus! {

/// Contains the inner payload of a [`GrePdu`]
#[derive(Debug, Copy, Clone)]
pub enum Gre<'a> {
    Raw(&'a [u8]),
    Ethernet(EthernetPdu<'a>),
    Ipv4(Ipv4Pdu<'a>),
    Ipv6(Ipv6Pdu<'a>),
}

/// Whether the checksum-present flag (bit 0x80 of byte 0) is set.
pub open spec fn gre_has_checksum(b: Seq<u8>) -> bool
    recommends
        b.len() >= 1,
{
    b[0] & 0x80 != 0
}

/// Whether the key-present flag (bit 0x20 of byte 0) is set.
pub open spec fn gre_has_key(b: Seq<u8>) -> bool
    recommends
        b.len() >= 1,
{
    b[0] & 0x20 != 0
}

/// Whether the sequence-number-present flag (bit 0x10 of byte 0) is set.
pub open spec fn gre_has_sequence_number(b: Seq<u8>) -> bool
    recommends
        b.len() >= 1,
{
    b[0] & 0x10 != 0
}

/// The header length in bytes: 4, plus 4 for each optional field present.
pub open spec fn gre_computed_ihl(b: Seq<u8>) -> int
    recommends
        b.len() >= 1,
{
    4 + (if gre_has_checksum(b) {
        4int
    } else {
        0int
    }) + (if gre_has_key(b) {
        4int
    } else {
        0int
    }) + (if gre_has_sequence_number(b) {
        4int
    } else {
        0int
    })
}

/// The GRE version field: the low 3 bits of byte 1. Only version 0 (the base
/// RFC 2784 variant) is accepted by `GrePdu::new`.
pub open spec fn gre_version(b: Seq<u8>) -> u8
    recommends
        b.len() >= 2,
{
    b[1] & 0x07
}

/// A buffer holds a well-formed GRE header: at least 4 bytes, the base
/// (version 0, no routing) variant, and long enough for every flagged
/// optional field.
pub open spec fn gre_valid(b: Seq<u8>) -> bool {
    &&& b.len() >= 4
    &&& b[1] & 0x07 == 0
    &&& b.len() >= gre_computed_ihl(b)
}

/// The error `GrePdu::new` reports when `gre_valid` does not hold.
pub open spec fn gre_new_error(b: Seq<u8>) -> Error
    recommends
        !gre_valid(b),
{
    if b.len() < 4 {
        Error::Truncated
    } else if b[1] & 0x07 != 0 {
        Error::Malformed
    } else {
        Error::Truncated
    }
}

/// The stored checksum field, present only when its flag is set.
pub open spec fn gre_checksum(b: Seq<u8>) -> Option<u16>
    recommends
        gre_valid(b),
{
    if gre_has_checksum(b) {
        Some(be16(b, 4))
    } else {
        None
    }
}

/// The spans covered by the GRE checksum: the fixed header and ethertype,
/// then everything after the 2-byte checksum field itself.
pub open spec fn gre_checksum_spans(b: Seq<u8>) -> Seq<Seq<u8>> {
    seq![b.subrange(0, 4), b.skip(6)]
}

/// The checksum recomputed over the packet with the checksum field skipped,
/// present only when the checksum flag is set.
pub open spec fn gre_computed_checksum(b: Seq<u8>) -> Option<u16>
    recommends
        gre_valid(b),
{
    if gre_has_checksum(b) {
        Some(checksum_of(gre_checksum_spans(b)))
    } else {
        None
    }
}

/// The key field, positioned after the checksum field when that is present.
pub open spec fn gre_key(b: Seq<u8>) -> Option<u32>
    recommends
        gre_valid(b),
{
    if gre_has_checksum(b) && gre_has_key(b) {
        Some(be32(b, 8))
    } else if gre_has_key(b) {
        Some(be32(b, 4))
    } else {
        None
    }
}

/// The sequence-number field, positioned after whichever of the checksum and
/// key fields are present.
pub open spec fn gre_sequence_number(b: Seq<u8>) -> Option<u32>
    recommends
        gre_valid(b),
{
    if gre_has_sequence_number(b) && gre_has_checksum(b) && gre_has_key(b) {
        Some(be32(b, 12))
    } else if gre_has_sequence_number(b) && (gre_has_checksum(b) || gre_has_key(b)) {
        Some(be32(b, 8))
    } else if gre_has_sequence_number(b) {
        Some(be32(b, 4))
    } else {
        None
    }
}

/// Represents a GRE header and payload
#[derive(Debug, Copy, Clone)]
pub struct GrePdu<'a> {
    buffer: &'a [u8],
}

impl<'a> View for GrePdu<'a> {
    type V = Seq<u8>;

    closed spec fn view(&self) -> Seq<u8> {
        self.buffer@
    }
}

impl<'a> GrePdu<'a> {
    #[verifier::type_invariant]
    spec fn wf(self) -> bool {
        gre_valid(self.buffer@)
    }

    /// Constructs a [`GrePdu`] backed by the provided `buffer`
    pub fn new(buffer: &'a [u8]) -> (r: Result<Self, Error>)
        ensures
            match r {
                Ok(p) => gre_valid(buffer@) && p@ == buffer@,
                Err(e) => !gre_valid(buffer@) && e == gre_new_error(buffer@),
            },
    {
        if buffer.len() < 4 {
            return Err(Error::Truncated);
        }
        if *slice_index_get(buffer, 1) & 0x07 != 0 {
            // only rfc2784 GRE frames are supported
            return Err(Error::Malformed);
        }
        let flags = *slice_index_get(buffer, 0);
        let mut ihl: usize = 4;
        if flags & 0x80 != 0 {
            ihl = ihl + 4;
        }
        if flags & 0x20 != 0 {
            ihl = ihl + 4;
        }
        if flags & 0x10 != 0 {
            ihl = ihl + 4;
        }
        if buffer.len() < ihl {
            return Err(Error::Truncated);
        }
        Ok(GrePdu { buffer })
    }

    /// Returns a reference to the entire underlying buffer that was provided
    /// during construction
    pub fn buffer(&'a self) -> (r: &'a [u8])
        ensures
            r@ == self@,
    {
        self.buffer
    }

    /// Consumes this object and returns a reference to the entire underlying
    /// buffer that was provided during construction
    pub fn into_buffer(self) -> (r: &'a [u8])
        ensures
            r@ == self@,
    {
        self.buffer
    }

    /// Returns the slice of the underlying buffer that contains the header
    /// part of this PDU
    pub fn as_bytes(&'a self) -> (r: &'a [u8])
        ensures
            r@ == self@.subrange(0, gre_computed_ihl(self@)),
    {
        self.clone().into_bytes()
    }

    /// Consumes this object and returns the slice of the underlying buffer
    /// that contains the header part of this PDU
    pub fn into_bytes(self) -> (r: &'a [u8])
        ensures
            r@ == self@.subrange(0, gre_computed_ihl(self@)),
    {
        proof {
            use_type_invariant(&self);
        }
        let ihl = self.computed_ihl();
        slice_subrange(self.buffer, 0, ihl)
    }

    /// Returns an object representing the inner payload of this PDU
    pub fn inner(&'a self) -> (r: Result<Gre<'a>, Error>)
        ensures
            ({
                let rest = self@.skip(gre_computed_ihl(self@));
                let et = be16(self@, 2);
                match r {
                    Ok(Gre::Ethernet(p)) => et == ETHERTYPE_TEB && eth_valid(rest) && p@ == rest,
                    Ok(Gre::Ipv4(p)) => et == ETHERTYPE_IPV4 && ipv4_valid(rest) && p@ == rest,
                    Ok(Gre::Ipv6(p)) => et == ETHERTYPE_IPV6 && ipv6_valid(rest) && p@ == rest,
                    Ok(Gre::Raw(s)) => et != ETHERTYPE_TEB && et != ETHERTYPE_IPV4 && et
                        != ETHERTYPE_IPV6 && s@ == rest,
                    Err(e) => {
                        ||| et == ETHERTYPE_TEB && !eth_valid(rest) && e == Error::Truncated
                        ||| et == ETHERTYPE_IPV4 && !ipv4_valid(rest) && e == Error::Truncated
                        ||| et == ETHERTYPE_IPV6 && !ipv6_valid(rest) && e == Error::Truncated
                    },
                }
            }),
    {
        self.clone().into_inner()
    }

    /// Consumes this object and returns an object representing the inner
    /// payload of this PDU
    pub fn into_inner(self) -> (r: Result<Gre<'a>, Error>)
        ensures
            ({
                let rest = self@.skip(gre_computed_ihl(self@));
                let et = be16(self@, 2);
                match r {
                    Ok(Gre::Ethernet(p)) => et == ETHERTYPE_TEB && eth_valid(rest) && p@ == rest,
                    Ok(Gre::Ipv4(p)) => et == ETHERTYPE_IPV4 && ipv4_valid(rest) && p@ == rest,
                    Ok(Gre::Ipv6(p)) => et == ETHERTYPE_IPV6 && ipv6_valid(rest) && p@ == rest,
                    Ok(Gre::Raw(s)) => et != ETHERTYPE_TEB && et != ETHERTYPE_IPV4 && et
                        != ETHERTYPE_IPV6 && s@ == rest,
                    Err(e) => {
                        ||| et == ETHERTYPE_TEB && !eth_valid(rest) && e == Error::Truncated
                        ||| et == ETHERTYPE_IPV4 && !ipv4_valid(rest) && e == Error::Truncated
                        ||| et == ETHERTYPE_IPV6 && !ipv6_valid(rest) && e == Error::Truncated
                    },
                }
            }),
    {
        proof {
            use_type_invariant(&self);
        }
        let ihl = self.computed_ihl();
        let rest = slice_subrange(self.buffer, ihl, self.buffer.len());
        proof {
            assert(rest@ =~= self@.skip(gre_computed_ihl(self@)));
        }
        let et = match self.ethertype() {
            Ok(v) => v,
            Err(e) => return Err(e),
        };
        if et == ETHERTYPE_TEB {
            match EthernetPdu::new(rest) {
                Ok(p) => Ok(Gre::Ethernet(p)),
                Err(e) => Err(e),
            }
        } else if et == ETHERTYPE_IPV4 {
            match Ipv4Pdu::new(rest) {
                Ok(p) => Ok(Gre::Ipv4(p)),
                Err(e) => Err(e),
            }
        } else if et == ETHERTYPE_IPV6 {
            match Ipv6Pdu::new(rest) {
                Ok(p) => Ok(Gre::Ipv6(p)),
                Err(e) => Err(e),
            }
        } else {
            Ok(Gre::Raw(rest))
        }
    }

    /// The header length in bytes, computed from the three optional-field
    /// flags
    pub fn computed_ihl(&'a self) -> (r: usize)
        ensures
            r == gre_computed_ihl(self@),
    {
        let mut ihl: usize = 4;
        if self.has_checksum() {
            ihl = ihl + 4;
        }
        if self.has_key() {
            ihl = ihl + 4;
        }
        if self.has_sequence_number() {
            ihl = ihl + 4;
        }
        ihl
    }

    /// The GRE version: the low 3 bits of byte 1 (always 0 for a
    /// successfully constructed view)
    pub fn version(&'a self) -> (r: Result<u8, Error>)
        ensures
            r == Ok::<u8, Error>(gre_version(self@)),
    {
        proof {
            use_type_invariant(&*self);
        }
        match util::read_u8(self.buffer, 1) {
            Ok(data) => Ok(data & 0x07),
            Err(e) => Err(e),
        }
    }

    /// The ethertype of the encapsulated payload
    pub fn ethertype(&'a self) -> (r: Result<u16, Error>)
        ensures
            r == Ok::<u16, Error>(be16(self@, 2)),
    {
        proof {
            use_type_invariant(&*self);
        }
        util::read_u16(self.buffer, 2)
    }

    /// Whether the optional checksum field is present
    pub fn has_checksum(&'a self) -> (r: bool)
        ensures
            r == gre_has_checksum(self@),
    {
        proof {
            use_type_invariant(&*self);
        }
        match util::read_u8(self.buffer, 0) {
            Ok(data) => (data & 0x80) != 0,
            Err(_) => false,
        }
    }

    /// Whether the optional key field is present
    pub fn has_key(&'a self) -> (r: bool)
        ensures
            r == gre_has_key(self@),
    {
        proof {
            use_type_invariant(&*self);
        }
        match util::read_u8(self.buffer, 0) {
            Ok(data) => (data & 0x20) != 0,
            Err(_) => false,
        }
    }

    /// Whether the optional sequence-number field is present
    pub fn has_sequence_number(&'a self) -> (r: bool)
        ensures
            r == gre_has_sequence_number(self@),
    {
        proof {
            use_type_invariant(&*self);
        }
        match util::read_u8(self.buffer, 0) {
            Ok(data) => (data & 0x10) != 0,
            Err(_) => false,
        }
    }

    /// The stored checksum field, when its flag is set
    pub fn checksum(&'a self) -> (r: Option<u16>)
        ensures
            r == gre_checksum(self@),
    {
        proof {
            use_type_invariant(&*self);
        }
        if self.has_checksum() {
            match util::read_u16(self.buffer, 4) {
                Ok(data) => Some(data),
                Err(_) => None,
            }
        } else {
            None
        }
    }

    /// The checksum recomputed from the packet bytes (the checksum field
    /// itself skipped), when the checksum flag is set
    pub fn computed_checksum(&'a self) -> (r: Option<u16>)
        ensures
            r == gre_computed_checksum(self@),
    {
        proof {
            use_type_invariant(&*self);
        }
        if self.has_checksum() {
            let span1 = match util::read_slice_inclusive(self.buffer, 0, 3) {
                Ok(span) => span,
                Err(_) => return None,
            };
            let span2 = match util::read_slice_after(self.buffer, 6) {
                Ok(span) => span,
                Err(_) => return None,
            };
            let mut spans: Vec<&[u8]> = Vec::new();
            spans.push(span1);
            spans.push(span2);
            let r = util::checksum(spans.as_slice());
            proof {
                assert(spans_views(spans@) =~= gre_checksum_spans(self@));
            }
            Some(r)
        } else {
            None
        }
    }

    /// The key field, when its flag is set; its offset depends on whether the
    /// checksum field precedes it
    pub fn key(&'a self) -> (r: Option<u32>)
        ensures
            r == gre_key(self@),
    {
        proof {
            use_type_invariant(&*self);
        }
        if self.has_checksum() && self.has_key() {
            match util::read_u32(self.buffer, 8) {
                Ok(v) => Some(v),
                Err(_) => None,
            }
        } else if self.has_key() {
            match util::read_u32(self.buffer, 4) {
                Ok(v) => Some(v),
                Err(_) => None,
            }
        } else {
            None
        }
    }

    /// The sequence-number field, when its flag is set; its offset depends on
    /// which of the checksum and key fields precede it
    pub fn sequence_number(&'a self) -> (r: Option<u32>)
        ensures
            r == gre_sequence_number(self@),
    {
        proof {
            use_type_invariant(&*self);
        }
        if self.has_sequence_number() && self.has_checksum() && self.has_key() {
            match util::read_u32(self.buffer, 12) {
                Ok(v) => Some(v),
                Err(_) => None,
            }
        } else if self.has_sequence_number() && (self.has_checksum() || self.has_key()) {
            match util::read_u32(self.buffer, 8) {
                Ok(v) => Some(v),
                Err(_) => None,
            }
        } else if self.has_sequence_number() {
            match util::read_u32(self.buffer, 4) {
                Ok(v) => Some(v),
                Err(_) => None,
            }
        } else {
            None
        }
    }
}

/// With no optional fields flagged a GRE header is 4 bytes long; with the
/// checksum, key and sequence-number fields all present it is 16 bytes long,
/// the key read at offset 8 and the sequence number at offset 12, matching
/// the fixed field order checksum, key, sequence number.
pub proof fn lemma_gre_header_layout(b: Seq<u8>)
    requires
        gre_valid(b),
    ensures
        !gre_has_checksum(b) && !gre_has_key(b) && !gre_has_sequence_number(b)
            ==> gre_computed_ihl(b) == 4,
        gre_has_checksum(b) && gre_has_key(b) && gre_has_sequence_number(b) ==> {
            &&& gre_computed_ihl(b) == 16
            &&& gre_key(b) == Some(be32(b, 8))
            &&& gre_sequence_number(b) == Some(be32(b, 12))
        },
{
}

} // verus!
