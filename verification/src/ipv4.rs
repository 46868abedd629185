//! IPv4 header view: a variable-length header (20 to 60 bytes, declared by
//! the IHL nibble in 32-bit words), an options region between the fixed
//! 20-byte header and the computed boundary, and an RFC 1071 header
//! checksum computed with the checksum field treated as zero.

use vstd::prelude::*;
use vstd::slice::slice_subrange;

use crate::gre::{gre_new_error, gre_valid, GrePdu};
use crate::options::{next_option_chunk, option_chunks};
use crate::tcp::{tcp_valid, TcpPdu};
use crate::util;
use crate::util::{be16, checksum_of, spans_views};
use crate::{Error, IP_PROTOCOL_GRE, IP_PROTOCOL_TCP};

verus! {

/// Contains the inner payload of an [`Ipv4Pdu`]
#[derive(Debug, Copy, Clone)]
pub enum Ipv4<'a> {
    Raw(&'a [u8]),
    Tcp(TcpPdu<'a>),
    Gre(GrePdu<'a>),
}

/// The version nibble: the high 4 bits of byte 0.
pub open spec fn ipv4_version(b: Seq<u8>) -> u8
    recommends
        b.len() >= 1,
{
    (b[0] / 16) as u8
}

/// The IHL nibble: the low 4 bits of byte 0, the header length in 32-bit
/// words.
pub open spec fn ipv4_ihl(b: Seq<u8>) -> u8
    recommends
        b.len() >= 1,
{
    (b[0] % 16) as u8
}

/// The header length in bytes: the IHL nibble times 4.
pub open spec fn ipv4_computed_ihl(b: Seq<u8>) -> int
    recommends
        b.len() >= 1,
{
    (b[0] % 16) * 4
}

/// A buffer holds a well-formed IPv4 header: at least the fixed 20 bytes,
/// and at least the computed header length. The version nibble is exposed
/// but deliberately not validated, matching the permissive construction
/// behaviour of the rest of the surface.
pub open spec fn ipv4_valid(b: Seq<u8>) -> bool {
    b.len() >= 20 && b.len() >= ipv4_computed_ihl(b)
}

/// The differentiated-services code point: the high 6 bits of the
/// type-of-service byte.
pub open spec fn ipv4_dscp(b: Seq<u8>) -> u8
    recommends
        b.len() >= 2,
{
    b[1] >> 2
}

/// The explicit-congestion-notification bits: the low 2 bits of the
/// type-of-service byte.
pub open spec fn ipv4_ecn(b: Seq<u8>) -> u8
    recommends
        b.len() >= 2,
{
    b[1] & 0x03
}

/// The don't-fragment flag: bit 0x4000 of the flags/fragment-offset field.
pub open spec fn ipv4_dont_fragment(b: Seq<u8>) -> bool
    recommends
        b.len() >= 8,
{
    be16(b, 6) & 0x4000 != 0
}

/// The more-fragments flag: bit 0x2000 of the flags/fragment-offset field.
pub open spec fn ipv4_more_fragments(b: Seq<u8>) -> bool
    recommends
        b.len() >= 8,
{
    be16(b, 6) & 0x2000 != 0
}

/// The 13-bit fragment offset.
pub open spec fn ipv4_fragment_offset(b: Seq<u8>) -> u16
    recommends
        b.len() >= 8,
{
    be16(b, 6) & 0x1fff
}

/// The spans covered by the header checksum: the header bytes with the
/// 2-byte checksum field at offset 10 skipped (each span is 16-bit aligned,
/// so skipping the field is the same as zeroing it).
pub open spec fn ipv4_checksum_spans(b: Seq<u8>) -> Seq<Seq<u8>> {
    seq![b.subrange(0, 10), b.subrange(12, ipv4_computed_ihl(b))]
}

/// The header checksum recomputed from the header bytes with the checksum
/// field treated as zero.
pub open spec fn ipv4_computed_checksum(b: Seq<u8>) -> u16
    recommends
        ipv4_valid(b),
        ipv4_computed_ihl(b) >= 12,
{
    checksum_of(ipv4_checksum_spans(b))
}

/// The raw option entries between the fixed 20-byte header and the computed
/// header boundary.
pub open spec fn ipv4_options(b: Seq<u8>) -> Seq<Seq<u8>>
    recommends
        ipv4_valid(b),
{
    option_chunks(
        b,
        20,
        if ipv4_computed_ihl(b) >= 20 {
            ipv4_computed_ihl(b)
        } else {
            20
        },
    )
}

/// Represents an IPv4 header and payload
#[derive(Debug, Copy, Clone)]
pub struct Ipv4Pdu<'a> {
    buffer: &'a [u8],
}

impl<'a> View for Ipv4Pdu<'a> {
    type V = Seq<u8>;

    closed spec fn view(&self) -> Seq<u8> {
        self.buffer@
    }
}

/// One entry of the IPv4 options list, surfaced as its raw bytes.
#[derive(Debug, Copy, Clone)]
pub enum Ipv4Option<'a> {
    Raw { option: &'a [u8] },
}

impl<'a> View for Ipv4Option<'a> {
    type V = Seq<u8>;

    closed spec fn view(&self) -> Seq<u8> {
        match self {
            Ipv4Option::Raw { option } => option@,
        }
    }
}

/// A lazy, restartable walker over the IPv4 options region; its view is the
/// sequence of raw option entries not yet yielded.
pub struct Ipv4OptionIterator<'a> {
    buffer: &'a [u8],
    pos: usize,
    end: usize,
}

impl<'a> View for Ipv4OptionIterator<'a> {
    type V = Seq<Seq<u8>>;

    closed spec fn view(&self) -> Seq<Seq<u8>> {
        option_chunks(self.buffer@, self.pos as int, self.end as int)
    }
}

impl<'a> Ipv4OptionIterator<'a> {
    #[verifier::type_invariant]
    spec fn wf(self) -> bool {
        self.pos <= self.end && self.end <= self.buffer@.len()
    }

    /// Yields the next option entry, or nothing once the region is exhausted
    /// or a malformed entry ends the walk.
    pub fn next(&mut self) -> (r: Option<Ipv4Option<'a>>)
        ensures
            old(self)@.len() == 0 ==> r is None && final(self)@ == old(self)@,
            old(self)@.len() > 0 ==> {
                &&& r matches Some(o) && o@ == old(self)@[0]
                &&& final(self)@ == old(self)@.skip(1)
            },
    {
        proof {
            use_type_invariant(&*self);
        }
        match next_option_chunk(self.buffer, self.pos, self.end) {
            Some((s, e)) => {
                let option = slice_subrange(self.buffer, s, e);
                let buffer = self.buffer;
                let end = self.end;
                *self = Ipv4OptionIterator { buffer, pos: e, end };
                Some(Ipv4Option::Raw { option })
            },
            None => None,
        }
    }
}

impl<'a> Ipv4Pdu<'a> {
    #[verifier::type_invariant]
    spec fn wf(self) -> bool {
        ipv4_valid(self.buffer@)
    }

    /// Constructs an [`Ipv4Pdu`] backed by the provided `buffer`
    pub fn new(buffer: &'a [u8]) -> (r: Result<Self, Error>)
        ensures
            match r {
                Ok(p) => ipv4_valid(buffer@) && p@ == buffer@,
                Err(e) => !ipv4_valid(buffer@) && e == Error::Truncated,
            },
    {
        if buffer.len() < 20 {
            return Err(Error::Truncated);
        }
        let first = match util::read_u8(buffer, 0) {
            Ok(v) => v,
            Err(_) => return Err(Error::Truncated),
        };
        let ihl: usize = (first % 16) as usize * 4;
        if buffer.len() < ihl {
            return Err(Error::Truncated);
        }
        Ok(Ipv4Pdu { buffer })
    }

    /// Returns a reference to the entire underlying buffer that was provided
    /// during construction
    pub fn buffer(&'a self) -> (r: &'a [u8])
        ensures
            r@ == self@,
    {
        self.buffer
    }

    /// Consumes this object and returns a reference to the entire underlying
    /// buffer that was provided during construction
    pub fn into_buffer(self) -> (r: &'a [u8])
        ensures
            r@ == self@,
    {
        self.buffer
    }

    /// Returns the slice of the underlying buffer that contains the header
    /// part of this PDU
    pub fn as_bytes(&'a self) -> (r: &'a [u8])
        ensures
            r@ == self@.subrange(0, ipv4_computed_ihl(self@)),
    {
        self.clone().into_bytes()
    }

    /// Consumes this object and returns the slice of the underlying buffer
    /// that contains the header part of this PDU
    pub fn into_bytes(self) -> (r: &'a [u8])
        ensures
            r@ == self@.subrange(0, ipv4_computed_ihl(self@)),
    {
        proof {
            use_type_invariant(&self);
        }
        let ihl = match self.computed_ihl() {
            Ok(ihl) => ihl,
            Err(_) => 0,
        };
        slice_subrange(self.buffer, 0, ihl)
    }

    /// Returns an object representing the inner payload of this PDU,
    /// dispatched by the protocol number
    pub fn inner(&'a self) -> (r: Result<Ipv4<'a>, Error>)
        ensures
            ({
                let rest = self@.skip(ipv4_computed_ihl(self@));
                let proto = self@[9];
                match r {
                    Ok(Ipv4::Tcp(p)) => proto == IP_PROTOCOL_TCP && tcp_valid(rest) && p@ == rest,
                    Ok(Ipv4::Gre(p)) => proto == IP_PROTOCOL_GRE && gre_valid(rest) && p@ == rest,
                    Ok(Ipv4::Raw(s)) => proto != IP_PROTOCOL_TCP && proto != IP_PROTOCOL_GRE && s@
                        == rest,
                    Err(e) => {
                        ||| proto == IP_PROTOCOL_TCP && !tcp_valid(rest) && e == Error::Truncated
                        ||| proto == IP_PROTOCOL_GRE && !gre_valid(rest) && e == gre_new_error(
                            rest,
                        )
                    },
                }
            }),
    {
        self.clone().into_inner()
    }

    /// Consumes this object and returns an object representing the inner
    /// payload of this PDU, dispatched by the protocol number
    pub fn into_inner(self) -> (r: Result<Ipv4<'a>, Error>)
        ensures
            ({
                let rest = self@.skip(ipv4_computed_ihl(self@));
                let proto = self@[9];
                match r {
                    Ok(Ipv4::Tcp(p)) => proto == IP_PROTOCOL_TCP && tcp_valid(rest) && p@ == rest,
                    Ok(Ipv4::Gre(p)) => proto == IP_PROTOCOL_GRE && gre_valid(rest) && p@ == rest,
                    Ok(Ipv4::Raw(s)) => proto != IP_PROTOCOL_TCP && proto != IP_PROTOCOL_GRE && s@
                        == rest,
                    Err(e) => {
                        ||| proto == IP_PROTOCOL_TCP && !tcp_valid(rest) && e == Error::Truncated
                        ||| proto == IP_PROTOCOL_GRE && !gre_valid(rest) && e == gre_new_error(
                            rest,
                        )
                    },
                }
            }),
    {
        proof {
            use_type_invariant(&self);
        }
        let ihl = match self.computed_ihl() {
            Ok(ihl) => ihl,
            Err(e) => return Err(e),
        };
        let rest = slice_subrange(self.buffer, ihl, self.buffer.len());
        proof {
            assert(rest@ =~= self@.skip(ipv4_computed_ihl(self@)));
        }
        let proto = match self.protocol() {
            Ok(v) => v,
            Err(e) => return Err(e),
        };
        if proto == IP_PROTOCOL_TCP {
            match TcpPdu::new(rest) {
                Ok(p) => Ok(Ipv4::Tcp(p)),
                Err(e) => Err(e),
            }
        } else if proto == IP_PROTOCOL_GRE {
            match GrePdu::new(rest) {
                Ok(p) => Ok(Ipv4::Gre(p)),
                Err(e) => Err(e),
            }
        } else {
            Ok(Ipv4::Raw(rest))
        }
    }

    /// The version nibble (4 on a conforming packet; not validated)
    pub fn version(&'a self) -> (r: Result<u8, Error>)
        ensures
            r == Ok::<u8, Error>(ipv4_version(self@)),
    {
        proof {
            use_type_invariant(&*self);
        }
        match util::read_u8(self.buffer, 0) {
            Ok(v) => Ok(v / 16),
            Err(e) => Err(e),
        }
    }

    /// The IHL nibble: the header length in 32-bit words
    pub fn ihl(&'a self) -> (r: Result<u8, Error>)
        ensures
            r == Ok::<u8, Error>(ipv4_ihl(self@)),
    {
        proof {
            use_type_invariant(&*self);
        }
        match util::read_u8(self.buffer, 0) {
            Ok(v) => Ok(v % 16),
            Err(e) => Err(e),
        }
    }

    /// The header length in bytes: the IHL nibble times 4
    pub fn computed_ihl(&'a self) -> (r: Result<usize, Error>)
        ensures
            r matches Ok(ihl) && ihl == ipv4_computed_ihl(self@),
    {
        proof {
            use_type_invariant(&*self);
        }
        match self.ihl() {
            Ok(v) => Ok(v as usize * 4),
            Err(e) => Err(e),
        }
    }

    /// The differentiated-services code point
    pub fn dscp(&'a self) -> (r: Result<u8, Error>)
        ensures
            r == Ok::<u8, Error>(ipv4_dscp(self@)),
    {
        proof {
            use_type_invariant(&*self);
        }
        match util::read_u8(self.buffer, 1) {
            Ok(v) => Ok(v >> 2),
            Err(e) => Err(e),
        }
    }

    /// The explicit-congestion-notification bits
    pub fn ecn(&'a self) -> (r: Result<u8, Error>)
        ensures
            r == Ok::<u8, Error>(ipv4_ecn(self@)),
    {
        proof {
            use_type_invariant(&*self);
        }
        match util::read_u8(self.buffer, 1) {
            Ok(v) => Ok(v & 0x03),
            Err(e) => Err(e),
        }
    }

    /// The total length of header plus payload as declared by the packet
    pub fn total_length(&'a self) -> (r: Result<u16, Error>)
        ensures
            r == Ok::<u16, Error>(be16(self@, 2)),
    {
        proof {
            use_type_invariant(&*self);
        }
        util::read_u16(self.buffer, 2)
    }

    /// The identification field
    pub fn identification(&'a self) -> (r: Result<u16, Error>)
        ensures
            r == Ok::<u16, Error>(be16(self@, 4)),
    {
        proof {
            use_type_invariant(&*self);
        }
        util::read_u16(self.buffer, 4)
    }

    /// The don't-fragment flag
    pub fn dont_fragment(&'a self) -> (r: bool)
        ensures
            r == ipv4_dont_fragment(self@),
    {
        proof {
            use_type_invariant(&*self);
        }
        match util::read_u16(self.buffer, 6) {
            Ok(v) => v & 0x4000 != 0,
            Err(_) => false,
        }
    }

    /// The more-fragments flag
    pub fn more_fragments(&'a self) -> (r: bool)
        ensures
            r == ipv4_more_fragments(self@),
    {
        proof {
            use_type_invariant(&*self);
        }
        match util::read_u16(self.buffer, 6) {
            Ok(v) => v & 0x2000 != 0,
            Err(_) => false,
        }
    }

    /// The 13-bit fragment offset
    pub fn fragment_offset(&'a self) -> (r: Result<u16, Error>)
        ensures
            r == Ok::<u16, Error>(ipv4_fragment_offset(self@)),
    {
        proof {
            use_type_invariant(&*self);
        }
        match util::read_u16(self.buffer, 6) {
            Ok(v) => Ok(v & 0x1fff),
            Err(e) => Err(e),
        }
    }

    /// The time-to-live field
    pub fn ttl(&'a self) -> (r: Result<u8, Error>)
        ensures
            r == Ok::<u8, Error>(self@[8]),
    {
        proof {
            use_type_invariant(&*self);
        }
        util::read_u8(self.buffer, 8)
    }

    /// The upper-layer protocol number
    pub fn protocol(&'a self) -> (r: Result<u8, Error>)
        ensures
            r == Ok::<u8, Error>(self@[9]),
    {
        proof {
            use_type_invariant(&*self);
        }
        util::read_u8(self.buffer, 9)
    }

    /// The stored header checksum field
    pub fn checksum(&'a self) -> (r: Result<u16, Error>)
        ensures
            r == Ok::<u16, Error>(be16(self@, 10)),
    {
        proof {
            use_type_invariant(&*self);
        }
        util::read_u16(self.buffer, 10)
    }

    /// The header checksum recomputed over the header bytes, the checksum
    /// field itself treated as zero; fails when the declared header is too
    /// short to contain the checksum field
    pub fn computed_checksum(&'a self) -> (r: Result<u16, Error>)
        ensures
            ipv4_computed_ihl(self@) >= 12 ==> r == Ok::<u16, Error>(
                ipv4_computed_checksum(self@),
            ),
            ipv4_computed_ihl(self@) < 12 ==> r == Err::<u16, Error>(Error::OutOfBounds),
    {
        proof {
            use_type_invariant(&*self);
        }
        let ihl = match self.computed_ihl() {
            Ok(ihl) => ihl,
            Err(e) => return Err(e),
        };
        let span1 = match util::read_slice(self.buffer, 0, 10) {
            Ok(span) => span,
            Err(e) => return Err(e),
        };
        let span2 = match util::read_slice(self.buffer, 12, ihl) {
            Ok(span) => span,
            Err(e) => return Err(e),
        };
        let mut spans: Vec<&[u8]> = Vec::new();
        spans.push(span1);
        spans.push(span2);
        let r = util::checksum(spans.as_slice());
        proof {
            assert(spans_views(spans@) =~= ipv4_checksum_spans(self@));
        }
        Ok(r)
    }

    /// The source address: bytes 12 to 15 of the header
    pub fn source_address(&'a self) -> (r: Result<&'a [u8], Error>)
        ensures
            r matches Ok(a) && a@ == self@.subrange(12, 16),
    {
        proof {
            use_type_invariant(&*self);
        }
        util::read_slice(self.buffer, 12, 16)
    }

    /// The destination address: bytes 16 to 19 of the header
    pub fn destination_address(&'a self) -> (r: Result<&'a [u8], Error>)
        ensures
            r matches Ok(a) && a@ == self@.subrange(16, 20),
    {
        proof {
            use_type_invariant(&*self);
        }
        util::read_slice(self.buffer, 16, 20)
    }

    /// A fresh walker over the options region; re-walking always starts from
    /// the beginning of the region
    pub fn options(&'a self) -> (r: Ipv4OptionIterator<'a>)
        ensures
            r@ == ipv4_options(self@),
    {
        proof {
            use_type_invariant(&*self);
        }
        let ihl = match self.computed_ihl() {
            Ok(ihl) => ihl,
            Err(_) => 20,
        };
        let end: usize = if ihl >= 20 {
            ihl
        } else {
            20
        };
        Ipv4OptionIterator { buffer: self.buffer, pos: 20, end }
    }
}

} // verus!
