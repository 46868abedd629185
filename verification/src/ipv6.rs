//! IPv6 header view: a fixed 40-byte base header followed by a chain of
//! extension headers, each naming the type of the next one. The effective
//! upper-layer protocol and header length are not fields but are computed by
//! walking the chain, stopping defensively at any header that would run past
//! the buffer.

use vstd::prelude::*;
use vstd::slice::{slice_index_get, slice_subrange};

use crate::gre::{gre_new_error, gre_valid, GrePdu};
use crate::tcp::{tcp_valid, TcpPdu};
use crate::util;
use crate::util::{be16, be32};
use crate::{Error, IP_PROTOCOL_GRE, IP_PROTOCOL_TCP};

verus! {

/// Contains the inner payload of an [`Ipv6Pdu`]
#[derive(Debug, Copy, Clone)]
pub enum Ipv6<'a> {
    Raw(&'a [u8]),
    Tcp(TcpPdu<'a>),
    Gre(GrePdu<'a>),
}

/// The extension-header types this decoder walks through: hop-by-hop
/// options (0), routing (43), fragment (44) and destination options (60).
/// Any other next-header value ends the chain and is the effective protocol.
pub open spec fn is_ipv6_extension_header(t: u8) -> bool {
    t == 0 || t == 43 || t == 44 || t == 60
}

/// Walks the extension-header chain of `b` starting at `pos`, where `nh` is
/// the type announced for the header at `pos`. Yields the offset one past
/// the last extension header together with the first non-extension
/// next-header value, or nothing when a header would run past the buffer.
/// A fragment header is a fixed 8 bytes; every other extension header
/// declares `(length byte + 1) * 8` bytes.
pub open spec fn ipv6_chain(b: Seq<u8>, pos: int, nh: u8) -> Option<(int, u8)>
    decreases b.len() - pos,
{
    if !is_ipv6_extension_header(nh) {
        Some((pos, nh))
    } else if pos < 0 || pos + 2 > b.len() {
        None
    } else {
        let hlen = if nh == 44 {
            8int
        } else {
            8 * (b[pos + 1] + 1)
        };
        if pos + hlen > b.len() {
            None
        } else {
            ipv6_chain(b, pos + hlen, b[pos])
        }
    }
}

/// The offset of the first fragment extension header in the chain, or
/// nothing when the chain holds none (or is cut short by the buffer).
pub open spec fn ipv6_fragment_pos(b: Seq<u8>, pos: int, nh: u8) -> Option<int>
    decreases b.len() - pos,
{
    if nh == 44 {
        if pos < 0 || pos + 8 > b.len() {
            None
        } else {
            Some(pos)
        }
    } else if !is_ipv6_extension_header(nh) {
        None
    } else if pos < 0 || pos + 2 > b.len() {
        None
    } else {
        let hlen = 8 * (b[pos + 1] + 1);
        if pos + hlen > b.len() {
            None
        } else {
            ipv6_fragment_pos(b, pos + hlen, b[pos])
        }
    }
}

/// A buffer holds a well-formed IPv6 packet: the fixed 40-byte base header,
/// and an extension-header chain that stays within the buffer.
pub open spec fn ipv6_valid(b: Seq<u8>) -> bool {
    b.len() >= 40 && ipv6_chain(b, 40, b[6]) is Some
}

/// The effective header length: 40 plus the lengths of all extension
/// headers traversed.
pub open spec fn ipv6_computed_ihl(b: Seq<u8>) -> int
    recommends
        ipv6_valid(b),
{
    match ipv6_chain(b, 40, b[6]) {
        Some((ihl, p)) => ihl,
        None => 40,
    }
}

/// The effective upper-layer protocol: the first next-header value in the
/// chain that is not an extension-header type.
pub open spec fn ipv6_computed_protocol(b: Seq<u8>) -> u8
    recommends
        ipv6_valid(b),
{
    match ipv6_chain(b, 40, b[6]) {
        Some((ihl, p)) => p,
        None => b[6],
    }
}

/// The identification field of the first fragment header in the chain.
pub open spec fn ipv6_computed_identification(b: Seq<u8>) -> Option<u32>
    recommends
        ipv6_valid(b),
{
    match ipv6_fragment_pos(b, 40, b[6]) {
        Some(fp) => Some(be32(b, fp + 4)),
        None => None,
    }
}

/// The more-fragments flag of the first fragment header in the chain.
pub open spec fn ipv6_computed_more_fragments(b: Seq<u8>) -> Option<bool>
    recommends
        ipv6_valid(b),
{
    match ipv6_fragment_pos(b, 40, b[6]) {
        Some(fp) => Some(b[fp + 3] & 0x01 != 0),
        None => None,
    }
}

/// The 13-bit fragment offset of the first fragment header in the chain.
pub open spec fn ipv6_computed_fragment_offset(b: Seq<u8>) -> Option<u16>
    recommends
        ipv6_valid(b),
{
    match ipv6_fragment_pos(b, 40, b[6]) {
        Some(fp) => Some(be16(b, fp + 2) >> 3),
        None => None,
    }
}

/// One entry of the extension-header chain: the fragment header is decoded,
/// every other header is surfaced as its type and raw bytes.
#[derive(Debug, Copy, Clone)]
pub enum Ipv6ExtensionHeader<'a> {
    Raw { header: u8, content: &'a [u8] },
    Fragment { identification: u32, more_fragments: bool, fragment_offset: u16 },
}

/// The mathematical value of one extension-header entry.
pub enum Ipv6ExtensionHeaderView {
    Raw { header: u8, content: Seq<u8> },
    Fragment { identification: u32, more_fragments: bool, fragment_offset: u16 },
}

impl<'a> View for Ipv6ExtensionHeader<'a> {
    type V = Ipv6ExtensionHeaderView;

    closed spec fn view(&self) -> Ipv6ExtensionHeaderView {
        match self {
            Ipv6ExtensionHeader::Raw { header, content } => Ipv6ExtensionHeaderView::Raw {
                header: *header,
                content: content@,
            },
            Ipv6ExtensionHeader::Fragment { identification, more_fragments, fragment_offset } => {
                Ipv6ExtensionHeaderView::Fragment {
                    identification: *identification,
                    more_fragments: *more_fragments,
                    fragment_offset: *fragment_offset,
                }
            },
        }
    }
}

/// The entries of the extension-header chain of `b` from `pos` on, where
/// `nh` is the type announced for the header at `pos`.
pub open spec fn ipv6_extension_headers(b: Seq<u8>, pos: int, nh: u8) -> Seq<
    Ipv6ExtensionHeaderView,
>
    decreases b.len() - pos,
{
    if !is_ipv6_extension_header(nh) {
        Seq::empty()
    } else if pos < 0 || pos + 2 > b.len() {
        Seq::empty()
    } else {
        let hlen = if nh == 44 {
            8int
        } else {
            8 * (b[pos + 1] + 1)
        };
        if pos + hlen > b.len() {
            Seq::empty()
        } else {
            let entry = if nh == 44 {
                Ipv6ExtensionHeaderView::Fragment {
                    identification: be32(b, pos + 4),
                    more_fragments: b[pos + 3] & 0x01 != 0,
                    fragment_offset: be16(b, pos + 2) >> 3,
                }
            } else {
                Ipv6ExtensionHeaderView::Raw { header: nh, content: b.subrange(pos, pos + hlen) }
            };
            seq![entry] + ipv6_extension_headers(b, pos + hlen, b[pos])
        }
    }
}

/// Walks the whole extension-header chain; the executable counterpart of
/// `ipv6_chain` at the start of the packet.
fn walk_chain(buffer: &[u8]) -> (r: Option<(usize, u8)>)
    requires
        buffer@.len() >= 40,
    ensures
        match r {
            Some((pos, nh)) => ipv6_chain(buffer@, 40, buffer@[6]) == Some((pos as int, nh))
                && 40 <= pos <= buffer@.len(),
            None => ipv6_chain(buffer@, 40, buffer@[6]) is None,
        },
{
    let mut pos: usize = 40;
    let mut nh: u8 = *slice_index_get(buffer, 6);
    loop
        invariant
            40 <= pos <= buffer@.len(),
            ipv6_chain(buffer@, pos as int, nh) == ipv6_chain(buffer@, 40, buffer@[6]),
        decreases buffer@.len() - pos,
    {
        if !(nh == 0 || nh == 43 || nh == 44 || nh == 60) {
            return Some((pos, nh));
        }
        if buffer.len() - pos < 2 {
            return None;
        }
        let hlen: usize = if nh == 44 {
            8
        } else {
            (*slice_index_get(buffer, pos + 1) as usize + 1) * 8
        };
        if hlen > buffer.len() - pos {
            return None;
        }
        let next = *slice_index_get(buffer, pos);
        pos = pos + hlen;
        nh = next;
    }
}

/// Walks the chain up to the first fragment header; the executable
/// counterpart of `ipv6_fragment_pos` at the start of the packet.
fn walk_fragment(buffer: &[u8]) -> (r: Option<usize>)
    requires
        buffer@.len() >= 40,
    ensures
        match r {
            Some(fp) => ipv6_fragment_pos(buffer@, 40, buffer@[6]) == Some(fp as int) && fp + 8
                <= buffer@.len() && buffer@.len() <= usize::MAX,
            None => ipv6_fragment_pos(buffer@, 40, buffer@[6]) is None,
        },
{
    let mut pos: usize = 40;
    let mut nh: u8 = *slice_index_get(buffer, 6);
    loop
        invariant
            40 <= pos <= buffer@.len(),
            ipv6_fragment_pos(buffer@, pos as int, nh) == ipv6_fragment_pos(
                buffer@,
                40,
                buffer@[6],
            ),
        decreases buffer@.len() - pos,
    {
        if nh == 44 {
            if buffer.len() - pos >= 8 {
                return Some(pos);
            } else {
                return None;
            }
        }
        if !(nh == 0 || nh == 43 || nh == 60) {
            return None;
        }
        if buffer.len() - pos < 2 {
            return None;
        }
        let hlen: usize = (*slice_index_get(buffer, pos + 1) as usize + 1) * 8;
        if hlen > buffer.len() - pos {
            return None;
        }
        let next = *slice_index_get(buffer, pos);
        pos = pos + hlen;
        nh = next;
    }
}

/// Represents an IPv6 header and payload
#[derive(Debug, Copy, Clone)]
pub struct Ipv6Pdu<'a> {
    buffer: &'a [u8],
}

impl<'a> View for Ipv6Pdu<'a> {
    type V = Seq<u8>;

    closed spec fn view(&self) -> Seq<u8> {
        self.buffer@
    }
}

/// A lazy, restartable walker over the extension-header chain; its view is
/// the sequence of entries not yet yielded.
pub struct Ipv6ExtensionHeaderIterator<'a> {
    buffer: &'a [u8],
    pos: usize,
    next_header: u8,
}

impl<'a> View for Ipv6ExtensionHeaderIterator<'a> {
    type V = Seq<Ipv6ExtensionHeaderView>;

    closed spec fn view(&self) -> Seq<Ipv6ExtensionHeaderView> {
        ipv6_extension_headers(self.buffer@, self.pos as int, self.next_header)
    }
}

impl<'a> Ipv6ExtensionHeaderIterator<'a> {
    #[verifier::type_invariant]
    spec fn wf(self) -> bool {
        self.pos <= self.buffer@.len()
    }

    /// Yields the next extension-header entry, or nothing once the chain has
    /// ended or a header would run past the buffer.
    pub fn next(&mut self) -> (r: Option<Ipv6ExtensionHeader<'a>>)
        ensures
            old(self)@.len() == 0 ==> r is None && final(self)@ == old(self)@,
            old(self)@.len() > 0 ==> {
                &&& r matches Some(h) && h@ == old(self)@[0]
                &&& final(self)@ == old(self)@.skip(1)
            },
    {
        proof {
            use_type_invariant(&*self);
        }
        let buffer = self.buffer;
        let pos = self.pos;
        let nh = self.next_header;
        if !(nh == 0 || nh == 43 || nh == 44 || nh == 60) {
            return None;
        }
        if buffer.len() - pos < 2 {
            return None;
        }
        let hlen: usize = if nh == 44 {
            8
        } else {
            (*slice_index_get(buffer, pos + 1) as usize + 1) * 8
        };
        if hlen > buffer.len() - pos {
            return None;
        }
        let next = *slice_index_get(buffer, pos);
        let entry = if nh == 44 {
            let identification = match util::read_u32(buffer, pos + 4) {
                Ok(v) => v,
                Err(_) => return None,
            };
            let flag_byte = match util::read_u8(buffer, pos + 3) {
                Ok(v) => v,
                Err(_) => return None,
            };
            let offset_field = match util::read_u16(buffer, pos + 2) {
                Ok(v) => v,
                Err(_) => return None,
            };
            Ipv6ExtensionHeader::Fragment {
                identification,
                more_fragments: flag_byte & 0x01 != 0,
                fragment_offset: offset_field >> 3,
            }
        } else {
            Ipv6ExtensionHeader::Raw { header: nh, content: slice_subrange(buffer, pos, pos + hlen) }
        };
        proof {
            assert(old(self)@.skip(1) =~= ipv6_extension_headers(
                buffer@,
                pos + hlen,
                buffer@[pos as int],
            ));
        }
        *self = Ipv6ExtensionHeaderIterator { buffer, pos: pos + hlen, next_header: next };
        Some(entry)
    }
}

impl<'a> Ipv6Pdu<'a> {
    #[verifier::type_invariant]
    spec fn wf(self) -> bool {
        ipv6_valid(self.buffer@)
    }

    /// Constructs an [`Ipv6Pdu`] backed by the provided `buffer`
    pub fn new(buffer: &'a [u8]) -> (r: Result<Self, Error>)
        ensures
            match r {
                Ok(p) => ipv6_valid(buffer@) && p@ == buffer@,
                Err(e) => !ipv6_valid(buffer@) && e == Error::Truncated,
            },
    {
        if buffer.len() < 40 {
            return Err(Error::Truncated);
        }
        match walk_chain(buffer) {
            Some(_) => Ok(Ipv6Pdu { buffer }),
            None => Err(Error::Truncated),
        }
    }

    /// Returns a reference to the entire underlying buffer that was provided
    /// during construction
    pub fn buffer(&'a self) -> (r: &'a [u8])
        ensures
            r@ == self@,
    {
        self.buffer
    }

    /// Consumes this object and returns a reference to the entire underlying
    /// buffer that was provided during construction
    pub fn into_buffer(self) -> (r: &'a [u8])
        ensures
            r@ == self@,
    {
        self.buffer
    }

    /// Returns the slice of the underlying buffer that contains the header
    /// part of this PDU, extension headers included
    pub fn as_bytes(&'a self) -> (r: &'a [u8])
        ensures
            r@ == self@.subrange(0, ipv6_computed_ihl(self@)),
    {
        self.clone().into_bytes()
    }

    /// Consumes this object and returns the slice of the underlying buffer
    /// that contains the header part of this PDU, extension headers included
    pub fn into_bytes(self) -> (r: &'a [u8])
        ensures
            r@ == self@.subrange(0, ipv6_computed_ihl(self@)),
    {
        proof {
            use_type_invariant(&self);
        }
        let ihl = match self.computed_ihl() {
            Ok(ihl) => ihl,
            Err(_) => 40,
        };
        slice_subrange(self.buffer, 0, ihl)
    }

    /// Returns an object representing the inner payload of this PDU,
    /// dispatched by the effective upper-layer protocol
    pub fn inner(&'a self) -> (r: Result<Ipv6<'a>, Error>)
        ensures
            ({
                let rest = self@.skip(ipv6_computed_ihl(self@));
                let proto = ipv6_computed_protocol(self@);
                match r {
                    Ok(Ipv6::Tcp(p)) => proto == IP_PROTOCOL_TCP && tcp_valid(rest) && p@ == rest,
                    Ok(Ipv6::Gre(p)) => proto == IP_PROTOCOL_GRE && gre_valid(rest) && p@ == rest,
                    Ok(Ipv6::Raw(s)) => proto != IP_PROTOCOL_TCP && proto != IP_PROTOCOL_GRE && s@
                        == rest,
                    Err(e) => {
                        ||| proto == IP_PROTOCOL_TCP && !tcp_valid(rest) && e == Error::Truncated
                        ||| proto == IP_PROTOCOL_GRE && !gre_valid(rest) && e == gre_new_error(
                            rest,
                        )
                    },
                }
            }),
    {
        self.clone().into_inner()
    }

    /// Consumes this object and returns an object representing the inner
    /// payload of this PDU, dispatched by the effective upper-layer protocol
    pub fn into_inner(self) -> (r: Result<Ipv6<'a>, Error>)
        ensures
            ({
                let rest = self@.skip(ipv6_computed_ihl(self@));
                let proto = ipv6_computed_protocol(self@);
                match r {
                    Ok(Ipv6::Tcp(p)) => proto == IP_PROTOCOL_TCP && tcp_valid(rest) && p@ == rest,
                    Ok(Ipv6::Gre(p)) => proto == IP_PROTOCOL_GRE && gre_valid(rest) && p@ == rest,
                    Ok(Ipv6::Raw(s)) => proto != IP_PROTOCOL_TCP && proto != IP_PROTOCOL_GRE && s@
                        == rest,
                    Err(e) => {
                        ||| proto == IP_PROTOCOL_TCP && !tcp_valid(rest) && e == Error::Truncated
                        ||| proto == IP_PROTOCOL_GRE && !gre_valid(rest) && e == gre_new_error(
                            rest,
                        )
                    },
                }
            }),
    {
        proof {
            use_type_invariant(&self);
        }
        let (ihl, proto) = match walk_chain(self.buffer) {
            Some(found) => found,
            None => return Err(Error::Truncated),
        };
        let rest = slice_subrange(self.buffer, ihl, self.buffer.len());
        proof {
            assert(rest@ =~= self@.skip(ipv6_computed_ihl(self@)));
        }
        if proto == IP_PROTOCOL_TCP {
            match TcpPdu::new(rest) {
                Ok(p) => Ok(Ipv6::Tcp(p)),
                Err(e) => Err(e),
            }
        } else if proto == IP_PROTOCOL_GRE {
            match GrePdu::new(rest) {
                Ok(p) => Ok(Ipv6::Gre(p)),
                Err(e) => Err(e),
            }
        } else {
            Ok(Ipv6::Raw(rest))
        }
    }

    /// The version nibble (6 on a conforming packet; not validated)
    pub fn version(&'a self) -> (r: Result<u8, Error>)
        ensures
            r == Ok::<u8, Error>(self@[0] >> 4),
    {
        proof {
            use_type_invariant(&*self);
        }
        match util::read_u8(self.buffer, 0) {
            Ok(v) => Ok(v >> 4),
            Err(e) => Err(e),
        }
    }

    /// The differentiated-services code point: the high 6 bits of the
    /// traffic-class byte, which straddles bytes 0 and 1
    pub fn dscp(&'a self) -> (r: Result<u8, Error>)
        ensures
            r == Ok::<u8, Error>(((self@[0] & 0x0f) << 2) | (self@[1] >> 6)),
    {
        proof {
            use_type_invariant(&*self);
        }
        let b0 = match util::read_u8(self.buffer, 0) {
            Ok(v) => v,
            Err(e) => return Err(e),
        };
        let b1 = match util::read_u8(self.buffer, 1) {
            Ok(v) => v,
            Err(e) => return Err(e),
        };
        Ok(((b0 & 0x0f) << 2) | (b1 >> 6))
    }

    /// The explicit-congestion-notification bits: the low 2 bits of the
    /// traffic-class byte
    pub fn ecn(&'a self) -> (r: Result<u8, Error>)
        ensures
            r == Ok::<u8, Error>((self@[1] >> 4) & 0x03),
    {
        proof {
            use_type_invariant(&*self);
        }
        match util::read_u8(self.buffer, 1) {
            Ok(v) => Ok((v >> 4) & 0x03),
            Err(e) => Err(e),
        }
    }

    /// The 20-bit flow label
    pub fn flow_label(&'a self) -> (r: Result<u32, Error>)
        ensures
            r == Ok::<u32, Error>(
                (((self@[1] & 0x0f) as u32) << 16) | ((self@[2] as u32) << 8) | (self@[3] as u32),
            ),
    {
        proof {
            use_type_invariant(&*self);
        }
        let b1 = match util::read_u8(self.buffer, 1) {
            Ok(v) => v,
            Err(e) => return Err(e),
        };
        let b2 = match util::read_u8(self.buffer, 2) {
            Ok(v) => v,
            Err(e) => return Err(e),
        };
        let b3 = match util::read_u8(self.buffer, 3) {
            Ok(v) => v,
            Err(e) => return Err(e),
        };
        Ok((((b1 & 0x0f) as u32) << 16) | ((b2 as u32) << 8) | (b3 as u32))
    }

    /// The length of the payload after the fixed 40-byte header, extension
    /// headers included
    pub fn payload_length(&'a self) -> (r: Result<u16, Error>)
        ensures
            r == Ok::<u16, Error>(be16(self@, 4)),
    {
        proof {
            use_type_invariant(&*self);
        }
        util::read_u16(self.buffer, 4)
    }

    /// The next-header field of the fixed header: the type of the first
    /// extension header, or the upper-layer protocol when there is none
    pub fn next_header(&'a self) -> (r: Result<u8, Error>)
        ensures
            r == Ok::<u8, Error>(self@[6]),
    {
        proof {
            use_type_invariant(&*self);
        }
        util::read_u8(self.buffer, 6)
    }

    /// The hop-limit field
    pub fn hop_limit(&'a self) -> (r: Result<u8, Error>)
        ensures
            r == Ok::<u8, Error>(self@[7]),
    {
        proof {
            use_type_invariant(&*self);
        }
        util::read_u8(self.buffer, 7)
    }

    /// The effective header length: 40 plus the lengths of all extension
    /// headers
    pub fn computed_ihl(&'a self) -> (r: Result<usize, Error>)
        ensures
            r matches Ok(ihl) && ihl == ipv6_computed_ihl(self@) && 40 <= ihl <= self@.len(),
    {
        proof {
            use_type_invariant(&*self);
        }
        match walk_chain(self.buffer) {
            Some((pos, _)) => Ok(pos),
            None => Err(Error::Truncated),
        }
    }

    /// The effective upper-layer protocol: the first next-header value that
    /// is not an extension-header type
    pub fn computed_protocol(&'a self) -> (r: Result<u8, Error>)
        ensures
            r == Ok::<u8, Error>(ipv6_computed_protocol(self@)),
    {
        proof {
            use_type_invariant(&*self);
        }
        match walk_chain(self.buffer) {
            Some((_, nh)) => Ok(nh),
            None => Err(Error::Truncated),
        }
    }

    /// The identification field of the first fragment header, when the chain
    /// holds one
    pub fn computed_identification(&'a self) -> (r: Option<u32>)
        ensures
            r == ipv6_computed_identification(self@),
    {
        proof {
            use_type_invariant(&*self);
        }
        match walk_fragment(self.buffer) {
            Some(fp) => match util::read_u32(self.buffer, fp + 4) {
                Ok(v) => Some(v),
                Err(_) => None,
            },
            None => None,
        }
    }

    /// The more-fragments flag of the first fragment header, when the chain
    /// holds one
    pub fn computed_more_fragments(&'a self) -> (r: Option<bool>)
        ensures
            r == ipv6_computed_more_fragments(self@),
    {
        proof {
            use_type_invariant(&*self);
        }
        match walk_fragment(self.buffer) {
            Some(fp) => match util::read_u8(self.buffer, fp + 3) {
                Ok(v) => Some(v & 0x01 != 0),
                Err(_) => None,
            },
            None => None,
        }
    }

    /// The 13-bit fragment offset of the first fragment header, when the
    /// chain holds one
    pub fn computed_fragment_offset(&'a self) -> (r: Option<u16>)
        ensures
            r == ipv6_computed_fragment_offset(self@),
    {
        proof {
            use_type_invariant(&*self);
        }
        match walk_fragment(self.buffer) {
            Some(fp) => match util::read_u16(self.buffer, fp + 2) {
                Ok(v) => Some(v >> 3),
                Err(_) => None,
            },
            None => None,
        }
    }

    /// The source address: bytes 8 to 23 of the header
    pub fn source_address(&'a self) -> (r: Result<&'a [u8], Error>)
        ensures
            r matches Ok(a) && a@ == self@.subrange(8, 24),
    {
        proof {
            use_type_invariant(&*self);
        }
        util::read_slice(self.buffer, 8, 24)
    }

    /// The destination address: bytes 24 to 39 of the header
    pub fn destination_address(&'a self) -> (r: Result<&'a [u8], Error>)
        ensures
            r matches Ok(a) && a@ == self@.subrange(24, 40),
    {
        proof {
            use_type_invariant(&*self);
        }
        util::read_slice(self.buffer, 24, 40)
    }

    /// A fresh walker over the extension-header chain; re-walking always
    /// starts from the first extension header
    pub fn extension_headers(&'a self) -> (r: Ipv6ExtensionHeaderIterator<'a>)
        ensures
            r@ == ipv6_extension_headers(self@, 40, self@[6]),
    {
        proof {
            use_type_invariant(&*self);
        }
        let nh = match util::read_u8(self.buffer, 6) {
            Ok(v) => v,
            Err(_) => 59,
        };
        Ipv6ExtensionHeaderIterator { buffer: self.buffer, pos: 40, next_header: nh }
    }
}

/// A packet with no extension headers: its effective protocol is exactly the
/// next-header field of the fixed header, and its effective header length is
/// exactly 40.
pub proof fn lemma_ipv6_no_extension_headers(b: Seq<u8>)
    requires
        ipv6_valid(b),
        !is_ipv6_extension_header(b[6]),
    ensures
        ipv6_computed_protocol(b) == b[6],
        ipv6_computed_ihl(b) == 40,
{
}

/// A packet whose chain is one fragment header followed by a non-extension
/// protocol: its effective header length is 48, its effective protocol is
/// the fragment header's next-header field, and the fragment fields are
/// read from the fragment header at offset 40.
pub proof fn lemma_ipv6_fragment_chain(b: Seq<u8>)
    requires
        ipv6_valid(b),
        b[6] == 44,
        !is_ipv6_extension_header(b[40]),
    ensures
        ipv6_computed_ihl(b) == 48,
        ipv6_computed_protocol(b) == b[40],
        ipv6_computed_fragment_offset(b) == Some(be16(b, 42) >> 3),
        ipv6_computed_more_fragments(b) == Some(b[43] & 0x01 != 0),
        ipv6_computed_identification(b) == Some(be32(b, 44)),
{
    assert(b.len() >= 48) by {
        assert(ipv6_chain(b, 40, b[6]) is Some);
    }
    assert(ipv6_chain(b, 48, b[40]) == Some((48int, b[40])));
    assert(ipv6_fragment_pos(b, 40, b[6]) == Some(40int));
}

} // verus!
