//! TCP header view: a variable-length header (20 to 60 bytes, declared by
//! the data-offset nibble in 32-bit words), decoded option entries between
//! the fixed header and the data-offset boundary, and an RFC 1071 checksum
//! over a pseudo-header built from the enclosing IP layer plus the segment
//! with its checksum field treated as zero.

use vstd::prelude::*;
use vstd::slice::{slice_index_get, slice_subrange};

use crate::options::{next_option_chunk, option_chunks};
use crate::util;
use crate::util::{be16, be32, checksum_of, spans_views};
use crate::{Error, Ip};

verus! {

/// The data-offset nibble: the high 4 bits of byte 12, the header length in
/// 32-bit words.
pub open spec fn tcp_data_offset(b: Seq<u8>) -> u8
    recommends
        b.len() >= 13,
{
    (b[12] / 16) as u8
}

/// The header length in bytes: the data-offset nibble times 4.
pub open spec fn tcp_computed_data_offset(b: Seq<u8>) -> int
    recommends
        b.len() >= 13,
{
    (b[12] / 16) * 4
}

/// A buffer holds a well-formed TCP header: at least the fixed 20 bytes, and
/// at least the declared data offset.
pub open spec fn tcp_valid(b: Seq<u8>) -> bool {
    b.len() >= 20 && b.len() >= tcp_computed_data_offset(b)
}

/// The spans covered by the TCP checksum when the enclosing layer is IPv4:
/// the IPv4 pseudo-header (source address, destination address, a zero byte,
/// protocol 6, and the 16-bit segment length), then the segment with its
/// 2-byte checksum field at offset 16 skipped (every span is 16-bit aligned,
/// so skipping the field is the same as zeroing it).
pub open spec fn tcp_checksum_spans_ipv4(ip: Seq<u8>, seg: Seq<u8>) -> Seq<Seq<u8>> {
    seq![
        ip.subrange(12, 16),
        ip.subrange(16, 20),
        seq![0u8, 6u8, (((seg.len() / 256) % 256) as u8), ((seg.len() % 256) as u8)],
        seg.subrange(0, 16),
        seg.skip(18),
    ]
}

/// The spans covered by the TCP checksum when the enclosing layer is IPv6:
/// the IPv6 pseudo-header (source address, destination address, the 32-bit
/// segment length, three zero bytes, and next-header 6), then the segment
/// with its checksum field skipped.
pub open spec fn tcp_checksum_spans_ipv6(ip: Seq<u8>, seg: Seq<u8>) -> Seq<Seq<u8>> {
    seq![
        ip.subrange(8, 24),
        ip.subrange(24, 40),
        seq![
            (((seg.len() / 0x1000000) % 256) as u8),
            (((seg.len() / 0x10000) % 256) as u8),
            (((seg.len() / 256) % 256) as u8),
            ((seg.len() % 256) as u8),
            0u8,
            0u8,
            0u8,
            6u8,
        ],
        seg.subrange(0, 16),
        seg.skip(18),
    ]
}

/// The checksum of a TCP segment `seg` riding on the IP packet `ip`,
/// recomputed with the stored checksum field treated as zero. The
/// pseudo-header is layer-specific: `v6` selects the IPv6 form.
pub open spec fn tcp_computed_checksum(v6: bool, ip: Seq<u8>, seg: Seq<u8>) -> u16 {
    if v6 {
        checksum_of(tcp_checksum_spans_ipv6(ip, seg))
    } else {
        checksum_of(tcp_checksum_spans_ipv4(ip, seg))
    }
}

/// The SACK edge pairs carried by a SACK option entry `c`: one pair of
/// 32-bit block edges for each 8 bytes after the kind and length bytes.
pub open spec fn sack_blocks(c: Seq<u8>) -> Seq<(u32, u32)> {
    Seq::new(((c.len() - 2) / 8) as nat, |i: int| (be32(c, 2 + 8 * i), be32(c, 6 + 8 * i)))
}

/// The mathematical value of one decoded TCP option entry.
pub enum TcpOptionView {
    Raw { option: Seq<u8> },
    NoOp,
    Mss { size: u16 },
    WindowScale { shift: u8 },
    SackPermitted,
    Sack { blocks: Seq<(u32, u32)> },
    Timestamp { val: u32, ecr: u32 },
}

/// Decodes one raw option entry: recognised kinds with their exact declared
/// length are decoded, everything else is surfaced as raw bytes.
pub open spec fn tcp_option_decode(c: Seq<u8>) -> TcpOptionView
    recommends
        c.len() >= 1,
{
    if c.len() == 1 {
        if c[0] == 1 {
            TcpOptionView::NoOp
        } else {
            TcpOptionView::Raw { option: c }
        }
    } else if c[0] == 2 && c.len() == 4 {
        TcpOptionView::Mss { size: be16(c, 2) }
    } else if c[0] == 3 && c.len() == 3 {
        TcpOptionView::WindowScale { shift: c[2] }
    } else if c[0] == 4 && c.len() == 2 {
        TcpOptionView::SackPermitted
    } else if c[0] == 5 && (c.len() == 10 || c.len() == 18 || c.len() == 26 || c.len() == 34) {
        TcpOptionView::Sack { blocks: sack_blocks(c) }
    } else if c[0] == 8 && c.len() == 10 {
        TcpOptionView::Timestamp { val: be32(c, 2), ecr: be32(c, 6) }
    } else {
        TcpOptionView::Raw { option: c }
    }
}

/// The decoded option entries between the fixed 20-byte header and the
/// data-offset boundary.
pub open spec fn tcp_options(b: Seq<u8>) -> Seq<TcpOptionView>
    recommends
        tcp_valid(b),
{
    option_chunks(
        b,
        20,
        if tcp_computed_data_offset(b) >= 20 {
            tcp_computed_data_offset(b)
        } else {
            20
        },
    ).map_values(|c: Seq<u8>| tcp_option_decode(c))
}

/// One entry of the TCP options list.
#[derive(Debug, Clone)]
pub enum TcpOption<'a> {
    Raw { option: &'a [u8] },
    NoOp,
    Mss { size: u16 },
    WindowScale { shift: u8 },
    SackPermitted,
    Sack { blocks: Vec<(u32, u32)> },
    Timestamp { val: u32, ecr: u32 },
}

impl<'a> View for TcpOption<'a> {
    type V = TcpOptionView;

    closed spec fn view(&self) -> TcpOptionView {
        match self {
            TcpOption::Raw { option } => TcpOptionView::Raw { option: option@ },
            TcpOption::NoOp => TcpOptionView::NoOp,
            TcpOption::Mss { size } => TcpOptionView::Mss { size: *size },
            TcpOption::WindowScale { shift } => TcpOptionView::WindowScale { shift: *shift },
            TcpOption::SackPermitted => TcpOptionView::SackPermitted,
            TcpOption::Sack { blocks } => TcpOptionView::Sack { blocks: blocks@ },
            TcpOption::Timestamp { val, ecr } => TcpOptionView::Timestamp {
                val: *val,
                ecr: *ecr,
            },
        }
    }
}

/// Decodes the raw bytes of one option entry.
fn decode_tcp_option<'a>(chunk: &'a [u8]) -> (r: TcpOption<'a>)
    requires
        chunk@.len() >= 1,
    ensures
        r@ == tcp_option_decode(chunk@),
{
    let len = chunk.len();
    let kind = *slice_index_get(chunk, 0);
    if len == 1 {
        if kind == 1 {
            TcpOption::NoOp
        } else {
            TcpOption::Raw { option: chunk }
        }
    } else if kind == 2 && len == 4 {
        let size = match util::read_u16(chunk, 2) {
            Ok(v) => v,
            Err(_) => 0,
        };
        TcpOption::Mss { size }
    } else if kind == 3 && len == 3 {
        TcpOption::WindowScale { shift: *slice_index_get(chunk, 2) }
    } else if kind == 4 && len == 2 {
        TcpOption::SackPermitted
    } else if kind == 5 && (len == 10 || len == 18 || len == 26 || len == 34) {
        let nblocks = (len - 2) / 8;
        let mut blocks: Vec<(u32, u32)> = Vec::new();
        let mut i: usize = 0;
        while i < nblocks
            invariant
                i <= nblocks,
                nblocks == (chunk@.len() - 2) / 8,
                chunk@.len() == len,
                len == 10 || len == 18 || len == 26 || len == 34,
                blocks@.len() == i,
                forall|k: int|
                    0 <= k < i ==> blocks@[k] == (be32(chunk@, 2 + 8 * k), be32(chunk@, 6 + 8 * k)),
            decreases nblocks - i,
        {
            let left = match util::read_u32(chunk, 2 + 8 * i) {
                Ok(v) => v,
                Err(_) => 0,
            };
            let right = match util::read_u32(chunk, 6 + 8 * i) {
                Ok(v) => v,
                Err(_) => 0,
            };
            blocks.push((left, right));
            i = i + 1;
        }
        proof {
            assert(blocks@ =~= sack_blocks(chunk@));
        }
        TcpOption::Sack { blocks }
    } else if kind == 8 && len == 10 {
        let val = match util::read_u32(chunk, 2) {
            Ok(v) => v,
            Err(_) => 0,
        };
        let ecr = match util::read_u32(chunk, 6) {
            Ok(v) => v,
            Err(_) => 0,
        };
        TcpOption::Timestamp { val, ecr }
    } else {
        TcpOption::Raw { option: chunk }
    }
}

/// A lazy, restartable walker over the TCP options region; its view is the
/// sequence of decoded entries not yet yielded.
pub struct TcpOptionIterator<'a> {
    buffer: &'a [u8],
    pos: usize,
    end: usize,
}

impl<'a> View for TcpOptionIterator<'a> {
    type V = Seq<TcpOptionView>;

    closed spec fn view(&self) -> Seq<TcpOptionView> {
        option_chunks(self.buffer@, self.pos as int, self.end as int).map_values(
            |c: Seq<u8>| tcp_option_decode(c),
        )
    }
}

impl<'a> TcpOptionIterator<'a> {
    #[verifier::type_invariant]
    spec fn wf(self) -> bool {
        self.pos <= self.end && self.end <= self.buffer@.len()
    }

    /// Yields the next decoded option entry, or nothing once the region is
    /// exhausted or a malformed entry ends the walk.
    pub fn next(&mut self) -> (r: Option<TcpOption<'a>>)
        ensures
            old(self)@.len() == 0 ==> r is None && final(self)@ == old(self)@,
            old(self)@.len() > 0 ==> {
                &&& r matches Some(o) && o@ == old(self)@[0]
                &&& final(self)@ == old(self)@.skip(1)
            },
    {
        proof {
            use_type_invariant(&*self);
        }
        match next_option_chunk(self.buffer, self.pos, self.end) {
            Some((s, e)) => {
                let chunk = slice_subrange(self.buffer, s, e);
                let o = decode_tcp_option(chunk);
                let buffer = self.buffer;
                let end = self.end;
                proof {
                    assert(old(self)@.skip(1) =~= option_chunks(
                        buffer@,
                        e as int,
                        end as int,
                    ).map_values(|c: Seq<u8>| tcp_option_decode(c)));
                }
                *self = TcpOptionIterator { buffer, pos: e, end };
                Some(o)
            },
            None => None,
        }
    }
}

/// Represents a TCP header and payload
#[derive(Debug, Copy, Clone)]
pub struct TcpPdu<'a> {
    buffer: &'a [u8],
}

impl<'a> View for TcpPdu<'a> {
    type V = Seq<u8>;

    closed spec fn view(&self) -> Seq<u8> {
        self.buffer@
    }
}

/// Contains the inner payload of a [`TcpPdu`]
#[derive(Debug, Copy, Clone)]
pub enum Tcp<'a> {
    Raw(&'a [u8]),
}

impl<'a> TcpPdu<'a> {
    #[verifier::type_invariant]
    spec fn wf(self) -> bool {
        tcp_valid(self.buffer@)
    }

    /// Constructs a [`TcpPdu`] backed by the provided `buffer`
    pub fn new(buffer: &'a [u8]) -> (r: Result<Self, Error>)
        ensures
            match r {
                Ok(p) => tcp_valid(buffer@) && p@ == buffer@,
                Err(e) => !tcp_valid(buffer@) && e == Error::Truncated,
            },
    {
        if buffer.len() < 20 {
            return Err(Error::Truncated);
        }
        let first = *slice_index_get(buffer, 12);
        let data_offset: usize = (first / 16) as usize * 4;
        if buffer.len() < data_offset {
            return Err(Error::Truncated);
        }
        Ok(TcpPdu { buffer })
    }

    /// Returns a reference to the entire underlying buffer that was provided
    /// during construction
    pub fn buffer(&'a self) -> (r: &'a [u8])
        ensures
            r@ == self@,
    {
        self.buffer
    }

    /// Consumes this object and returns a reference to the entire underlying
    /// buffer that was provided during construction
    pub fn into_buffer(self) -> (r: &'a [u8])
        ensures
            r@ == self@,
    {
        self.buffer
    }

    /// Returns the slice of the underlying buffer that contains the header
    /// part of this PDU, options included
    pub fn as_bytes(&'a self) -> (r: &'a [u8])
        ensures
            r@ == self@.subrange(0, tcp_computed_data_offset(self@)),
    {
        self.clone().into_bytes()
    }

    /// Consumes this object and returns the slice of the underlying buffer
    /// that contains the header part of this PDU, options included
    pub fn into_bytes(self) -> (r: &'a [u8])
        ensures
            r@ == self@.subrange(0, tcp_computed_data_offset(self@)),
    {
        proof {
            use_type_invariant(&self);
        }
        let data_offset = match self.computed_data_offset() {
            Ok(v) => v,
            Err(_) => 0,
        };
        slice_subrange(self.buffer, 0, data_offset)
    }

    /// Returns an object representing the inner payload of this PDU
    pub fn inner(&'a self) -> (r: Result<Tcp<'a>, Error>)
        ensures
            r matches Ok(t) && t matches Tcp::Raw(s) && s@ == self@.skip(
                tcp_computed_data_offset(self@),
            ),
    {
        self.clone().into_inner()
    }

    /// Consumes this object and returns an object representing the inner
    /// payload of this PDU
    pub fn into_inner(self) -> (r: Result<Tcp<'a>, Error>)
        ensures
            r matches Ok(t) && t matches Tcp::Raw(s) && s@ == self@.skip(
                tcp_computed_data_offset(self@),
            ),
    {
        proof {
            use_type_invariant(&self);
        }
        let data_offset = match self.computed_data_offset() {
            Ok(v) => v,
            Err(_) => 0,
        };
        let rest = slice_subrange(self.buffer, data_offset, self.buffer.len());
        proof {
            assert(rest@ =~= self@.skip(tcp_computed_data_offset(self@)));
        }
        Ok(Tcp::Raw(rest))
    }

    /// The source port
    pub fn source_port(&'a self) -> (r: Result<u16, Error>)
        ensures
            r == Ok::<u16, Error>(be16(self@, 0)),
    {
        proof {
            use_type_invariant(&*self);
        }
        util::read_u16(self.buffer, 0)
    }

    /// The destination port
    pub fn destination_port(&'a self) -> (r: Result<u16, Error>)
        ensures
            r == Ok::<u16, Error>(be16(self@, 2)),
    {
        proof {
            use_type_invariant(&*self);
        }
        util::read_u16(self.buffer, 2)
    }

    /// The sequence number
    pub fn sequence_number(&'a self) -> (r: Result<u32, Error>)
        ensures
            r == Ok::<u32, Error>(be32(self@, 4)),
    {
        proof {
            use_type_invariant(&*self);
        }
        util::read_u32(self.buffer, 4)
    }

    /// The acknowledgement number
    pub fn acknowledgement_number(&'a self) -> (r: Result<u32, Error>)
        ensures
            r == Ok::<u32, Error>(be32(self@, 8)),
    {
        proof {
            use_type_invariant(&*self);
        }
        util::read_u32(self.buffer, 8)
    }

    /// The data-offset nibble: the header length in 32-bit words
    pub fn data_offset(&'a self) -> (r: Result<u8, Error>)
        ensures
            r == Ok::<u8, Error>(tcp_data_offset(self@)),
    {
        proof {
            use_type_invariant(&*self);
        }
        match util::read_u8(self.buffer, 12) {
            Ok(v) => Ok(v / 16),
            Err(e) => Err(e),
        }
    }

    /// The header length in bytes: the data-offset nibble times 4
    pub fn computed_data_offset(&'a self) -> (r: Result<usize, Error>)
        ensures
            r matches Ok(v) && v == tcp_computed_data_offset(self@),
    {
        proof {
            use_type_invariant(&*self);
        }
        match self.data_offset() {
            Ok(v) => Ok(v as usize * 4),
            Err(e) => Err(e),
        }
    }

    /// The flags byte, all eight control bits together
    pub fn flags(&'a self) -> (r: Result<u8, Error>)
        ensures
            r == Ok::<u8, Error>(self@[13]),
    {
        proof {
            use_type_invariant(&*self);
        }
        util::read_u8(self.buffer, 13)
    }

    /// The FIN control flag
    pub fn fin(&'a self) -> (r: bool)
        ensures
            r == (self@[13] & 0x01 != 0),
    {
        proof {
            use_type_invariant(&*self);
        }
        match util::read_u8(self.buffer, 13) {
            Ok(v) => v & 0x01 != 0,
            Err(_) => false,
        }
    }

    /// The SYN control flag
    pub fn syn(&'a self) -> (r: bool)
        ensures
            r == (self@[13] & 0x02 != 0),
    {
        proof {
            use_type_invariant(&*self);
        }
        match util::read_u8(self.buffer, 13) {
            Ok(v) => v & 0x02 != 0,
            Err(_) => false,
        }
    }

    /// The RST control flag
    pub fn rst(&'a self) -> (r: bool)
        ensures
            r == (self@[13] & 0x04 != 0),
    {
        proof {
            use_type_invariant(&*self);
        }
        match util::read_u8(self.buffer, 13) {
            Ok(v) => v & 0x04 != 0,
            Err(_) => false,
        }
    }

    /// The PSH control flag
    pub fn psh(&'a self) -> (r: bool)
        ensures
            r == (self@[13] & 0x08 != 0),
    {
        proof {
            use_type_invariant(&*self);
        }
        match util::read_u8(self.buffer, 13) {
            Ok(v) => v & 0x08 != 0,
            Err(_) => false,
        }
    }

    /// The ACK control flag
    pub fn ack(&'a self) -> (r: bool)
        ensures
            r == (self@[13] & 0x10 != 0),
    {
        proof {
            use_type_invariant(&*self);
        }
        match util::read_u8(self.buffer, 13) {
            Ok(v) => v & 0x10 != 0,
            Err(_) => false,
        }
    }

    /// The URG control flag
    pub fn urg(&'a self) -> (r: bool)
        ensures
            r == (self@[13] & 0x20 != 0),
    {
        proof {
            use_type_invariant(&*self);
        }
        match util::read_u8(self.buffer, 13) {
            Ok(v) => v & 0x20 != 0,
            Err(_) => false,
        }
    }

    /// The ECN-Echo control flag
    pub fn ecn(&'a self) -> (r: bool)
        ensures
            r == (self@[13] & 0x40 != 0),
    {
        proof {
            use_type_invariant(&*self);
        }
        match util::read_u8(self.buffer, 13) {
            Ok(v) => v & 0x40 != 0,
            Err(_) => false,
        }
    }

    /// The CWR control flag
    pub fn cwr(&'a self) -> (r: bool)
        ensures
            r == (self@[13] & 0x80 != 0),
    {
        proof {
            use_type_invariant(&*self);
        }
        match util::read_u8(self.buffer, 13) {
            Ok(v) => v & 0x80 != 0,
            Err(_) => false,
        }
    }

    /// The raw window-size field
    pub fn window_size(&'a self) -> (r: Result<u16, Error>)
        ensures
            r == Ok::<u16, Error>(be16(self@, 14)),
    {
        proof {
            use_type_invariant(&*self);
        }
        util::read_u16(self.buffer, 14)
    }

    /// The window size scaled by a window-scale shift count learned from the
    /// options list. A shift count of 32 or more would discard the whole
    /// field, so it is ruled out
    pub fn computed_window_size(&'a self, shift: u8) -> (r: Result<u32, Error>)
        requires
            shift < 32,
        ensures
            r == Ok::<u32, Error>((be16(self@, 14) as u32) << shift),
    {
        match self.window_size() {
            Ok(w) => Ok((w as u32) << shift),
            Err(e) => Err(e),
        }
    }

    /// The stored checksum field
    pub fn checksum(&'a self) -> (r: Result<u16, Error>)
        ensures
            r == Ok::<u16, Error>(be16(self@, 16)),
    {
        proof {
            use_type_invariant(&*self);
        }
        util::read_u16(self.buffer, 16)
    }

    /// The checksum recomputed over the layer-specific pseudo-header of the
    /// enclosing IP packet and this segment, the stored checksum field
    /// treated as zero
    pub fn computed_checksum(&'a self, ip: &Ip<'a>) -> (r: Result<u16, Error>)
        ensures
            match *ip {
                Ip::Ipv4(p) => r == Ok::<u16, Error>(tcp_computed_checksum(false, p@, self@)),
                Ip::Ipv6(p) => r == Ok::<u16, Error>(tcp_computed_checksum(true, p@, self@)),
            },
    {
        proof {
            use_type_invariant(&*self);
        }
        let seg_len = self.buffer.len();
        let head = match util::read_slice(self.buffer, 0, 16) {
            Ok(s) => s,
            Err(_) => return Err(Error::ConversionError),
        };
        let tail = match util::read_slice_after(self.buffer, 18) {
            Ok(s) => s,
            Err(_) => return Err(Error::ConversionError),
        };
        match ip {
            Ip::Ipv4(p) => {
                let src = match p.source_address() {
                    Ok(a) => a,
                    Err(_) => return Err(Error::ConversionError),
                };
                let dst = match p.destination_address() {
                    Ok(a) => a,
                    Err(_) => return Err(Error::ConversionError),
                };
                let mut fixed: Vec<u8> = Vec::new();
                fixed.push(0);
                fixed.push(6);
                fixed.push(((seg_len / 256) % 256) as u8);
                fixed.push((seg_len % 256) as u8);
                let mut spans: Vec<&[u8]> = Vec::new();
                spans.push(src);
                spans.push(dst);
                spans.push(fixed.as_slice());
                spans.push(head);
                spans.push(tail);
                let r = util::checksum(spans.as_slice());
                proof {
                    assert(fixed@ =~= tcp_checksum_spans_ipv4(p@, self@)[2]);
                    assert(spans_views(spans@) =~= tcp_checksum_spans_ipv4(p@, self@));
                }
                Ok(r)
            },
            Ip::Ipv6(p) => {
                let src = match p.source_address() {
                    Ok(a) => a,
                    Err(_) => return Err(Error::ConversionError),
                };
                let dst = match p.destination_address() {
                    Ok(a) => a,
                    Err(_) => return Err(Error::ConversionError),
                };
                let mut fixed: Vec<u8> = Vec::new();
                fixed.push(((seg_len / 0x1000000) % 256) as u8);
                fixed.push(((seg_len / 0x10000) % 256) as u8);
                fixed.push(((seg_len / 256) % 256) as u8);
                fixed.push((seg_len % 256) as u8);
                fixed.push(0);
                fixed.push(0);
                fixed.push(0);
                fixed.push(6);
                let mut spans: Vec<&[u8]> = Vec::new();
                spans.push(src);
                spans.push(dst);
                spans.push(fixed.as_slice());
                spans.push(head);
                spans.push(tail);
                let r = util::checksum(spans.as_slice());
                proof {
                    assert(fixed@ =~= tcp_checksum_spans_ipv6(p@, self@)[2]);
                    assert(spans_views(spans@) =~= tcp_checksum_spans_ipv6(p@, self@));
                }
                Ok(r)
            },
        }
    }

    /// The urgent-pointer field
    pub fn urgent_pointer(&'a self) -> (r: Result<u16, Error>)
        ensures
            r == Ok::<u16, Error>(be16(self@, 18)),
    {
        proof {
            use_type_invariant(&*self);
        }
        util::read_u16(self.buffer, 18)
    }

    /// A fresh walker over the options region; re-walking always starts from
    /// the beginning of the region
    pub fn options(&'a self) -> (r: TcpOptionIterator<'a>)
        ensures
            r@ == tcp_options(self@),
    {
        proof {
            use_type_invariant(&*self);
        }
        let data_offset = match self.computed_data_offset() {
            Ok(v) => v,
            Err(_) => 20,
        };
        let end: usize = if data_offset >= 20 {
            data_offset
        } else {
            20
        };
        TcpOptionIterator { buffer: self.buffer, pos: 20, end }
    }
}

} // verus!
