//! Bounds-checked byte readers over a borrowed buffer, and the Internet
//! checksum primitive (RFC 1071 one's-complement sum over one or more spans).

use vstd::prelude::*;
use vstd::slice::*;
use vstd::arithmetic::div_mod::{
    lemma_add_mod_noop_right, lemma_fundamental_div_mod, lemma_mod_multiples_vanish,
};

use crate::Error;

verus! {

/// The 16-bit big-endian integer at offset `i` of `b`.
pub open spec fn be16(b: Seq<u8>, i: int) -> u16
    recommends
        0 <= i,
        i + 2 <= b.len(),
{
    (b[i] * 256 + b[i + 1]) as u16
}

/// The 32-bit big-endian integer at offset `i` of `b`.
pub open spec fn be32(b: Seq<u8>, i: int) -> u32
    recommends
        0 <= i,
        i + 4 <= b.len(),
{
    (b[i] * 0x1000000 + b[i + 1] * 0x10000 + b[i + 2] * 256 + b[i + 3]) as u32
}

/// Reads the byte at `position`, or fails when it lies beyond the buffer.
pub fn read_u8(buffer: &[u8], position: usize) -> (r: Result<u8, Error>)
    ensures
        position < buffer@.len() ==> r == Ok::<u8, Error>(buffer@[position as int]),
        position >= buffer@.len() ==> r == Err::<u8, Error>(Error::OutOfBounds),
{
    if position < buffer.len() {
        Ok(*slice_index_get(buffer, position))
    } else {
        Err(Error::OutOfBounds)
    }
}

/// Reads the big-endian 16-bit integer at `position`, or fails when any of its
/// bytes lies beyond the buffer.
pub fn read_u16(buffer: &[u8], position: usize) -> (r: Result<u16, Error>)
    ensures
        position + 2 <= buffer@.len() ==> r == Ok::<u16, Error>(be16(buffer@, position as int)),
        position + 2 > buffer@.len() ==> r == Err::<u16, Error>(Error::OutOfBounds),
{
    if buffer.len() >= 2 && position <= buffer.len() - 2 {
        let hi = *slice_index_get(buffer, position);
        let lo = *slice_index_get(buffer, position + 1);
        Ok((hi as u16) * 256 + (lo as u16))
    } else {
        Err(Error::OutOfBounds)
    }
}

/// Reads the big-endian 32-bit integer at `position`, or fails when any of its
/// bytes lies beyond the buffer.
pub fn read_u32(buffer: &[u8], position: usize) -> (r: Result<u32, Error>)
    ensures
        position + 4 <= buffer@.len() ==> r == Ok::<u32, Error>(be32(buffer@, position as int)),
        position + 4 > buffer@.len() ==> r == Err::<u32, Error>(Error::OutOfBounds),
{
    if buffer.len() >= 4 && position <= buffer.len() - 4 {
        let b0 = *slice_index_get(buffer, position);
        let b1 = *slice_index_get(buffer, position + 1);
        let b2 = *slice_index_get(buffer, position + 2);
        let b3 = *slice_index_get(buffer, position + 3);
        Ok((b0 as u32) * 0x1000000 + (b1 as u32) * 0x10000 + (b2 as u32) * 256 + (b3 as u32))
    } else {
        Err(Error::OutOfBounds)
    }
}

/// Returns the bytes `start..end` (exclusive end), or fails when that span
/// exceeds the buffer.
pub fn read_slice<'a>(buffer: &'a [u8], start: usize, end: usize) -> (r: Result<&'a [u8], Error>)
    ensures
        match r {
            Ok(s) => start <= end <= buffer@.len() && s@ == buffer@.subrange(
                start as int,
                end as int,
            ),
            Err(e) => (start > end || end > buffer@.len()) && e == Error::OutOfBounds,
        },
{
    if start <= end && end <= buffer.len() {
        Ok(slice_subrange(buffer, start, end))
    } else {
        Err(Error::OutOfBounds)
    }
}

/// Returns the bytes `start..=end` (inclusive end), or fails when that span
/// exceeds the buffer.
pub fn read_slice_inclusive<'a>(buffer: &'a [u8], start: usize, end: usize) -> (r: Result<
    &'a [u8],
    Error,
>)
    ensures
        match r {
            Ok(s) => start <= end + 1 && end < buffer@.len() && s@ == buffer@.subrange(
                start as int,
                end + 1,
            ),
            Err(e) => (start > end + 1 || end >= buffer@.len()) && e == Error::OutOfBounds,
        },
{
    if start <= end && end < buffer.len() {
        Ok(slice_subrange(buffer, start, end + 1))
    } else if end < buffer.len() && start == end + 1 {
        Ok(slice_subrange(buffer, start, start))
    } else {
        Err(Error::OutOfBounds)
    }
}

/// Returns the bytes from `start` to the end of the buffer, or fails when
/// `start` exceeds the buffer length.
pub fn read_slice_after<'a>(buffer: &'a [u8], start: usize) -> (r: Result<&'a [u8], Error>)
    ensures
        match r {
            Ok(s) => start <= buffer@.len() && s@ == buffer@.skip(start as int),
            Err(e) => start > buffer@.len() && e == Error::OutOfBounds,
        },
{
    if start <= buffer.len() {
        let s = slice_subrange(buffer, start, buffer.len());
        assert(s@ =~= buffer@.skip(start as int));
        Ok(s)
    } else {
        Err(Error::OutOfBounds)
    }
}

/// Sum of the big-endian 16-bit words of `b`. A trailing odd byte counts as
/// the high byte of a final zero-padded word (RFC 1071).
pub open spec fn word_sum(b: Seq<u8>) -> int
    decreases b.len(),
{
    if b.len() >= 2 {
        b[0] * 256 + b[1] + word_sum(b.skip(2))
    } else if b.len() == 1 {
        b[0] * 256
    } else {
        0
    }
}

/// One step of end-around carry folding: the high 16 bits of the accumulator
/// added to its low 16 bits.
pub open spec fn fold_step(x: int) -> int {
    x / 0x10000 + x % 0x10000
}

/// The fully folded 16-bit one's-complement sum of a non-negative accumulator:
/// the fixed point of repeated end-around carry folding.
pub open spec fn ones_fold(x: int) -> int
    recommends
        x >= 0,
{
    if x == 0 {
        0
    } else if x % 0xffff == 0 {
        0xffff
    } else {
        x % 0xffff
    }
}

/// The Internet checksum of several byte spans treated as one logical stream,
/// each span independently padded to 16-bit alignment: the one's complement
/// of the folded sum of all their words.
pub open spec fn checksum_of(s: Seq<Seq<u8>>) -> u16 {
    (0xffff - ones_fold(spans_word_sum(s))) as u16
}

/// Total word sum across a sequence of spans.
pub open spec fn spans_word_sum(s: Seq<Seq<u8>>) -> int
    decreases s.len(),
{
    if s.len() == 0 {
        0
    } else {
        word_sum(s[0]) + spans_word_sum(s.skip(1))
    }
}

/// The byte sequences that a slice of spans denotes.
pub open spec fn spans_views(s: Seq<&[u8]>) -> Seq<Seq<u8>> {
    s.map_values(|sp: &[u8]| sp@)
}

pub proof fn lemma_word_sum_nonneg(b: Seq<u8>)
    ensures
        word_sum(b) >= 0,
    decreases b.len(),
{
    if b.len() >= 2 {
        lemma_word_sum_nonneg(b.skip(2));
    }
}

pub proof fn lemma_spans_word_sum_nonneg(s: Seq<Seq<u8>>)
    ensures
        spans_word_sum(s) >= 0,
    decreases s.len(),
{
    if s.len() > 0 {
        lemma_word_sum_nonneg(s[0]);
        lemma_spans_word_sum_nonneg(s.skip(1));
    }
}

/// Appending one zero byte never changes the word sum: an odd trailing byte
/// is already treated as the high byte of a zero-padded word, and a zero low
/// byte adds nothing.
proof fn lemma_word_sum_push_zero(b: Seq<u8>)
    ensures
        word_sum(b.push(0)) == word_sum(b),
    decreases b.len(),
{
    let p = b.push(0);
    if b.len() >= 2 {
        assert(p[0] == b[0] && p[1] == b[1]);
        assert(p.skip(2) =~= b.skip(2).push(0));
        lemma_word_sum_push_zero(b.skip(2));
    } else if b.len() == 1 {
        assert(p[0] == b[0] && p[1] == 0);
        assert(p.skip(2) =~= Seq::<u8>::empty());
        assert(word_sum(p.skip(2)) == 0);
        assert(word_sum(p) == b[0] * 256);
    } else {
        assert(p.len() == 1 && p[0] == 0);
        assert(word_sum(p) == 0);
    }
}

/// The Internet checksum of a span with an odd number of bytes equals the
/// checksum of that span followed by one zero padding byte.
pub proof fn lemma_checksum_odd_zero_pad(b: Seq<u8>)
    requires
        b.len() % 2 == 1,
    ensures
        checksum_of(seq![b.push(0)]) == checksum_of(seq![b]),
{
    lemma_word_sum_push_zero(b);
    assert(seq![b.push(0)].skip(1) =~= Seq::<Seq<u8>>::empty());
    assert(seq![b].skip(1) =~= Seq::<Seq<u8>>::empty());
}

/// Unfolds `word_sum` at an even cursor: the words of `b` from `i` on are the
/// word at `i` plus the words from `i + 2` on.
proof fn lemma_word_sum_step(b: Seq<u8>, i: int)
    requires
        0 <= i,
        i + 2 <= b.len(),
    ensures
        word_sum(b.skip(i)) == b[i] * 256 + b[i + 1] + word_sum(b.skip(i + 2)),
{
    assert(b.skip(i).skip(2) =~= b.skip(i + 2));
    assert(b.skip(i)[0] == b[i]);
    assert(b.skip(i)[1] == b[i + 1]);
}

/// Two non-negative accumulators with the same remainder modulo 0xffff, zero
/// only together, fold to the same 16-bit value.
proof fn lemma_ones_fold_congruent(u: int, v: int)
    requires
        u >= 0,
        v >= 0,
        u % 0xffff == v % 0xffff,
        (u == 0) <==> (v == 0),
    ensures
        ones_fold(u) == ones_fold(v),
{
}

/// Folding preserves the remainder modulo 0xffff, zeroness, and yields a
/// 16-bit value.
proof fn lemma_ones_fold_mod(x: int)
    requires
        x >= 0,
    ensures
        ones_fold(x) % 0xffff == x % 0xffff,
        (ones_fold(x) == 0) <==> (x == 0),
        0 <= ones_fold(x) <= 0xffff,
{
}

/// A value already within 16 bits is its own folded form.
proof fn lemma_ones_fold_small(x: int)
    requires
        0 <= x <= 0xffff,
    ensures
        ones_fold(x) == x,
{
}

/// One end-around carry step keeps the fully folded value, never grows the
/// accumulator, and brings an at-most-17-bit accumulator within 16 bits.
proof fn lemma_fold_step(x: int)
    requires
        x >= 0,
    ensures
        0 <= fold_step(x) <= x,
        ones_fold(fold_step(x)) == ones_fold(x),
        x <= 0x1fffe ==> fold_step(x) <= 0xffff,
{
    lemma_fundamental_div_mod(x, 0x10000);
    let q = x / 0x10000;
    let r = x % 0x10000;
    assert(x == 0x10000 * q + r);
    assert(x == 0xffff * q + (q + r)) by {
        assert(0x10000 * q == 0xffff * q + q);
    }
    lemma_mod_multiples_vanish(q, q + r, 0xffff);
    lemma_ones_fold_congruent(fold_step(x), x);
}

/// Replacing one non-negative summand by its folded value does not change the
/// folded total.
proof fn lemma_ones_fold_absorb(a: int, x: int, c: int)
    requires
        a >= 0,
        x >= 0,
        c >= 0,
    ensures
        ones_fold(a + ones_fold(x) + c) == ones_fold(a + x + c),
{
    lemma_ones_fold_mod(x);
    lemma_add_mod_noop_right(a + c, ones_fold(x), 0xffff);
    lemma_add_mod_noop_right(a + c, x, 0xffff);
    lemma_ones_fold_congruent(a + ones_fold(x) + c, a + x + c);
}

/// Computes the folded (not yet complemented) one's-complement sum of the
/// 16-bit big-endian words of `buffer`, a trailing odd byte padded as in
/// RFC 1071.
pub fn sum(buffer: &[u8]) -> (r: u16)
    ensures
        r == ones_fold(word_sum(buffer@)),
{
    let ghost total = word_sum(buffer@);
    proof {
        lemma_word_sum_nonneg(buffer@);
        assert(buffer@.skip(0) =~= buffer@);
    }
    let len = buffer.len();
    let mut acc: u32 = 0;
    let mut i: usize = 0;
    while len - i >= 2
        invariant
            i <= len,
            len == buffer@.len(),
            acc <= 0xffff,
            total == word_sum(buffer@),
            total >= 0,
            ones_fold(acc + word_sum(buffer@.skip(i as int))) == ones_fold(total),
        decreases len - i,
    {
        let hi = *slice_index_get(buffer, i);
        let lo = *slice_index_get(buffer, i + 1);
        let t: u32 = acc + (hi as u32) * 256 + (lo as u32);
        proof {
            lemma_word_sum_step(buffer@, i as int);
            lemma_word_sum_nonneg(buffer@.skip(i + 2));
            lemma_fold_step(t as int + word_sum(buffer@.skip(i + 2)));
            lemma_fold_step(t as int);
            // fold_step(t) + rest vs t + rest: same remainder and zeroness.
            lemma_fundamental_div_mod(t as int, 0x10000);
            assert(t as int == 0xffff * (t as int / 0x10000) + fold_step(t as int));
            lemma_mod_multiples_vanish(
                t as int / 0x10000,
                fold_step(t as int) + word_sum(buffer@.skip(i + 2)),
                0xffff,
            );
            lemma_ones_fold_congruent(
                fold_step(t as int) + word_sum(buffer@.skip(i + 2)),
                t as int + word_sum(buffer@.skip(i + 2)),
            );
        }
        acc = t / 0x10000 + t % 0x10000;
        i = i + 2;
    }
    if i < len {
        let last = *slice_index_get(buffer, i);
        let t: u32 = acc + (last as u32) * 256;
        proof {
            assert(buffer@.skip(i as int).len() == 1);
            assert(buffer@.skip(i as int)[0] == buffer@[i as int]);
            assert(word_sum(buffer@.skip(i as int)) == buffer@[i as int] * 256);
            lemma_fold_step(t as int);
        }
        acc = t / 0x10000 + t % 0x10000;
    } else {
        proof {
            assert(buffer@.skip(i as int).len() == 0);
            assert(word_sum(buffer@.skip(i as int)) == 0);
        }
    }
    proof {
        lemma_ones_fold_small(acc as int);
    }
    acc as u16
}

/// Unfolds `spans_word_sum` at index `j`.
proof fn lemma_spans_word_sum_step(s: Seq<Seq<u8>>, j: int)
    requires
        0 <= j < s.len(),
    ensures
        spans_word_sum(s.skip(j)) == word_sum(s[j]) + spans_word_sum(s.skip(j + 1)),
{
    assert(s.skip(j).skip(1) =~= s.skip(j + 1));
    assert(s.skip(j)[0] == s[j]);
}

/// Computes the Internet checksum (RFC 1071) of the given spans treated as
/// one logical stream, each span independently padded to 16-bit alignment.
pub fn checksum(spans: &[&[u8]]) -> (r: u16)
    ensures
        r == checksum_of(spans_views(spans@)),
{
    let ghost views = spans_views(spans@);
    let ghost total = spans_word_sum(views);
    proof {
        lemma_spans_word_sum_nonneg(views);
        assert(views.skip(0) =~= views);
    }
    let n = spans.len();
    let mut acc: u32 = 0;
    let mut j: usize = 0;
    while j < n
        invariant
            j <= n,
            n == spans@.len(),
            views == spans_views(spans@),
            total == spans_word_sum(views),
            total >= 0,
            acc <= 0xffff,
            ones_fold(acc + spans_word_sum(views.skip(j as int))) == ones_fold(total),
        decreases n - j,
    {
        let sp: &[u8] = *slice_index_get(spans, j);
        let w: u16 = sum(sp);
        let t: u32 = acc + (w as u32);
        proof {
            assert(views[j as int] == sp@);
            lemma_spans_word_sum_step(views, j as int);
            lemma_word_sum_nonneg(sp@);
            lemma_spans_word_sum_nonneg(views.skip(j + 1));
            lemma_ones_fold_mod(word_sum(sp@));
            // acc + ones_fold(ws) + rest folds like acc + ws + rest.
            lemma_ones_fold_absorb(
                acc as int,
                word_sum(sp@),
                spans_word_sum(views.skip(j + 1)),
            );
            lemma_fold_step(t as int);
            lemma_fundamental_div_mod(t as int, 0x10000);
            assert(t as int == 0xffff * (t as int / 0x10000) + fold_step(t as int));
            lemma_mod_multiples_vanish(
                t as int / 0x10000,
                fold_step(t as int) + spans_word_sum(views.skip(j + 1)),
                0xffff,
            );
            lemma_ones_fold_congruent(
                fold_step(t as int) + spans_word_sum(views.skip(j + 1)),
                t as int + spans_word_sum(views.skip(j + 1)),
            );
        }
        acc = t / 0x10000 + t % 0x10000;
        j = j + 1;
    }
    proof {
        assert(views.skip(j as int).len() == 0);
        assert(spans_word_sum(views.skip(j as int)) == 0);
        lemma_ones_fold_small(acc as int);
    }
    0xffff - (acc as u16)
}

} // verus!
