//! Shared walker for self-describing option lists (IPv4 options and TCP
//! options): a forward-only scan of one region of the header, yielding the
//! raw bytes of one entry at a time.

use vstd::prelude::*;
use vstd::slice::slice_index_get;

verus! {

/// The raw byte strings of the option entries of `b` between `pos` and
/// `end`. Kinds 0 and 1 are single-byte entries; any other kind carries a
/// length byte at its second position covering the whole entry. A malformed
/// entry (missing length byte, length under 2, or an entry running past
/// `end`) ends the sequence early instead of failing.
pub open spec fn option_chunks(b: Seq<u8>, pos: int, end: int) -> Seq<Seq<u8>>
    decreases end - pos,
{
    if pos < 0 || pos >= end || end > b.len() {
        Seq::empty()
    } else {
        let kind = b[pos];
        if kind == 0 || kind == 1 {
            seq![b.subrange(pos, pos + 1)] + option_chunks(b, pos + 1, end)
        } else if pos + 1 >= end {
            Seq::empty()
        } else {
            let olen = b[pos + 1] as int;
            if olen < 2 || pos + olen > end {
                Seq::empty()
            } else {
                seq![b.subrange(pos, pos + olen)] + option_chunks(b, pos + olen, end)
            }
        }
    }
}

/// Scans one option entry at `pos`. Returns the bounds of the entry and
/// leaves the cursor advance to the caller; `None` means the list has ended,
/// by exhaustion or on a malformed entry.
pub(crate) fn next_option_chunk(buffer: &[u8], pos: usize, end: usize) -> (r: Option<
    (usize, usize),
>)
    requires
        pos <= end,
        end <= buffer@.len(),
    ensures
        ({
            let chunks = option_chunks(buffer@, pos as int, end as int);
            match r {
                Some((s, e)) => {
                    &&& chunks.len() > 0
                    &&& s == pos
                    &&& pos < e <= end
                    &&& buffer@.subrange(s as int, e as int) == chunks[0]
                    &&& option_chunks(buffer@, e as int, end as int) == chunks.skip(1)
                },
                None => chunks.len() == 0,
            }
        }),
{
    if pos >= end {
        return None;
    }
    let kind = *slice_index_get(buffer, pos);
    if kind == 0 || kind == 1 {
        proof {
            let chunks = option_chunks(buffer@, pos as int, end as int);
            assert(chunks.skip(1) =~= option_chunks(buffer@, pos + 1, end as int));
        }
        Some((pos, pos + 1))
    } else if end - pos < 2 {
        None
    } else {
        let olen = *slice_index_get(buffer, pos + 1) as usize;
        if olen < 2 || olen > end - pos {
            None
        } else {
            proof {
                let chunks = option_chunks(buffer@, pos as int, end as int);
                assert(chunks.skip(1) =~= option_chunks(buffer@, pos + olen, end as int));
            }
            Some((pos, pos + olen))
        }
    }
}

} // verus!
