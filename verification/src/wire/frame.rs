//! The segment table of a message that has one segment: a word that holds
//! the number of segments less one, which is zero, and the segment's length
//! in words.

use crate::wire::le::{from_le32, get_le32, le32, lemma_le32_read_back, put_le32};
use vstd::prelude::*;

verus! {

/// The longest segment that `write_frame` takes, in bytes.
pub const MAX_SEGMENT_BYTES: usize = 0x7fff_fff8;

/// A segment behind its table.
pub open spec fn framed(words: Seq<u8>) -> Seq<u8> {
    le32(0) + le32((words.len() / 8) as u32) + words
}

/// The segment of a framed message, or `None` where the table does not
/// announce one segment that fills the rest of the message.
pub open spec fn unframed(flat: Seq<u8>) -> Option<Seq<u8>> {
    if flat.len() >= 8 && from_le32(flat, 0) == 0 && from_le32(flat, 4) * 8 == flat.len() - 8 {
        Some(flat.skip(8))
    } else {
        None
    }
}

/// Taking the table off a framed segment gives the segment.
pub proof fn lemma_unframe_framed(words: Seq<u8>)
    requires
        words.len() % 8 == 0,
        words.len() <= MAX_SEGMENT_BYTES,
    ensures
        unframed(framed(words)) == Some(words),
        framed(words).len() == words.len() + 8,
{
    let flat = framed(words);
    let n = (words.len() / 8) as u32;
    lemma_le32_read_back(0);
    lemma_le32_read_back(n);
    assert(flat.skip(8) =~= words);
    assert(from_le32(flat, 0) == from_le32(le32(0), 0));
    assert(from_le32(flat, 4) == from_le32(le32(n), 0));
}

/// Puts the table in front of a segment.
pub fn write_frame(words: &[u8]) -> (flat: Vec<u8>)
    requires
        words.len() % 8 == 0,
        words.len() <= MAX_SEGMENT_BYTES,
    ensures
        flat@ == framed(words@),
{
    let mut flat: Vec<u8> = Vec::new();
    put_le32(&mut flat, 0);
    put_le32(&mut flat, (words.len() / 8) as u32);
    let mut i: usize = 0;
    while i < words.len()
        invariant
            i <= words.len(),
            flat@ == le32(0) + le32((words.len() / 8) as u32) + words@.subrange(0, i as int),
        decreases words.len() - i,
    {
        flat.push(words[i]);
        assert(flat@ =~= le32(0) + le32((words.len() / 8) as u32) + words@.subrange(0, i + 1));
        i = i + 1;
    }
    assert(words@.subrange(0, i as int) =~= words@);
    flat
}

/// Where the segment of a framed message starts, if the table is as
/// `unframed` wants it.
pub fn read_frame(flat: &[u8]) -> (start: Option<usize>)
    ensures
        match start {
            Some(at) => at == 8 && unframed(flat@) == Some(flat@.skip(8)),
            None => unframed(flat@) is None,
        },
{
    if flat.len() < 8 {
        return None;
    }
    let segments: u32 = get_le32(flat, 0);
    let words: u32 = get_le32(flat, 4);
    if segments == 0 && words as u64 * 8 == (flat.len() - 8) as u64 {
        Some(8)
    } else {
        None
    }
}

} // verus!
