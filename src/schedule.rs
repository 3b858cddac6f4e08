//! Reading a block as sixteen big-endian words, and expanding them into the
//! eighty-word message schedule.
use vstd::prelude::*;
use crate::words::{rotl, circular_left_shift};

verus! {

/// The big-endian word formed by bytes `4i .. 4i + 4` of `b`.
pub open spec fn be_word(b: Seq<u8>, i: int) -> u32 {
    (b[4 * i] as u32) << 24u32 | (b[4 * i + 1] as u32) << 16u32 | (b[4 * i + 2] as u32) << 8u32
        | (b[4 * i + 3] as u32)
}

/// A 64-byte block read as sixteen big-endian words.
pub open spec fn words_of(b: Seq<u8>) -> Seq<u32> {
    Seq::new(16, |i: int| be_word(b, i))
}

/// Word `t` of the message schedule of the sixteen words `w`.
pub open spec fn schedule_word(w: Seq<u32>, t: int) -> u32
    decreases t,
{
    if t < 16 {
        w[t]
    } else {
        rotl(
            schedule_word(w, t - 3) ^ schedule_word(w, t - 8) ^ schedule_word(w, t - 14)
                ^ schedule_word(w, t - 16),
            1,
        )
    }
}

/// The eighty-word message schedule of the sixteen words `w`.
pub open spec fn schedule_of(w: Seq<u32>) -> Seq<u32> {
    Seq::new(80, |t: int| schedule_word(w, t))
}

/// The contents of a sequence of word blocks.
pub open spec fn word_blocks_view(v: Vec<Vec<u32>>) -> Seq<Seq<u32>> {
    v@.map_values(|b: Vec<u32>| b@)
}

/// Reads each 64-byte block as sixteen big-endian words.
pub fn u8_blocks_to_u32_blocks(u8_blocks: Vec<Vec<u8>>) -> (r: Vec<Vec<u32>>)
    requires
        forall|k: int| 0 <= k < u8_blocks@.len() ==> (#[trigger] u8_blocks@[k])@.len() == 64,
    ensures
        r@.len() == u8_blocks@.len(),
        forall|k: int| 0 <= k < r@.len() ==> (#[trigger] r@[k])@ == words_of(u8_blocks@[k]@),
{
    let mut blocks: Vec<Vec<u32>> = Vec::new();
    let mut k: usize = 0;
    while k < u8_blocks.len()
        invariant
            forall|j: int| 0 <= j < u8_blocks@.len() ==> (#[trigger] u8_blocks@[j])@.len() == 64,
            k <= u8_blocks@.len(),
            blocks@.len() == k,
            forall|j: int| 0 <= j < k ==> (#[trigger] blocks@[j])@ == words_of(u8_blocks@[j]@),
        decreases u8_blocks@.len() - k,
    {
        let u8_block = &u8_blocks[k];
        let mut block: Vec<u32> = Vec::new();
        let mut index: usize = 0;
        while index < 16
            invariant
                u8_block@.len() == 64,
                index <= 16,
                block@ == words_of(u8_block@).take(index as int),
            decreases 16 - index,
        {
            let word = (u8_block[index * 4] as u32) << 24u32 | (u8_block[index * 4 + 1] as u32)
                << 16u32 | (u8_block[index * 4 + 2] as u32) << 8u32 | (u8_block[index * 4
                + 3] as u32);
            block.push(word);
            index += 1;
            assert(block@ =~= words_of(u8_block@).take(index as int));
        }
        assert(block@ =~= words_of(u8_block@));
        blocks.push(block);
        k += 1;
    }
    blocks
}

/// Expands each block of sixteen words into its eighty-word schedule.
pub fn expand_u32_blocks(blocks: Vec<Vec<u32>>) -> (r: Vec<Vec<u32>>)
    requires
        forall|k: int| 0 <= k < blocks@.len() ==> (#[trigger] blocks@[k])@.len() == 16,
    ensures
        r@.len() == blocks@.len(),
        forall|k: int| 0 <= k < r@.len() ==> (#[trigger] r@[k])@ == schedule_of(blocks@[k]@),
{
    let mut expanded: Vec<Vec<u32>> = Vec::new();
    let mut k: usize = 0;
    while k < blocks.len()
        invariant
            forall|j: int| 0 <= j < blocks@.len() ==> (#[trigger] blocks@[j])@.len() == 16,
            k <= blocks@.len(),
            expanded@.len() == k,
            forall|j: int| 0 <= j < k ==> (#[trigger] expanded@[j])@ == schedule_of(blocks@[j]@),
        decreases blocks@.len() - k,
    {
        let block = &blocks[k];
        let ghost w = block@;
        let mut out: Vec<u32> = Vec::new();
        let mut i: usize = 0;
        while i < 16
            invariant
                w == block@,
                w.len() == 16,
                i <= 16,
                out@ == schedule_of(w).take(i as int),
            decreases 16 - i,
        {
            out.push(block[i]);
            i += 1;
            assert(out@ =~= schedule_of(w).take(i as int));
        }
        while i < 80
            invariant
                16 <= i <= 80,
                out@ == schedule_of(w).take(i as int),
            decreases 80 - i,
        {
            let mixed = out[i - 3] ^ out[i - 8] ^ out[i - 14] ^ out[i - 16];
            out.push(circular_left_shift(mixed, 1));
            i += 1;
            assert(out@ =~= schedule_of(w).take(i as int));
        }
        assert(out@ =~= schedule_of(w));
        expanded.push(out);
        k += 1;
    }
    expanded
}

} // verus!
