//! Padding of a message into 64-byte blocks.
use vstd::prelude::*;

verus! {

/// Number of bytes in a block.
pub const BLOCK_BYTES: usize = 64;

/// Offset within the last block at which the length field starts.
pub const LENGTH_OFFSET: usize = 56;

/// Smallest message length, in bytes, whose bit length does not fit in 64 bits.
pub const MESSAGE_LEN_LIMIT: u64 = 0x2000_0000_0000_0000;

/// The single way in which hashing can fail.
#[derive(Debug, Clone, Copy, PartialEq, Eq, Structural)]
pub enum Sha1Error {
    /// The message's length in bits does not fit in the 64-bit length field.
    LengthOverflow,
}

/// Big-endian encoding of a 64-bit value as eight bytes.
pub open spec fn be_bytes_u64(v: u64) -> Seq<u8> {
    Seq::new(8, |i: int| (v >> ((56 - 8 * i) as u64)) as u8)
}

/// Number of zero bytes between the `0x80` marker and the length field.
pub open spec fn zero_fill_len(len: nat) -> nat {
    if len % 64 < 56 {
        (55 - len % 64) as nat
    } else {
        (119 - len % 64) as nat
    }
}

/// `n` zero bytes.
pub open spec fn zeros(n: nat) -> Seq<u8> {
    Seq::new(n, |i: int| 0u8)
}

/// The padded message: the message, the byte `0x80`, zero bytes up to
/// 56 modulo 64, and the message's bit length in big-endian order.
pub open spec fn padded(m: Seq<u8>) -> Seq<u8> {
    m + seq![0x80u8] + zeros(zero_fill_len(m.len())) + be_bytes_u64((m.len() * 8) as u64)
}

/// Number of blocks that padding appends after the full blocks of a message
/// of `len` bytes.
pub open spec fn trailer_blocks(len: nat) -> nat {
    if len % 64 < 56 {
        1
    } else {
        2
    }
}

/// Block `k` of a sequence of bytes whose length is a multiple of 64.
pub open spec fn block_of(p: Seq<u8>, k: int) -> Seq<u8> {
    p.subrange(64 * k, 64 * k + 64)
}

/// A sequence of bytes cut into 64-byte blocks.
pub open spec fn blocks_of(p: Seq<u8>) -> Seq<Seq<u8>> {
    Seq::new(p.len() / 64, |k: int| block_of(p, k))
}

/// The padded message is a whole number of blocks: one more than the
/// message's full blocks where its last partial block has room for the
/// length field, two more where it has not.
pub proof fn lemma_padded_len(m: Seq<u8>)
    ensures
        padded(m).len() == 64 * (m.len() / 64 + trailer_blocks(m.len())),
        padded(m).len() % 64 == 0,
{
    let len = m.len();
    assert(len == 64 * (len / 64) + len % 64);
}

/// Padding appends one block where the message's length modulo 64 is below
/// 56, and two blocks (the filled last block and a block for the length)
/// where it is 56 or more.
pub proof fn lemma_padding_block_count(m: Seq<u8>)
    ensures
        m.len() % 64 < 56 ==> blocks_of(padded(m)).len() == m.len() / 64 + 1,
        m.len() % 64 >= 56 ==> blocks_of(padded(m)).len() == m.len() / 64 + 2,
{
    lemma_padded_len(m);
}

/// Length of a message in bits, or `LengthOverflow` where that does not fit
/// in 64 bits.
pub fn bit_length(len: usize) -> (r: Result<u64, Sha1Error>)
    ensures
        len < MESSAGE_LEN_LIMIT <==> r is Ok,
        r is Ok ==> r->Ok_0 == len * 8,
        r is Err ==> r->Err_0 == Sha1Error::LengthOverflow,
{
    if len as u64 >= MESSAGE_LEN_LIMIT {
        Err(Sha1Error::LengthOverflow)
    } else {
        Ok(len as u64 * 8)
    }
}

/// The contents of a sequence of byte blocks.
pub open spec fn byte_blocks_view(v: Vec<Vec<u8>>) -> Seq<Seq<u8>> {
    v@.map_values(|b: Vec<u8>| b@)
}

/// Appends zero bytes to `block` until it holds `target` bytes.
fn push_zeros(block: &mut Vec<u8>, target: usize)
    requires
        old(block)@.len() <= target,
    ensures
        final(block)@ == old(block)@ + zeros((target - old(block)@.len()) as nat),
{
    let ghost start = block@;
    while block.len() < target
        invariant
            start.len() <= block@.len() <= target,
            block@ == start + zeros((block@.len() - start.len()) as nat),
        decreases target - block@.len(),
    {
        block.push(0);
        assert(block@ =~= start + zeros((block@.len() - start.len()) as nat));
    }
}

/// Appends the big-endian encoding of `v` to `block`.
fn push_length_field(block: &mut Vec<u8>, v: u64)
    ensures
        final(block)@ == old(block)@ + be_bytes_u64(v),
{
    let ghost start = block@;
    let mut i: u64 = 0;
    while i < 8
        invariant
            i <= 8,
            block@ == start + be_bytes_u64(v).take(i as int),
        decreases 8 - i,
    {
        block.push((v >> (56 - 8 * i)) as u8);
        assert(block@ =~= start + be_bytes_u64(v).take(i + 1));
        i += 1;
    }
    assert(be_bytes_u64(v).take(8) =~= be_bytes_u64(v));
}

/// Pads `bytes` and cuts the padded message into 64-byte blocks, in order.
pub fn format_bytes_to_u8_blocks(bytes: &[u8]) -> (r: Result<Vec<Vec<u8>>, Sha1Error>)
    ensures
        bytes@.len() < MESSAGE_LEN_LIMIT <==> r is Ok,
        r is Ok ==> byte_blocks_view(r->Ok_0) == blocks_of(padded(bytes@)),
        r is Ok ==> r->Ok_0@.len() == bytes@.len() / 64 + trailer_blocks(bytes@.len()),
        r is Err ==> r->Err_0 == Sha1Error::LengthOverflow,
{
    let bit_len = match bit_length(bytes.len()) {
        Ok(b) => b,
        Err(e) => {
            return Err(e);
        },
    };
    let len = bytes.len();
    let full = len / BLOCK_BYTES;
    let ghost p = padded(bytes@);
    proof {
        lemma_padded_len(bytes@);
    }
    // The message's full blocks, copied as they are.
    let mut blocks: Vec<Vec<u8>> = Vec::new();
    let mut k: usize = 0;
    while k < full
        invariant
            full == len / 64,
            len == bytes@.len(),
            p == padded(bytes@),
            k <= full,
            blocks@.len() == k,
            forall|j: int| 0 <= j < k ==> #[trigger] blocks@[j]@ == block_of(p, j),
        decreases full - k,
    {
        assert(64 * k + 64 <= len) by (nonlinear_arith)
            requires
                k < full,
                full == len / 64,
        ;
        let start = k * BLOCK_BYTES;
        let mut block: Vec<u8> = Vec::new();
        let mut i: usize = 0;
        while i < BLOCK_BYTES
            invariant
                start == 64 * k,
                start + 64 <= len,
                len == bytes@.len(),
                i <= 64,
                block@ == bytes@.subrange(start as int, start + i),
            decreases 64 - i,
        {
            block.push(bytes[start + i]);
            i += 1;
            assert(block@ =~= bytes@.subrange(start as int, start + i));
        }
        assert(block@ =~= block_of(p, k as int));
        blocks.push(block);
        k += 1;
    }
    // The remaining bytes, then the marker byte.
    let rest_start = full * BLOCK_BYTES;
    let ghost rest = bytes@.subrange(rest_start as int, len as int);
    let mut tail: Vec<u8> = Vec::new();
    let mut i: usize = rest_start;
    while i < len
        invariant
            rest_start <= i <= len,
            len == bytes@.len(),
            tail@ == bytes@.subrange(rest_start as int, i as int),
        decreases len - i,
    {
        tail.push(bytes[i]);
        i += 1;
        assert(tail@ =~= bytes@.subrange(rest_start as int, i as int));
    }
    tail.push(0x80);
    let rest_len = len - rest_start;
    assert(rest_len == len % 64);
    assert(bit_len == (len * 8) as u64);
    if rest_len >= LENGTH_OFFSET {
        // No room for the length field: fill this block, and put the length
        // in one more block.
        push_zeros(&mut tail, BLOCK_BYTES);
        let mut last: Vec<u8> = Vec::new();
        push_zeros(&mut last, LENGTH_OFFSET);
        push_length_field(&mut last, bit_len);
        assert(tail@ =~= block_of(p, full as int));
        assert(last@ =~= block_of(p, full + 1));
        blocks.push(tail);
        blocks.push(last);
    } else {
        push_zeros(&mut tail, LENGTH_OFFSET);
        push_length_field(&mut tail, bit_len);
        assert(tail@ =~= block_of(p, full as int));
        blocks.push(tail);
    }
    assert(byte_blocks_view(blocks) =~= blocks_of(p));
    Ok(blocks)
}

} // verus!
