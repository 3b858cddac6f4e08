//! SHA-1 message digest of a byte sequence, rendered as forty uppercase
//! hexadecimal digits, with every stage of the computation verified.
use vstd::prelude::*;

pub mod compress;
pub mod hex;
pub mod padding;
pub mod schedule;
pub mod words;

pub use compress::{add_state, transform_block, transform_blocks, State};
pub use hex::format_state;
pub use padding::{bit_length, format_bytes_to_u8_blocks, Sha1Error, MESSAGE_LEN_LIMIT};
pub use schedule::{expand_u32_blocks, u8_blocks_to_u32_blocks};
pub use words::circular_left_shift;

use crate::compress::{absorb_all, initial_state};
use crate::hex::{is_upper_hex, lemma_state_hex_shape, state_hex};
use crate::padding::{blocks_of, byte_blocks_view, lemma_padded_len, padded};
use crate::schedule::{schedule_of, word_blocks_view, words_of};

verus! {

/// The message schedules of the blocks of the padded message `m`, in order.
pub open spec fn message_schedules(m: Seq<u8>) -> Seq<Seq<u32>> {
    blocks_of(padded(m)).map_values(|b: Seq<u8>| schedule_of(words_of(b)))
}

/// The state after every block of the padded message `m`: its digest.
pub open spec fn digest_state(m: Seq<u8>) -> State {
    absorb_all(initial_state(), message_schedules(m), message_schedules(m).len())
}

/// The digest of `m` as forty uppercase hexadecimal digits.
pub open spec fn digest_hex(m: Seq<u8>) -> Seq<char> {
    state_hex(digest_state(m))
}

/// Every digest is forty characters long, each an uppercase hexadecimal digit.
pub proof fn lemma_digest_shape(m: Seq<u8>)
    ensures
        digest_hex(m).len() == 40,
        forall|i: int| 0 <= i < 40 ==> is_upper_hex(#[trigger] digest_hex(m)[i]),
{
    lemma_state_hex_shape(digest_state(m));
}

/// Hashing is deterministic: equal messages have the same digest.
pub proof fn lemma_digest_deterministic(x: Seq<u8>, y: Seq<u8>)
    requires
        x == y,
    ensures
        digest_hex(x) == digest_hex(y),
{
}

/// Computes the SHA-1 digest of `bytes` as forty uppercase hexadecimal
/// digits, or `LengthOverflow` where the message's bit length does not fit
/// in 64 bits.
pub fn sha1(bytes: &[u8]) -> (r: Result<String, Sha1Error>)
    ensures
        bytes@.len() < MESSAGE_LEN_LIMIT <==> r is Ok,
        r is Ok ==> r->Ok_0@ == digest_hex(bytes@),
        r is Ok ==> r->Ok_0@.len() == 40,
        r is Ok ==> forall|i: int| 0 <= i < 40 ==> is_upper_hex(#[trigger] r->Ok_0@[i]),
        r is Err ==> r->Err_0 == Sha1Error::LengthOverflow,
{
    let u8_blocks = match format_bytes_to_u8_blocks(bytes) {
        Ok(b) => b,
        Err(e) => {
            return Err(e);
        },
    };
    let ghost p = padded(bytes@);
    let ghost v8 = byte_blocks_view(u8_blocks);
    proof {
        lemma_padded_len(bytes@);
        assert(v8.len() == u8_blocks@.len());
        assert(blocks_of(p).len() == p.len() / 64);
        assert forall|k: int| 0 <= k < u8_blocks@.len() implies (#[trigger] u8_blocks@[k])@.len()
            == 64 by {
            assert(v8[k] == u8_blocks@[k]@);
            assert(64 * k + 64 <= p.len()) by (nonlinear_arith)
                requires
                    0 <= k < p.len() / 64,
            ;
        }
    }
    let u32_blocks = u8_blocks_to_u32_blocks(u8_blocks);
    let expanded = expand_u32_blocks(u32_blocks);
    let state = transform_blocks(expanded);
    proof {
        assert(word_blocks_view(expanded) =~= message_schedules(bytes@));
        lemma_state_hex_shape(state);
    }
    Ok(format_state(state))
}

} // verus!
