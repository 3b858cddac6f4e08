//! Rendering of the state as forty uppercase hexadecimal digits.
use vstd::prelude::*;
use crate::compress::State;

verus! {

/// The uppercase hexadecimal digits, by value.
pub open spec fn hex_digits() -> Seq<char> {
    seq!['0', '1', '2', '3', '4', '5', '6', '7', '8', '9', 'A', 'B', 'C', 'D', 'E', 'F']
}

/// Whether `c` is a digit of uppercase hexadecimal.
pub open spec fn is_upper_hex(c: char) -> bool {
    ('0' <= c && c <= '9') || ('A' <= c && c <= 'F')
}

/// Digit `i` (the most significant first) of `w` in hexadecimal.
pub open spec fn nibble(w: u32, i: int) -> u32 {
    (w >> ((28 - 4 * i) as u32)) & 0xf
}

/// `w` as eight uppercase hexadecimal digits, zero-padded.
pub open spec fn word_hex(w: u32) -> Seq<char> {
    Seq::new(8, |i: int| hex_digits()[nibble(w, i) as int])
}

/// The five state words, each as eight digits, in order.
pub open spec fn state_hex(s: State) -> Seq<char> {
    word_hex(s.a) + word_hex(s.b) + word_hex(s.c) + word_hex(s.d) + word_hex(s.e)
}

/// Every rendering of a state has forty characters, each an uppercase
/// hexadecimal digit.
pub proof fn lemma_state_hex_shape(s: State)
    ensures
        state_hex(s).len() == 40,
        forall|i: int| 0 <= i < 40 ==> is_upper_hex(#[trigger] state_hex(s)[i]),
{
    assert forall|w: u32, i: int| 0 <= i < 8 implies is_upper_hex(#[trigger] word_hex(w)[i]) by {
        let sh = (28 - 4 * i) as u32;
        let n = nibble(w, i);
        assert(n < 16) by (bit_vector)
            requires
                n == (w >> sh) & 0xf,
        ;
    }
    assert forall|i: int| 0 <= i < 40 implies is_upper_hex(#[trigger] state_hex(s)[i]) by {
        if i < 8 {
            assert(state_hex(s)[i] == word_hex(s.a)[i]);
        } else if i < 16 {
            assert(state_hex(s)[i] == word_hex(s.b)[i - 8]);
        } else if i < 24 {
            assert(state_hex(s)[i] == word_hex(s.c)[i - 16]);
        } else if i < 32 {
            assert(state_hex(s)[i] == word_hex(s.d)[i - 24]);
        } else {
            assert(state_hex(s)[i] == word_hex(s.e)[i - 32]);
        }
    }
}

/// The one-character string of the hexadecimal digit `n`.
fn hex_digit(n: u32) -> (r: &'static str)
    requires
        n < 16,
    ensures
        r@ == seq![hex_digits()[n as int]],
{
    let digits = "0123456789ABCDEF";
    proof {
        reveal_strlit("0123456789ABCDEF");
        assert(digits@ =~= hex_digits());
    }
    let r = digits.substring_ascii(n as usize, n as usize + 1);
    assert(r@ =~= seq![hex_digits()[n as int]]);
    r
}

/// Appends the eight digits of `w` to `out`.
fn push_word_hex(out: &mut String, w: u32)
    ensures
        final(out)@ == old(out)@ + word_hex(w),
{
    let ghost start = out@;
    let mut i: u32 = 0;
    while i < 8
        invariant
            i <= 8,
            out@ == start + word_hex(w).take(i as int),
        decreases 8 - i,
    {
        let shift: u32 = 28 - 4 * i;
        let n = (w >> shift) & 0xf;
        assert(n < 16) by (bit_vector)
            requires
                n == (w >> shift) & 0xf,
        ;
        out.append(hex_digit(n));
        assert(out@ =~= start + word_hex(w).take(i + 1));
        i += 1;
    }
    assert(word_hex(w).take(8) =~= word_hex(w));
}

/// Renders the state as forty uppercase hexadecimal digits.
pub fn format_state(s: State) -> (r: String)
    ensures
        r@ == state_hex(s),
{
    let mut out = String::new();
    push_word_hex(&mut out, s.a);
    push_word_hex(&mut out, s.b);
    push_word_hex(&mut out, s.c);
    push_word_hex(&mut out, s.d);
    push_word_hex(&mut out, s.e);
    assert(out@ =~= state_hex(s));
    out
}

} // verus!
