//! The state of the hash, the eighty-round compression function, and its
//! accumulation over a sequence of blocks.
use vstd::prelude::*;
use crate::schedule::word_blocks_view;
use crate::words::{add32, rotl, circular_left_shift, wrapping_add32};

verus! {

/// The five state words of the hash.
#[derive(Debug, Clone, Copy, PartialEq, Eq, Structural)]
pub struct State {
    pub a: u32,
    pub b: u32,
    pub c: u32,
    pub d: u32,
    pub e: u32,
}

/// Round constant of rounds 0 to 19.
pub const K0: u32 = 0x5A827999;

/// Round constant of rounds 20 to 39.
pub const K1: u32 = 0x6ED9EBA1;

/// Round constant of rounds 40 to 59.
pub const K2: u32 = 0x8F1BBCDC;

/// Round constant of rounds 60 to 79.
pub const K3: u32 = 0xCA62C1D6;

/// The state before the first block.
pub open spec fn initial_state() -> State {
    State { a: 0x67452301, b: 0xEFCDAB89, c: 0x98BADCFE, d: 0x10325476, e: 0xC3D2E1F0 }
}

/// Returns the state before the first block.
pub fn initial() -> (r: State)
    ensures
        r == initial_state(),
{
    State { a: 0x67452301, b: 0xEFCDAB89, c: 0x98BADCFE, d: 0x10325476, e: 0xC3D2E1F0 }
}

/// The logical function of round `t`.
pub open spec fn round_fn(t: int, b: u32, c: u32, d: u32) -> u32 {
    if t < 20 {
        (b & c) | (!b & d)
    } else if t < 40 {
        b ^ c ^ d
    } else if t < 60 {
        (b & c) | (b & d) | (c & d)
    } else {
        b ^ c ^ d
    }
}

/// The additive constant of round `t`.
pub open spec fn round_constant(t: int) -> u32 {
    if t < 20 {
        K0
    } else if t < 40 {
        K1
    } else if t < 60 {
        K2
    } else {
        K3
    }
}

/// The working registers after round `t`, given those before it and the
/// schedule word `w` of that round.
pub open spec fn round(s: State, t: int, w: u32) -> State {
    let temp = add32(
        add32(add32(add32(rotl(s.a, 5), round_fn(t, s.b, s.c, s.d)), s.e), w),
        round_constant(t),
    );
    State { a: temp, b: s.a, c: rotl(s.b, 30), d: s.c, e: s.d }
}

/// The working registers after the first `n` rounds over the schedule `w`.
pub open spec fn rounds(s: State, w: Seq<u32>, n: nat) -> State
    decreases n,
{
    if n == 0 {
        s
    } else {
        round(rounds(s, w, (n - 1) as nat), n - 1, w[n - 1])
    }
}

/// The output of the compression function: all eighty rounds.
pub open spec fn compress(s: State, w: Seq<u32>) -> State {
    rounds(s, w, 80)
}

/// Component-wise addition modulo 2^32.
pub open spec fn add_states(x: State, y: State) -> State {
    State {
        a: add32(x.a, y.a),
        b: add32(x.b, y.b),
        c: add32(x.c, y.c),
        d: add32(x.d, y.d),
        e: add32(x.e, y.e),
    }
}

/// The state after folding in one block with schedule `w`.
pub open spec fn absorb(s: State, w: Seq<u32>) -> State {
    add_states(s, compress(s, w))
}

/// The state after folding in the first `n` of the schedules `ws`, from `s`.
pub open spec fn absorb_all(s: State, ws: Seq<Seq<u32>>, n: nat) -> State
    decreases n,
{
    if n == 0 {
        s
    } else {
        absorb(absorb_all(s, ws, (n - 1) as nat), ws[n - 1])
    }
}

/// One round of the compression function, on registers `s` with schedule
/// word `w`, in the quarter whose function value is `f` and constant is `k`.
fn step(s: State, f: u32, w: u32, k: u32) -> (r: State)
    ensures
        r == (State {
            a: add32(add32(add32(add32(rotl(s.a, 5), f), s.e), w), k),
            b: s.a,
            c: rotl(s.b, 30),
            d: s.c,
            e: s.d,
        }),
{
    let temp = wrapping_add32(
        wrapping_add32(wrapping_add32(wrapping_add32(circular_left_shift(s.a, 5), f), s.e), w),
        k,
    );
    State { a: temp, b: s.a, c: circular_left_shift(s.b, 30), d: s.c, e: s.d }
}

/// Runs the eighty rounds of the compression function over the schedule
/// `block`, from the registers `state`.
pub fn transform_block(block: Vec<u32>, state: State) -> (r: State)
    requires
        block@.len() == 80,
    ensures
        r == compress(state, block@),
{
    let mut s = state;
    let mut i: usize = 0;
    while i < 20
        invariant
            block@.len() == 80,
            i <= 20,
            s == rounds(state, block@, i as nat),
        decreases 20 - i,
    {
        s = step(s, (s.b & s.c) | (!s.b & s.d), block[i], K0);
        i += 1;
    }
    while i < 40
        invariant
            block@.len() == 80,
            20 <= i <= 40,
            s == rounds(state, block@, i as nat),
        decreases 40 - i,
    {
        s = step(s, s.b ^ s.c ^ s.d, block[i], K1);
        i += 1;
    }
    while i < 60
        invariant
            block@.len() == 80,
            40 <= i <= 60,
            s == rounds(state, block@, i as nat),
        decreases 60 - i,
    {
        s = step(s, (s.b & s.c) | (s.b & s.d) | (s.c & s.d), block[i], K2);
        i += 1;
    }
    while i < 80
        invariant
            block@.len() == 80,
            60 <= i <= 80,
            s == rounds(state, block@, i as nat),
        decreases 80 - i,
    {
        s = step(s, s.b ^ s.c ^ s.d, block[i], K3);
        i += 1;
    }
    s
}

/// Adds two states component-wise, modulo 2^32.
pub fn add_state(a: State, b: State) -> (r: State)
    ensures
        r == add_states(a, b),
{
    State {
        a: wrapping_add32(a.a, b.a),
        b: wrapping_add32(a.b, b.b),
        c: wrapping_add32(a.c, b.c),
        d: wrapping_add32(a.d, b.d),
        e: wrapping_add32(a.e, b.e),
    }
}

/// Folds each schedule of `blocks` into the state, in order, from the
/// initial state.
pub fn transform_blocks(blocks: Vec<Vec<u32>>) -> (r: State)
    requires
        forall|k: int| 0 <= k < blocks@.len() ==> (#[trigger] blocks@[k])@.len() == 80,
    ensures
        r == absorb_all(initial_state(), word_blocks_view(blocks), blocks@.len()),
{
    let ghost ws = word_blocks_view(blocks);
    let mut state = initial();
    let mut k: usize = 0;
    while k < blocks.len()
        invariant
            forall|j: int| 0 <= j < blocks@.len() ==> (#[trigger] blocks@[j])@.len() == 80,
            ws == word_blocks_view(blocks),
            k <= blocks@.len(),
            state == absorb_all(initial_state(), ws, k as nat),
        decreases blocks@.len() - k,
    {
        let result = transform_block(blocks[k].clone(), state);
        state = add_state(state, result);
        k += 1;
    }
    state
}

} // verus!
