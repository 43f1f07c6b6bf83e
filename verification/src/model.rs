//! Mathematical model of one hashing pass.
//!
//! A pass walks the input once.  Per byte it updates a three-part rolling
//! checksum over the last `ROLLING_WINDOW` bytes and two FNV-style hash
//! accumulators; whenever the rolling value triggers for a resolution, the
//! corresponding accumulator emits one base64 symbol.  The model is a state
//! machine: `init_state`, one `step` per byte, and a final flush.

use vstd::prelude::*;
use vstd::wrapping::u32_specs;

use crate::HASH_INIT;
use crate::HASH_PRIME;
use crate::LEFT_HASH_LENGTH;
use crate::MIN_BLOCKSIZE;
use crate::RIGHT_HASH_LENGTH;
use crate::ROLLING_WINDOW;

verus! {

/// Byte of the 64-symbol output alphabet (`A-Z a-z 0-9 + /`) at index `i`.
pub open spec fn b64_byte(i: int) -> u8 {
    if 0 <= i < 26 {
        (65 + i) as u8  // 'A'..='Z'
    } else if 26 <= i < 52 {
        (71 + i) as u8  // 'a'..='z'
    } else if 52 <= i < 62 {
        (i - 4) as u8  // '0'..='9'
    } else if i == 62 {
        43  // '+'
    } else {
        47  // '/'
    }
}

/// Whether `b` is one of the 64 output alphabet bytes.
pub open spec fn is_b64_byte(b: u8) -> bool {
    ||| 65 <= b <= 90
    ||| 97 <= b <= 122
    ||| 48 <= b <= 57
    ||| b == 43
    ||| b == 47
}

/// Every alphabet index maps to an alphabet byte, and all of them are ASCII.
pub proof fn lemma_b64_byte_in_alphabet(i: int)
    requires
        0 <= i < 64,
    ensures
        is_b64_byte(b64_byte(i)),
        b64_byte(i) < 128,
{
}

/// Coarse blocksize paired with a fine blocksize: always its double.
pub open spec fn right_blocksize(bs: u32) -> u32 {
    (2 * bs) as u32
}

/// 32-bit wrapping sum of the three rolling checksum parts.
pub open spec fn rolling_sum(h1: u32, h2: u32, h3: u32) -> u32 {
    u32_specs::wrapping_add(u32_specs::wrapping_add(h1, h2), h3)
}

/// Whether the rolling value marks a chunk boundary for blocksize `bs`.
pub open spec fn trigger_fires(rolling: u32, bs: u32) -> bool {
    u32_specs::wrapping_add(rolling, 1) as int % bs as int == 0
}

/// State of one hashing pass after some prefix of the input.
pub ghost struct RollState {
    /// Byte sum over the window (`h1`).
    pub h1: u32,
    /// Weighted byte sum over the window (`h2`).
    pub h2: u32,
    /// Shift-xor checksum (`h3`).
    pub h3: u32,
    /// The last `ROLLING_WINDOW` bytes, as a circular buffer.
    pub window: Seq<u8>,
    /// Number of bytes consumed so far.
    pub pos: nat,
    /// Fine-resolution hash accumulator.
    pub left_val: u32,
    /// Coarse-resolution hash accumulator.
    pub right_val: u32,
    /// Fine-resolution output symbols emitted so far.
    pub left_out: Seq<u8>,
    /// Coarse-resolution output symbols emitted so far.
    pub right_out: Seq<u8>,
}

/// State before any byte has been consumed.
pub open spec fn init_state() -> RollState {
    RollState {
        h1: 0,
        h2: 0,
        h3: 0,
        window: Seq::new(ROLLING_WINDOW as nat, |i: int| 0u8),
        pos: 0,
        left_val: HASH_INIT,
        right_val: HASH_INIT,
        left_out: Seq::empty(),
        right_out: Seq::empty(),
    }
}

/// One symbol emission: append the symbol picked by the accumulator value,
/// sliding the buffer once it is full, and reseed the accumulator unless the
/// buffer is within one symbol of its cap (an asymmetry of the reference
/// algorithm, kept bit-exact).
pub open spec fn emit(out: Seq<u8>, val: u32, cap: int) -> (Seq<u8>, u32) {
    let sym = b64_byte(val as int % 64);
    if out.len() == cap {
        (out.drop_last().push(sym), val)
    } else if out.len() < cap - 1 {
        (out.push(sym), HASH_INIT)
    } else {
        (out.push(sym), val)
    }
}

/// Effect of consuming one byte `c` at fine blocksize `bs`.
pub open spec fn step(s: RollState, c: u8, bs: u32) -> RollState {
    let cu = c as u32;
    let slot = (s.pos % (ROLLING_WINDOW as nat)) as int;
    let h2 = u32_specs::wrapping_add(
        u32_specs::wrapping_sub(s.h2, s.h1),
        (ROLLING_WINDOW * cu) as u32,
    );
    let h1 = u32_specs::wrapping_add(
        u32_specs::wrapping_sub(s.h1, s.window[slot] as u32),
        cu,
    );
    let h3 = (s.h3 << 5u32) ^ cu;
    let left_val = u32_specs::wrapping_mul(s.left_val, HASH_PRIME) ^ cu;
    let right_val = u32_specs::wrapping_mul(s.right_val, HASH_PRIME) ^ cu;
    let rolling = rolling_sum(h1, h2, h3);
    let left = if trigger_fires(rolling, bs) {
        emit(s.left_out, left_val, LEFT_HASH_LENGTH as int)
    } else {
        (s.left_out, left_val)
    };
    let right = if trigger_fires(rolling, right_blocksize(bs)) {
        emit(s.right_out, right_val, RIGHT_HASH_LENGTH as int)
    } else {
        (s.right_out, right_val)
    };
    RollState {
        h1: h1,
        h2: h2,
        h3: h3,
        window: s.window.update(slot, c),
        pos: s.pos + 1,
        left_val: left.1,
        right_val: right.1,
        left_out: left.0,
        right_out: right.0,
    }
}

/// State after consuming all of `input` at fine blocksize `bs`.
pub open spec fn pass_state(input: Seq<u8>, bs: u32) -> RollState
    decreases input.len(),
{
    if input.len() == 0 {
        init_state()
    } else {
        step(pass_state(input.drop_last(), bs), input.last(), bs)
    }
}

/// Rolling checksum value of a state.
pub open spec fn rolling_of(s: RollState) -> u32 {
    rolling_sum(s.h1, s.h2, s.h3)
}

/// Fine-resolution hash of `input` at blocksize `bs`: the pass output, with
/// one forced emission at end of stream when the final rolling value is
/// nonzero, so the input tail is always represented.
pub open spec fn pass_left(input: Seq<u8>, bs: u32) -> Seq<u8> {
    let s = pass_state(input, bs);
    if rolling_of(s) != 0 {
        emit(s.left_out, s.left_val, LEFT_HASH_LENGTH as int).0
    } else {
        s.left_out
    }
}

/// Coarse-resolution hash of `input` at fine blocksize `bs`.
pub open spec fn pass_right(input: Seq<u8>, bs: u32) -> Seq<u8> {
    let s = pass_state(input, bs);
    if rolling_of(s) != 0 {
        emit(s.right_out, s.right_val, RIGHT_HASH_LENGTH as int).0
    } else {
        s.right_out
    }
}

/// Structural invariant of a pass state.
pub open spec fn state_wf(s: RollState) -> bool {
    &&& s.window.len() == ROLLING_WINDOW as nat
    &&& s.left_out.len() <= LEFT_HASH_LENGTH
    &&& s.right_out.len() <= RIGHT_HASH_LENGTH
    &&& forall|i: int| 0 <= i < s.left_out.len() ==> is_b64_byte(#[trigger] s.left_out[i])
    &&& forall|i: int| 0 <= i < s.right_out.len() ==> is_b64_byte(#[trigger] s.right_out[i])
}

/// Emission keeps an output within its cap and inside the alphabet.
pub proof fn lemma_emit_wf(out: Seq<u8>, val: u32, cap: int)
    requires
        cap >= 1,
        out.len() <= cap,
        forall|i: int| 0 <= i < out.len() ==> is_b64_byte(#[trigger] out[i]),
    ensures
        emit(out, val, cap).0.len() <= cap,
        emit(out, val, cap).0.len() >= 1,
        forall|i: int| 0 <= i < emit(out, val, cap).0.len() ==> is_b64_byte(
            #[trigger] emit(out, val, cap).0[i],
        ),
{
    lemma_b64_byte_in_alphabet(val as int % 64);
}

/// Every reachable pass state is well formed.
pub proof fn lemma_pass_state_wf(input: Seq<u8>, bs: u32)
    ensures
        state_wf(pass_state(input, bs)),
    decreases input.len(),
{
    if input.len() > 0 {
        lemma_pass_state_wf(input.drop_last(), bs);
        let s = pass_state(input.drop_last(), bs);
        let rolling = rolling_of(step(s, input.last(), bs));
        lemma_emit_wf(
            s.left_out,
            u32_specs::wrapping_mul(s.left_val, HASH_PRIME) ^ input.last() as u32,
            LEFT_HASH_LENGTH as int,
        );
        lemma_emit_wf(
            s.right_out,
            u32_specs::wrapping_mul(s.right_val, HASH_PRIME) ^ input.last() as u32,
            RIGHT_HASH_LENGTH as int,
        );
    }
}

/// The finished hashes stay within their caps and inside the alphabet.
pub proof fn lemma_pass_outputs_wf(input: Seq<u8>, bs: u32)
    ensures
        pass_left(input, bs).len() <= LEFT_HASH_LENGTH,
        pass_right(input, bs).len() <= RIGHT_HASH_LENGTH,
        forall|i: int| 0 <= i < pass_left(input, bs).len() ==> is_b64_byte(
            #[trigger] pass_left(input, bs)[i],
        ),
        forall|i: int| 0 <= i < pass_right(input, bs).len() ==> is_b64_byte(
            #[trigger] pass_right(input, bs)[i],
        ),
{
    lemma_pass_state_wf(input, bs);
    let s = pass_state(input, bs);
    lemma_emit_wf(s.left_out, s.left_val, LEFT_HASH_LENGTH as int);
    lemma_emit_wf(s.right_out, s.right_val, RIGHT_HASH_LENGTH as int);
}

/// Blocksize reached by the adaptive retry: halve while the blocksize is
/// above the minimum and the fine hash stays shorter than the target length.
pub open spec fn adjusted_blocksize(input: Seq<u8>, bs: u32) -> u32
    decreases bs,
{
    if bs > MIN_BLOCKSIZE && pass_left(input, bs).len() < RIGHT_HASH_LENGTH {
        adjusted_blocksize(input, (bs as int / 2) as u32)
    } else {
        bs
    }
}

} // verus!
