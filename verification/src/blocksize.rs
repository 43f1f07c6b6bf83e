//! Initial blocksize selection.
//!
//! The chunk granularity starts at `MIN_BLOCKSIZE` and doubles until 64
//! chunks of that size would cover the input, so the guess is always
//! `3 * 2^k` and grows monotonically with the input length.

use vstd::prelude::*;
use vstd::arithmetic::power2::pow2;

use crate::MIN_BLOCKSIZE;

verus! {

/// Blocksize reached by doubling `bs` while `bs * 64` is below `len`.
pub open spec fn guess_from(bs: int, len: int) -> int
    decreases len - bs,
    when bs >= 1
{
    if bs * 64 < len {
        guess_from(2 * bs, len)
    } else {
        bs
    }
}

/// Initial blocksize guessed for an input of `len` bytes.
pub open spec fn guess_spec(len: int) -> int {
    guess_from(MIN_BLOCKSIZE as int, len)
}

/// The guessed blocksize never falls below its starting point.
proof fn lemma_guess_from_lower(bs: int, len: int)
    requires
        bs >= 1,
    ensures
        guess_from(bs, len) >= bs,
    decreases len - bs,
{
    if bs * 64 < len {
        lemma_guess_from_lower(2 * bs, len);
    }
}

/// The guessed blocksize either stays at its starting point or remains
/// well below the input length.
proof fn lemma_guess_from_upper(bs: int, len: int)
    requires
        bs >= 1,
    ensures
        guess_from(bs, len) == bs || guess_from(bs, len) * 32 < len,
    decreases len - bs,
{
    if bs * 64 < len {
        lemma_guess_from_upper(2 * bs, len);
    }
}

/// The guess only grows when the input length grows.
proof fn lemma_guess_from_mono(bs: int, len1: int, len2: int)
    requires
        bs >= 1,
        len1 <= len2,
    ensures
        guess_from(bs, len1) <= guess_from(bs, len2),
    decreases len2 - bs,
{
    if bs * 64 < len1 {
        lemma_guess_from_mono(2 * bs, len1, len2);
    } else if bs * 64 < len2 {
        lemma_guess_from_lower(2 * bs, len2);
    }
}

/// Doubling from `3 * 2^k` only ever lands on values of the same shape.
proof fn lemma_guess_from_pow2(bs: int, len: int, k: nat)
    requires
        bs == 3 * pow2(k),
    ensures
        exists|j: nat| guess_from(bs, len) == 3 * pow2(j),
    decreases len - bs,
{
    vstd::arithmetic::power2::lemma_pow2_pos(k);
    if bs * 64 < len {
        assert(2 * bs == 3 * pow2(k + 1)) by {
            vstd::arithmetic::power2::lemma_pow2_unfold(k + 1);
        }
        lemma_guess_from_pow2(2 * bs, len, k + 1);
    } else {
        assert(guess_from(bs, len) == 3 * pow2(k));
    }
}

/// `guess_initial_blocksize` is monotonic nondecreasing in the input length.
pub proof fn lemma_guess_monotonic(len1: int, len2: int)
    requires
        len1 <= len2,
    ensures
        guess_spec(len1) <= guess_spec(len2),
{
    lemma_guess_from_mono(MIN_BLOCKSIZE as int, len1, len2);
}

/// The guessed blocksize is always `3 * 2^k` for some `k`.
pub proof fn lemma_guess_pow2(len: int)
    ensures
        exists|k: nat| guess_spec(len) == 3 * pow2(k),
{
    assert(MIN_BLOCKSIZE as int == 3 * pow2(0)) by {
        vstd::arithmetic::power2::lemma2_to64();
    }
    lemma_guess_from_pow2(MIN_BLOCKSIZE as int, len, 0);
}

/// The guessed blocksize stays small enough that doubling it fits in `u32`.
pub proof fn lemma_guess_in_range(len: int)
    requires
        len <= u32::MAX as int,
    ensures
        MIN_BLOCKSIZE as int <= guess_spec(len) <= 0x4000_0000,
{
    lemma_guess_from_lower(MIN_BLOCKSIZE as int, len);
    lemma_guess_from_upper(MIN_BLOCKSIZE as int, len);
}

/// Picks the initial chunk-size guess for an input of the given length:
/// starts at `MIN_BLOCKSIZE` and doubles while 64 chunks fall short of the
/// input length.
pub fn guess_initial_blocksize(input_length: u32) -> (bs: u32)
    ensures
        bs as int == guess_spec(input_length as int),
        MIN_BLOCKSIZE <= bs <= 0x4000_0000,
{
    proof {
        lemma_guess_in_range(input_length as int);
    }
    let mut blocksize: u32 = MIN_BLOCKSIZE;
    while (blocksize as u64) * 64 < (input_length as u64)
        invariant
            MIN_BLOCKSIZE <= blocksize,
            guess_from(blocksize as int, input_length as int) == guess_spec(
                input_length as int,
            ),
        decreases input_length as int - blocksize as int,
    {
        proof {
            lemma_guess_from_lower(2 * blocksize as int, input_length as int);
        }
        blocksize = blocksize * 2;
    }
    proof {
        lemma_guess_from_lower(blocksize as int, input_length as int);
    }
    blocksize
}

} // verus!
