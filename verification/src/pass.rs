//! The executable hashing pass.
//!
//! One strictly sequential walk over the input, maintaining exactly the
//! state of `model::pass_state` and emitting into two output buffers.

use vstd::prelude::*;

use crate::HASH_INIT;
use crate::HASH_PRIME;
use crate::LEFT_HASH_LENGTH;
use crate::RIGHT_HASH_LENGTH;
use crate::ROLLING_WINDOW;
use crate::model::b64_byte;
use crate::model::emit;
use crate::model::init_state;
use crate::model::pass_left;
use crate::model::pass_right;
use crate::model::pass_state;
use crate::model::right_blocksize;
use crate::model::rolling_of;
use crate::model::step;

verus! {

/// Symbol of the output alphabet at index `idx`.
fn base64_symbol(idx: u32) -> (b: u8)
    requires
        idx < 64,
    ensures
        b == b64_byte(idx as int),
{
    if idx < 26 {
        (65 + idx) as u8
    } else if idx < 52 {
        (71 + idx) as u8
    } else if idx < 62 {
        (idx - 4) as u8
    } else if idx == 62 {
        43
    } else {
        47
    }
}

/// Appends to `hash_output` the symbol picked by `hash_value`: when the
/// output already holds `hash_length` symbols the last one is replaced, and
/// the accumulator is reseeded unless the output is within one symbol of
/// `hash_length`.
pub fn update_hash_output(hash_value: &mut u32, hash_output: &mut Vec<u8>, hash_length: u32)
    requires
        hash_length >= 1,
    ensures
        final(hash_output)@ == emit(
            old(hash_output)@,
            *old(hash_value),
            hash_length as int,
        ).0,
        *final(hash_value) == emit(
            old(hash_output)@,
            *old(hash_value),
            hash_length as int,
        ).1,
{
    let idx: u32 = *hash_value % 64;
    let sym = base64_symbol(idx);
    if hash_output.len() == hash_length as usize {
        hash_output.pop();
    } else if hash_output.len() < (hash_length - 1) as usize {
        *hash_value = HASH_INIT;
    }
    hash_output.push(sym);
    proof {
        assert(old(hash_output)@.len() > 0 ==> old(hash_output)@.subrange(
            0,
            old(hash_output)@.len() - 1,
        ) =~= old(hash_output)@.drop_last());
    }
}

/// One full hashing pass over `input` at fine blocksize `blocksize`,
/// returning the fine and coarse hash symbols.
pub fn run_pass(input: &Vec<u8>, blocksize: u32) -> (r: (Vec<u8>, Vec<u8>))
    requires
        1 <= blocksize <= 0x7FFF_FFFF,
    ensures
        r.0@ == pass_left(input@, blocksize),
        r.1@ == pass_right(input@, blocksize),
{
    let right_bs: u32 = blocksize * 2;
    let n = input.len();
    let mut window: Vec<u8> = vec![0u8, 0u8, 0u8, 0u8, 0u8, 0u8, 0u8];
    let mut h1: u32 = 0;
    let mut h2: u32 = 0;
    let mut h3: u32 = 0;
    let mut left_val: u32 = HASH_INIT;
    let mut right_val: u32 = HASH_INIT;
    let mut left_out: Vec<u8> = Vec::new();
    let mut right_out: Vec<u8> = Vec::new();
    let mut rolling: u32 = 0;
    proof {
        assert(window@ =~= Seq::new(ROLLING_WINDOW as nat, |i: int| 0u8));
        assert(pass_state(input@.take(0), blocksize) == init_state());
    }
    let mut i: usize = 0;
    while i < n
        invariant
            n == input@.len(),
            i <= n,
            1 <= blocksize <= 0x7FFF_FFFF,
            right_bs == right_blocksize(blocksize),
            window@.len() == ROLLING_WINDOW as nat,
            ({
                let s = pass_state(input@.take(i as int), blocksize);
                &&& h1 == s.h1
                &&& h2 == s.h2
                &&& h3 == s.h3
                &&& window@ == s.window
                &&& s.pos == i as nat
                &&& left_val == s.left_val
                &&& right_val == s.right_val
                &&& left_out@ == s.left_out
                &&& right_out@ == s.right_out
                &&& rolling == rolling_of(s)
            }),
        decreases n - i,
    {
        let ghost pre = pass_state(input@.take(i as int), blocksize);
        let c = input[i];
        let cu: u32 = c as u32;
        let slot = i % (ROLLING_WINDOW as usize);
        h2 = h2.wrapping_sub(h1).wrapping_add(ROLLING_WINDOW * cu);
        h1 = h1.wrapping_sub(window[slot] as u32).wrapping_add(cu);
        h3 = (h3 << 5u32) ^ cu;
        window[slot] = c;
        left_val = left_val.wrapping_mul(HASH_PRIME) ^ cu;
        right_val = right_val.wrapping_mul(HASH_PRIME) ^ cu;
        rolling = h1.wrapping_add(h2).wrapping_add(h3);
        if rolling.wrapping_add(1) % blocksize == 0 {
            update_hash_output(&mut left_val, &mut left_out, LEFT_HASH_LENGTH);
        }
        if rolling.wrapping_add(1) % right_bs == 0 {
            update_hash_output(&mut right_val, &mut right_out, RIGHT_HASH_LENGTH);
        }
        proof {
            assert(input@.take(i + 1).drop_last() =~= input@.take(i as int));
            assert(pass_state(input@.take(i + 1), blocksize) == step(
                pre,
                input@[i as int],
                blocksize,
            ));
        }
        i = i + 1;
    }
    proof {
        assert(input@.take(n as int) =~= input@);
    }
    if rolling != 0 {
        update_hash_output(&mut left_val, &mut left_out, LEFT_HASH_LENGTH);
        update_hash_output(&mut right_val, &mut right_out, RIGHT_HASH_LENGTH);
    }
    (left_out, right_out)
}

} // verus!
