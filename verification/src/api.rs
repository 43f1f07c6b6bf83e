//! The fuzzy hash result and the top-level hashing entry points.

use vstd::prelude::*;

use crate::LEFT_HASH_LENGTH;
use crate::MIN_BLOCKSIZE;
use crate::RIGHT_HASH_LENGTH;
use crate::SpamsumOptions;
use crate::blocksize::guess_initial_blocksize;
use crate::blocksize::guess_spec;
use crate::model::adjusted_blocksize;
use crate::model::lemma_pass_outputs_wf;
use crate::model::pass_left;
use crate::model::pass_right;
use crate::normalize::filter_input;
use crate::normalize::filtered_spec;
use crate::pass::run_pass;
use crate::text::ascii_to_string;
use crate::text::chars_of;
use crate::text::dec_chars;
use crate::text::is_b64_char;
use crate::text::u32_to_string;

verus! {

/// A computed fuzzy hash: the fine blocksize and the two hash strings.
#[derive(Debug)]
pub struct Spamsum {
    /// Blocksize of the fine-resolution (left) hash; the coarse resolution
    /// always uses its double.
    pub left_hash_blocksize: u32,
    /// Fine-resolution hash, at most `LEFT_HASH_LENGTH` symbols.
    pub left_hash: String,
    /// Coarse-resolution hash, at most `RIGHT_HASH_LENGTH` symbols.
    pub right_hash: String,
}

impl Spamsum {
    /// Blocksize of the coarse-resolution (right) hash: always exactly twice
    /// the fine blocksize.
    pub fn right_hash_blocksize(&self) -> (bs: u32)
        requires
            self.left_hash_blocksize <= u32::MAX / 2,
        ensures
            bs == 2 * self.left_hash_blocksize,
    {
        self.left_hash_blocksize * 2
    }

    /// Canonical string form, `"{blocksize}:{left_hash}:{right_hash}"`.
    pub fn render(&self) -> (s: String)
        ensures
            s@ == dec_chars(self.left_hash_blocksize as int) + seq![':'] + self.left_hash@
                + seq![':'] + self.right_hash@,
    {
        proof {
            reveal_strlit(":");
        }
        let mut s = u32_to_string(self.left_hash_blocksize);
        s.append(":");
        s.append(self.left_hash.as_str());
        s.append(":");
        s.append(self.right_hash.as_str());
        s
    }
}

/// Fine blocksize the computation settles on for `input` under `options`:
/// the pinned one, or the adaptively adjusted initial guess.
pub open spec fn configured_blocksize(input: Seq<u8>, options: SpamsumOptions) -> u32 {
    let f = filtered_spec(input, options);
    if options.blocksize > 0 {
        options.blocksize
    } else {
        adjusted_blocksize(f, guess_spec(f.len() as int) as u32)
    }
}

/// Fine-resolution hash bytes of `input` under `options`.
pub open spec fn configured_left(input: Seq<u8>, options: SpamsumOptions) -> Seq<u8> {
    pass_left(filtered_spec(input, options), configured_blocksize(input, options))
}

/// Coarse-resolution hash bytes of `input` under `options`.
pub open spec fn configured_right(input: Seq<u8>, options: SpamsumOptions) -> Seq<u8> {
    pass_right(filtered_spec(input, options), configured_blocksize(input, options))
}

/// What the hash of `input` under `options` is: the blocksize and the two
/// hash strings are a function of those two alone.
pub open spec fn is_spamsum_result(
    input: Seq<u8>,
    options: SpamsumOptions,
    blocksize: u32,
    left: Seq<char>,
    right: Seq<char>,
) -> bool {
    &&& blocksize == configured_blocksize(input, options)
    &&& left == chars_of(configured_left(input, options))
    &&& right == chars_of(configured_right(input, options))
}

/// Identical `(bytes, options)` always yield a byte-identical hash.
pub proof fn lemma_deterministic(
    input: Seq<u8>,
    options: SpamsumOptions,
    b1: u32,
    l1: Seq<char>,
    r1: Seq<char>,
    b2: u32,
    l2: Seq<char>,
    r2: Seq<char>,
)
    requires
        is_spamsum_result(input, options, b1, l1, r1),
        is_spamsum_result(input, options, b2, l2, r2),
    ensures
        b1 == b2,
        l1 == l2,
        r1 == r2,
{
}

/// For every input and options: the right hash holds at most
/// `RIGHT_HASH_LENGTH` symbols, the left at most `LEFT_HASH_LENGTH`, and
/// every character comes from the 64-symbol output alphabet.
pub proof fn lemma_hash_shape(input: Seq<u8>, options: SpamsumOptions)
    ensures
        chars_of(configured_left(input, options)).len() <= LEFT_HASH_LENGTH,
        chars_of(configured_right(input, options)).len() <= RIGHT_HASH_LENGTH,
        forall|i: int| 0 <= i < chars_of(configured_left(input, options)).len()
            ==> is_b64_char(#[trigger] chars_of(configured_left(input, options))[i]),
        forall|i: int| 0 <= i < chars_of(configured_right(input, options)).len()
            ==> is_b64_char(#[trigger] chars_of(configured_right(input, options))[i]),
{
    let f = filtered_spec(input, options);
    let bs = configured_blocksize(input, options);
    lemma_pass_outputs_wf(f, bs);
}

/// Hashes `input` with the given fine blocksize: one pass, no retry.
pub fn get_spamsum_with_set_blocksize(
    input: &Vec<u8>,
    blocksize: u32,
    _options: SpamsumOptions,
) -> (r: Result<Spamsum, &'static str>)
    requires
        1 <= blocksize <= 0x7FFF_FFFF,
    ensures
        r is Ok,
        r matches Ok(h) ==> {
            &&& h.left_hash_blocksize == blocksize
            &&& h.left_hash@ == chars_of(pass_left(input@, blocksize))
            &&& h.right_hash@ == chars_of(pass_right(input@, blocksize))
        },
{
    let (left, right) = run_pass(input, blocksize);
    proof {
        lemma_pass_outputs_wf(input@, blocksize);
    }
    let left_hash = ascii_to_string(left);
    let right_hash = ascii_to_string(right);
    Ok(Spamsum { left_hash_blocksize: blocksize, left_hash, right_hash })
}

/// Hashes `input` under `options`: normalizes the input, picks or takes the
/// blocksize, and (in adaptive mode) halves the blocksize and re-runs the
/// pass until the fine hash is long enough or the minimum is reached.
pub fn get_configured_spamsum(
    input: &Vec<u8>,
    options: SpamsumOptions,
) -> (r: Result<Spamsum, &'static str>)
    requires
        options.blocksize == 0 ==> input@.len() <= u32::MAX,
        options.blocksize > 0 ==> options.blocksize <= 0x7FFF_FFFF,
    ensures
        r is Ok,
        r matches Ok(h) ==> is_spamsum_result(
            input@,
            options,
            h.left_hash_blocksize,
            h.left_hash@,
            h.right_hash@,
        ),
        r matches Ok(h) ==> {
            &&& h.left_hash@.len() <= LEFT_HASH_LENGTH
            &&& h.right_hash@.len() <= RIGHT_HASH_LENGTH
        },
{
    let ghost f = filtered_spec(input@, options);
    let mut valid_input: Vec<u8> = Vec::new();
    let n = input.len();
    let mut k: usize = 0;
    while k < n
        invariant
            n == input@.len(),
            k <= n,
            valid_input@ == input@.take(k as int),
        decreases n - k,
    {
        valid_input.push(input[k]);
        proof {
            assert(input@.take(k + 1) =~= input@.take(k as int).push(input@[k as int]));
        }
        k = k + 1;
    }
    proof {
        assert(input@.take(n as int) =~= input@);
    }
    filter_input(&mut valid_input, options);
    let blocksize: u32 = if options.blocksize > 0 {
        options.blocksize
    } else {
        guess_initial_blocksize(valid_input.len() as u32)
    };
    let mut pair = run_pass(&valid_input, blocksize);
    let mut bs = blocksize;
    if options.blocksize == 0 {
        while bs > MIN_BLOCKSIZE && pair.0.len() < RIGHT_HASH_LENGTH as usize
            invariant
                valid_input@ == f,
                1 <= bs <= 0x7FFF_FFFF,
                pair.0@ == pass_left(f, bs),
                pair.1@ == pass_right(f, bs),
                adjusted_blocksize(f, bs) == adjusted_blocksize(f, blocksize),
            decreases bs,
        {
            bs = bs / 2;
            pair = run_pass(&valid_input, bs);
        }
        proof {
            assert(adjusted_blocksize(f, bs) == bs);
        }
    }
    proof {
        lemma_pass_outputs_wf(f, bs);
        assert(bs == configured_blocksize(input@, options));
    }
    let left_hash = ascii_to_string(pair.0);
    let right_hash = ascii_to_string(pair.1);
    Ok(Spamsum { left_hash_blocksize: bs, left_hash, right_hash })
}

/// Hashes `input` with the default options: adaptive blocksize and no input
/// normalization.
pub fn get_spamsum(input: &Vec<u8>) -> (r: Result<Spamsum, &'static str>)
    requires
        input@.len() <= u32::MAX,
    ensures
        r is Ok,
        r matches Ok(h) ==> is_spamsum_result(
            input@,
            (SpamsumOptions { blocksize: 0, ignore_whitespace: false, ignore_headers: false }),
            h.left_hash_blocksize,
            h.left_hash@,
            h.right_hash@,
        ),
{
    let options: SpamsumOptions = Default::default();
    get_configured_spamsum(input, options)
}

} // verus!
