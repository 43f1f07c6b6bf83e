//! Context-triggered piecewise hashing ("spamsum" fuzzy hashes).
//!
//! A fuzzy hash is a compact string computed from a byte sequence such that
//! similar inputs yield similar hash strings.  The hash is produced by a
//! rolling checksum that decides chunk boundaries at two resolutions, and a
//! pair of piecewise hash accumulators that emit one base64 symbol per chunk.

use vstd::prelude::*;

pub mod api;
pub mod blocksize;
pub mod model;
pub mod normalize;
pub mod pass;
pub mod text;

pub use api::Spamsum;
pub use api::configured_blocksize;
pub use api::configured_left;
pub use api::configured_right;
pub use api::get_configured_spamsum;
pub use api::get_spamsum;
pub use api::get_spamsum_with_set_blocksize;
pub use api::is_spamsum_result;
pub use api::lemma_deterministic;
pub use api::lemma_hash_shape;
pub use blocksize::guess_initial_blocksize;
pub use blocksize::guess_spec;
pub use blocksize::lemma_guess_monotonic;
pub use blocksize::lemma_guess_pow2;
pub use normalize::filter_input;
pub use normalize::filtered_spec;
pub use normalize::lemma_strip_headers_idempotent;
pub use normalize::lemma_strip_whitespace_idempotent;
pub use normalize::strip_headers_seq;
pub use normalize::strip_whitespace_seq;
pub use pass::run_pass;
pub use pass::update_hash_output;

verus! {

/// Maximum number of symbols in the fine-resolution (left) hash.
pub const LEFT_HASH_LENGTH: u32 = 64;

/// Maximum number of symbols in the coarse-resolution (right) hash.
pub const RIGHT_HASH_LENGTH: u32 = LEFT_HASH_LENGTH / 2;

/// Smallest blocksize the adaptive selector will use.
pub const MIN_BLOCKSIZE: u32 = 3;

/// Size of the rolling checksum window, in bytes.
pub const ROLLING_WINDOW: u32 = 7;

/// Multiplier of the FNV-style piecewise hash accumulators.
pub const HASH_PRIME: u32 = 0x01000193;

/// Seed of the FNV-style piecewise hash accumulators.
pub const HASH_INIT: u32 = 0x28021967;

/// Options of one fuzzy-hash computation.
#[derive(Copy, Clone)]
pub struct SpamsumOptions {
    /// Fine blocksize to pin; 0 selects the blocksize adaptively.
    pub blocksize: u32,
    /// Remove whitespace bytes before hashing.
    pub ignore_whitespace: bool,
    /// Remove a leading email header block before hashing.
    pub ignore_headers: bool,
}

impl Default for SpamsumOptions {
    /// Adaptive blocksize, no input normalization.
    fn default() -> (r: Self)
        ensures
            r.blocksize == 0,
            !r.ignore_whitespace,
            !r.ignore_headers,
    {
        SpamsumOptions { blocksize: 0, ignore_whitespace: false, ignore_headers: false }
    }
}

} // verus!
