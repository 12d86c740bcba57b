//! A tweakable substitution–permutation-network block cipher on 64-bit
//! blocks, in the style of SKINNY-64.
//!
//! The crate has two halves, chained by the caller:
//!
//! * [`schedule::key_schedule_64`] expands a tweakey byte buffer into one
//!   16-nibble subkey per round, and
//! * [`cipher::skinny64`] runs the round function (substitute, add round
//!   key, shift rows, mix columns) over an 8-byte block.
//!
//! All internal cipher state is nibble-granular: a nibble is a `u8` below
//! 16, and every public contract is stated over sequences of nibbles.

use vstd::prelude::*;

pub mod cipher;
pub mod laws;
pub mod schedule;
pub mod tables;

pub use cipher::skinny64;
pub use schedule::key_schedule_64;

verus! {

/// Selects how much tweakey material the key schedule consumes: one, two,
/// or three concatenated 16-nibble words.
#[derive(Clone, Copy, PartialEq, Eq, Structural, Debug)]
pub enum TweakeyType {
    TK1,
    TK2,
    TK3,
}

/// A caller-contract violation, reported as a checked failure rather than
/// left to surface as an out-of-bounds access.
#[derive(Clone, Copy, PartialEq, Eq, Structural, Debug)]
pub enum CipherError {
    /// The tweakey buffer length does not match the variant's width.
    TweakeyLengthMismatch,
    /// The requested round count exceeds the round-constant table.
    RoundCountTooLarge,
    /// The round-key material is shorter than 16 nibbles per round.
    RoundKeysTooShort,
}

/// Width of the tweakey state, in nibbles, for each variant.
pub open spec fn spec_width_nibbles(t: TweakeyType) -> int {
    match t {
        TweakeyType::TK1 => 16,
        TweakeyType::TK2 => 32,
        TweakeyType::TK3 => 48,
    }
}

/// Expected length, in bytes, of the tweakey buffer for each variant.
pub open spec fn spec_width_bytes(t: TweakeyType) -> int {
    spec_width_nibbles(t) / 2
}

pub fn width_bytes(t: TweakeyType) -> (w: usize)
    ensures
        w as int == spec_width_bytes(t),
{
    match t {
        TweakeyType::TK1 => 8,
        TweakeyType::TK2 => 16,
        TweakeyType::TK3 => 24,
    }
}

} // verus!
