//! Properties of the key schedule and the block transform, stated and
//! proved once over the specification functions that the executable
//! contracts are written in.

use vstd::prelude::*;

use crate::TweakeyType;
use crate::cipher::spec_skinny64;
use crate::cipher::spec_state_after;
use crate::schedule::lemma_key_schedule_block;
use crate::schedule::lemma_key_schedule_len;
use crate::schedule::spec_extracted_cells;
use crate::schedule::spec_key_schedule;
use crate::schedule::spec_round_key_block;
use crate::schedule::spec_tweakey_at;
use crate::tables::lemma_pack_unpack;
use crate::tables::unpack_nibbles;

verus! {

proof fn lemma_state_after_len(s: Seq<u8>, keys: Seq<u8>, n: int)
    requires
        s.len() == 16,
        n >= 0,
    ensures
        spec_state_after(s, keys, n).len() == 16,
    decreases n,
{
    if n > 0 {
        lemma_state_after_len(s, keys, n - 1);
    }
}

/// Encrypting an 8-byte block yields exactly 8 bytes, whatever the round
/// count and key material.
pub proof fn lemma_skinny64_len(input: Seq<u8>, keys: Seq<u8>, n: int)
    requires
        input.len() == 8,
        n >= 0,
    ensures
        spec_skinny64(input, n, keys).len() == 8,
{
    lemma_state_after_len(unpack_nibbles(input), keys, n);
}

/// For the Single variant, the round-key active cells of round 0 are the
/// raw unpacked tweakey nibbles at positions 0..8, before any constant
/// injection.
pub proof fn lemma_single_round_zero_cells(tweakey: Seq<u8>)
    ensures
        forall|i: int|
            0 <= i < 8 ==> spec_extracted_cells(
                spec_tweakey_at(tweakey, TweakeyType::TK1, 0),
                TweakeyType::TK1,
            )[i] == unpack_nibbles(tweakey)[i],
{
}

/// Constant injection: in every round `r` of every schedule, round-key
/// position 8 is the pre-injection cell with the bit pattern `0b0010`
/// XORed in, hence exactly `0b0010`, and positions 9..16 stay zero.
pub proof fn lemma_constant_injection(tweakey: Seq<u8>, rounds: int, t: TweakeyType, r: int)
    requires
        0 <= r < rounds,
    ensures
        spec_extracted_cells(spec_tweakey_at(tweakey, t, r), t)[8] == 0,
        spec_key_schedule(tweakey, rounds, t)[16 * r + 8] == spec_extracted_cells(
            spec_tweakey_at(tweakey, t, r),
            t,
        )[8] ^ 0x2,
        spec_key_schedule(tweakey, rounds, t)[16 * r + 8] == 0x2,
        forall|j: int|
            16 * r + 9 <= j < 16 * r + 16 ==> #[trigger] spec_key_schedule(tweakey, rounds, t)[j]
                == 0,
{
    lemma_key_schedule_block(tweakey, rounds, t, r);
    lemma_key_schedule_len(tweakey, rounds, t);
    let state = spec_tweakey_at(tweakey, t, r);
    let cells = spec_extracted_cells(state, t);
    let block = spec_round_key_block(state, t, r);
    let whole = spec_key_schedule(tweakey, rounds, t);
    assert forall|j: int| 16 * r <= j < 16 * r + 16 implies #[trigger] whole[j] == block[j - 16
        * r] by {
        assert(whole.subrange(16 * r, 16 * r + 16)[j - 16 * r] == whole[j]);
    }
    assert forall|j: int| 16 * r + 9 <= j < 16 * r + 16 implies #[trigger] whole[j] == 0 by {
        assert(block[j - 16 * r] == cells[j - 16 * r]);
    }
    assert(cells[8] == 0);
    assert(block[8] == cells[8] ^ 0x2);
    assert(0u8 ^ 0x2u8 == 0x2u8) by (bit_vector);
}

/// Round-count boundary: zero rounds leave the block unchanged and give
/// an empty round-key sequence.
pub proof fn lemma_zero_rounds(input: Seq<u8>, keys: Seq<u8>, tweakey: Seq<u8>, t: TweakeyType)
    ensures
        spec_skinny64(input, 0, keys) == input,
        spec_key_schedule(tweakey, 0, t) == Seq::<u8>::empty(),
{
    lemma_pack_unpack(input);
}

} // verus!
