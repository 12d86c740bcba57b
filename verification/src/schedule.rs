//! The key schedule: expands a tweakey byte buffer into one 16-nibble
//! round key per round.
//!
//! Each round extracts the first eight nibbles of the tweakey state
//! (XOR-combining the words for the larger variants), injects the round
//! constant, then permutes every tweakey word and applies the per-word
//! linear feedback for the next round.

use vstd::prelude::*;

use crate::CipherError;
use crate::TweakeyType;
use crate::spec_width_bytes;
use crate::spec_width_nibbles;
use crate::tables::all_nibbles;
use crate::tables::high_nibble;
use crate::tables::key_perm_lookup;
use crate::tables::lemma_nibble_bounds;
use crate::tables::lemma_unpack_all_nibbles;
use crate::tables::lemma_xor_nibble;
use crate::tables::lfsr_word1;
use crate::tables::lfsr_word2;
use crate::tables::low_nibble;
use crate::tables::round_constant;
use crate::tables::spec_key_perm;
use crate::tables::spec_max_rounds;
use crate::tables::spec_round_constants;
use crate::tables::unpack_bytes;
use crate::tables::unpack_nibbles;
use crate::width_bytes;

verus! {

/// The combined nibble at position `i` (0..8) of a round key, before
/// constants: word 0's nibble, XORed with word 1's and word 2's for the
/// Double and Triple variants.
pub open spec fn spec_active_cell(state: Seq<u8>, t: TweakeyType, i: int) -> u8 {
    match t {
        TweakeyType::TK1 => state[i],
        TweakeyType::TK2 => state[i] ^ state[i + 16],
        TweakeyType::TK3 => state[i] ^ state[i + 16] ^ state[i + 32],
    }
}

/// The 16 round-key cells extracted from the tweakey state, before any
/// constant injection: positions 0..8 are the active cells, 8..16 zero.
pub open spec fn spec_extracted_cells(state: Seq<u8>, t: TweakeyType) -> Seq<u8> {
    Seq::new(16, |i: int| if i < 8 { spec_active_cell(state, t, i) } else { 0u8 })
}

/// XORs round `r`'s constant into cells 0 and 4 and the fixed bit pattern
/// `0b0010` into cell 8.
pub open spec fn spec_inject_constants(cells: Seq<u8>, r: int) -> Seq<u8> {
    cells.update(0, cells[0] ^ low_nibble(spec_round_constants()[r])).update(
        4,
        cells[4] ^ high_nibble(spec_round_constants()[r]),
    ).update(8, cells[8] ^ 0x2)
}

/// The finished 16-nibble round key of round `r`, taken from the tweakey
/// state as it stands at the start of that round.
pub open spec fn spec_round_key_block(state: Seq<u8>, t: TweakeyType, r: int) -> Seq<u8> {
    spec_inject_constants(spec_extracted_cells(state, t), r)
}

/// The fixed nibble permutation applied to every 16-nibble tweakey word
/// independently; word boundaries are preserved.
pub open spec fn spec_permute_tweakey(state: Seq<u8>) -> Seq<u8> {
    Seq::new(state.len(), |i: int| state[16 * (i / 16) + spec_key_perm()[i % 16]])
}

/// The per-word linear feedback: every nibble of word 1 through
/// `lfsr_word1` (Double and Triple), every nibble of word 2 through
/// `lfsr_word2` (Triple only); word 0 is never feedback-updated.
pub open spec fn spec_feedback_words(state: Seq<u8>, t: TweakeyType) -> Seq<u8> {
    Seq::new(
        state.len(),
        |i: int|
            match t {
                TweakeyType::TK1 => state[i],
                TweakeyType::TK2 => if 16 <= i < 32 {
                    lfsr_word1(state[i])
                } else {
                    state[i]
                },
                TweakeyType::TK3 => if 16 <= i < 32 {
                    lfsr_word1(state[i])
                } else if 32 <= i < 48 {
                    lfsr_word2(state[i])
                } else {
                    state[i]
                },
            },
    )
}

/// One round's update of the tweakey state: permute, then feedback.
pub open spec fn spec_next_tweakey(state: Seq<u8>, t: TweakeyType) -> Seq<u8> {
    spec_feedback_words(spec_permute_tweakey(state), t)
}

/// The tweakey state at the start of round `r`, for the tweakey buffer
/// `tweakey`: round 0 sees the unpacked buffer itself.
pub open spec fn spec_tweakey_at(tweakey: Seq<u8>, t: TweakeyType, r: int) -> Seq<u8>
    decreases r,
{
    if r <= 0 {
        unpack_nibbles(tweakey)
    } else {
        spec_next_tweakey(spec_tweakey_at(tweakey, t, r - 1), t)
    }
}

/// The full round-key sequence: `rounds` consecutive 16-nibble blocks.
pub open spec fn spec_key_schedule(tweakey: Seq<u8>, rounds: int, t: TweakeyType) -> Seq<u8>
    decreases rounds,
{
    if rounds <= 0 {
        Seq::empty()
    } else {
        spec_key_schedule(tweakey, rounds - 1, t) + spec_round_key_block(
            spec_tweakey_at(tweakey, t, rounds - 1),
            t,
            rounds - 1,
        )
    }
}

/// The schedule of `rounds` rounds holds exactly `16 * rounds` nibbles.
pub proof fn lemma_key_schedule_len(tweakey: Seq<u8>, rounds: int, t: TweakeyType)
    requires
        rounds >= 0,
    ensures
        spec_key_schedule(tweakey, rounds, t).len() == 16 * rounds,
    decreases rounds,
{
    if rounds > 0 {
        lemma_key_schedule_len(tweakey, rounds - 1, t);
    }
}

/// The tweakey state keeps its width and stays nibble-valued through
/// every round.
pub proof fn lemma_tweakey_at_wf(tweakey: Seq<u8>, t: TweakeyType, r: int)
    requires
        r >= 0,
        2 * tweakey.len() == spec_width_nibbles(t),
    ensures
        spec_tweakey_at(tweakey, t, r).len() == spec_width_nibbles(t),
        all_nibbles(spec_tweakey_at(tweakey, t, r)),
    decreases r,
{
    if r == 0 {
        lemma_unpack_all_nibbles(tweakey);
    } else {
        lemma_tweakey_at_wf(tweakey, t, r - 1);
        let prev = spec_tweakey_at(tweakey, t, r - 1);
        let perm = spec_permute_tweakey(prev);
        assert forall|i: int| 0 <= i < perm.len() implies perm[i] < 16 by {
            assert(16 * (i / 16) + spec_key_perm()[i % 16] < prev.len());
        }
        let next = spec_feedback_words(perm, t);
        assert forall|i: int| 0 <= i < next.len() implies next[i] < 16 by {
            lemma_nibble_bounds(perm[i]);
        }
    }
}

/// Every nibble of every round key is below 16.
pub proof fn lemma_key_schedule_all_nibbles(tweakey: Seq<u8>, rounds: int, t: TweakeyType)
    requires
        0 <= rounds <= spec_max_rounds(),
        2 * tweakey.len() == spec_width_nibbles(t),
    ensures
        all_nibbles(spec_key_schedule(tweakey, rounds, t)),
    decreases rounds,
{
    if rounds > 0 {
        lemma_key_schedule_all_nibbles(tweakey, rounds - 1, t);
        lemma_tweakey_at_wf(tweakey, t, rounds - 1);
        let state = spec_tweakey_at(tweakey, t, rounds - 1);
        let cells = spec_extracted_cells(state, t);
        let c = spec_round_constants()[rounds - 1];
        lemma_nibble_bounds(c);
        assert forall|i: int| 0 <= i < 16 implies cells[i] < 16 by {
            if i < 8 {
                match t {
                    TweakeyType::TK1 => {
                    },
                    TweakeyType::TK2 => {
                        lemma_xor_nibble(state[i], state[i + 16]);
                    },
                    TweakeyType::TK3 => {
                        lemma_xor_nibble(state[i], state[i + 16]);
                        lemma_xor_nibble(state[i] ^ state[i + 16], state[i + 32]);
                    },
                }
            }
        }
        let block = spec_inject_constants(cells, rounds - 1);
        lemma_xor_nibble(cells[0], low_nibble(c));
        lemma_xor_nibble(cells[4], high_nibble(c));
        lemma_xor_nibble(cells[8], 0x2);
        assert forall|i: int|
            0 <= i < spec_key_schedule(tweakey, rounds, t).len() implies spec_key_schedule(
            tweakey,
            rounds,
            t,
        )[i] < 16 by {
            lemma_key_schedule_len(tweakey, rounds - 1, t);
        }
    }
}

/// Within the full schedule, round `r`'s block is the round key derived
/// from the tweakey state at round `r`.
pub proof fn lemma_key_schedule_block(tweakey: Seq<u8>, rounds: int, t: TweakeyType, r: int)
    requires
        0 <= r < rounds,
    ensures
        spec_key_schedule(tweakey, rounds, t).subrange(16 * r, 16 * r + 16)
            == spec_round_key_block(spec_tweakey_at(tweakey, t, r), t, r),
    decreases rounds,
{
    lemma_key_schedule_len(tweakey, rounds - 1, t);
    let whole = spec_key_schedule(tweakey, rounds, t);
    let prefix = spec_key_schedule(tweakey, rounds - 1, t);
    let block = spec_round_key_block(spec_tweakey_at(tweakey, t, rounds - 1), t, rounds - 1);
    if r == rounds - 1 {
        assert(whole.subrange(16 * r, 16 * r + 16) =~= block);
    } else {
        lemma_key_schedule_block(tweakey, rounds - 1, t, r);
        assert(whole.subrange(16 * r, 16 * r + 16) =~= prefix.subrange(16 * r, 16 * r + 16));
    }
}

/// Applies the fixed nibble permutation to every 16-nibble word of the
/// tweakey state.
fn permute_words(state: &Vec<u8>) -> (out: Vec<u8>)
    requires
        state@.len() % 16 == 0,
    ensures
        out@ == spec_permute_tweakey(state@),
{
    let words: usize = state.len() / 16;
    let mut out: Vec<u8> = Vec::new();
    let mut w: usize = 0;
    while w < words
        invariant
            state@.len() <= usize::MAX,
            state@.len() % 16 == 0,
            words == state@.len() / 16,
            w <= words,
            out@.len() == 16 * w,
            forall|k: int| 0 <= k < 16 * w ==> out@[k] == spec_permute_tweakey(state@)[k],
        decreases words - w,
    {
        let mut j: usize = 0;
        while j < 16
            invariant
                state@.len() <= usize::MAX,
                state@.len() % 16 == 0,
                words == state@.len() / 16,
                w < words,
                j <= 16,
                out@.len() == 16 * w + j,
                forall|k: int| 0 <= k < 16 * w + j ==> out@[k] == spec_permute_tweakey(state@)[k],
            decreases 16 - j,
        {
            let p = key_perm_lookup(j);
            assert(16 * w + 16 <= state@.len());
            let idx: usize = 16 * w + p;
            out.push(state[idx]);
            proof {
                let k = 16 * w + j;
                assert(k / 16 == w as int && k % 16 == j as int);
            }
            j = j + 1;
        }
        w = w + 1;
    }
    proof {
        assert(out@ =~= spec_permute_tweakey(state@));
    }
    out
}

/// Applies the per-word linear feedback to the tweakey state: word 1 for
/// the Double and Triple variants, word 2 additionally for Triple.
fn feedback_words(state: &Vec<u8>, keytype: TweakeyType) -> (out: Vec<u8>)
    ensures
        out@ == spec_feedback_words(state@, keytype),
{
    let mut out: Vec<u8> = Vec::new();
    let mut i: usize = 0;
    while i < state.len()
        invariant
            i <= state@.len(),
            out@.len() == i,
            forall|k: int| 0 <= k < i ==> out@[k] == spec_feedback_words(state@, keytype)[k],
        decreases state@.len() - i,
    {
        let x = state[i];
        let v: u8 = match keytype {
            TweakeyType::TK1 => x,
            TweakeyType::TK2 => {
                if 16 <= i && i < 32 {
                    ((x << 1u8) & 0xE) ^ ((x >> 3u8) & 0x1) ^ ((x >> 2u8) & 0x1)
                } else {
                    x
                }
            },
            TweakeyType::TK3 => {
                if 16 <= i && i < 32 {
                    ((x << 1u8) & 0xE) ^ ((x >> 3u8) & 0x1) ^ ((x >> 2u8) & 0x1)
                } else if 32 <= i && i < 48 {
                    ((x >> 1u8) & 0x7) ^ (x & 0x8) ^ ((x << 3u8) & 0x8)
                } else {
                    x
                }
            },
        };
        out.push(v);
        i = i + 1;
    }
    proof {
        assert(out@ =~= spec_feedback_words(state@, keytype));
    }
    out
}

/// Expands `tweakey` into `rounds` consecutive 16-nibble round keys.
///
/// Rejects a buffer whose length does not match the variant's width, and
/// a round count beyond the round-constant table; otherwise the result is
/// exactly `spec_key_schedule`, `16 * rounds` nibbles long.
pub fn key_schedule_64(tweakey: &[u8], rounds: u64, keytype: TweakeyType) -> (result: Result<
    Vec<u8>,
    CipherError,
>)
    ensures
        match result {
            Ok(keys) => tweakey@.len() == spec_width_bytes(keytype) && rounds <= spec_max_rounds()
                && keys@ == spec_key_schedule(tweakey@, rounds as int, keytype) && keys@.len() == 16
                * rounds && all_nibbles(keys@),
            Err(e) => if tweakey@.len() != spec_width_bytes(keytype) {
                e == CipherError::TweakeyLengthMismatch
            } else {
                rounds > spec_max_rounds() && e == CipherError::RoundCountTooLarge
            },
        },
{
    if tweakey.len() != width_bytes(keytype) {
        return Err(CipherError::TweakeyLengthMismatch);
    }
    if rounds > 48 {
        return Err(CipherError::RoundCountTooLarge);
    }
    let rounds_left: usize = rounds as usize;
    let mut state: Vec<u8> = unpack_bytes(tweakey);
    let mut round_keys: Vec<u8> = Vec::new();
    let mut round: usize = 0;
    while round < rounds_left
        invariant
            rounds_left == rounds,
            rounds <= 48,
            round <= rounds_left,
            tweakey@.len() == spec_width_bytes(keytype),
            state@.len() == spec_width_nibbles(keytype),
            state@ == spec_tweakey_at(tweakey@, keytype, round as int),
            round_keys@ == spec_key_schedule(tweakey@, round as int, keytype),
            round_keys@.len() == 16 * round,
        decreases rounds_left - round,
    {
        let ghost pre_state = state@;
        // Extract the active cells into a fresh zeroed block.
        let mut block: [u8; 16] = [0u8; 16];
        let mut i: usize = 0;
        while i < 8
            invariant
                i <= 8,
                state@.len() == spec_width_nibbles(keytype),
                forall|j: int| 0 <= j < i ==> block@[j] == spec_active_cell(state@, keytype, j),
                forall|j: int| i <= j < 16 ==> block@[j] == 0,
            decreases 8 - i,
        {
            let v: u8 = match keytype {
                TweakeyType::TK1 => state[i],
                TweakeyType::TK2 => state[i] ^ state[i + 16],
                TweakeyType::TK3 => state[i] ^ state[i + 16] ^ state[i + 32],
            };
            block[i] = v;
            i = i + 1;
        }
        // Inject the round constant and the fixed counter bit.
        let c = round_constant(round);
        block[0] = block[0] ^ (c & 0xf);
        block[4] = block[4] ^ (c >> 4u8);
        block[8] = block[8] ^ 0x2;
        proof {
            assert(block@ =~= spec_round_key_block(pre_state, keytype, round as int));
        }
        let mut j: usize = 0;
        while j < 16
            invariant
                j <= 16,
                round_keys@.len() == 16 * round + j,
                round_keys@ == spec_key_schedule(tweakey@, round as int, keytype) + block@.subrange(
                    0,
                    j as int,
                ),
            decreases 16 - j,
        {
            round_keys.push(block[j]);
            proof {
                assert(round_keys@ =~= spec_key_schedule(tweakey@, round as int, keytype)
                    + block@.subrange(0, j + 1));
            }
            j = j + 1;
        }
        // Advance the tweakey state for the next round.
        state = permute_words(&state);
        state = feedback_words(&state, keytype);
        round = round + 1;
        proof {
            assert(block@ =~= block@.subrange(0, 16));
            assert(round_keys@ == spec_key_schedule(tweakey@, round as int, keytype));
        }
    }
    proof {
        lemma_key_schedule_all_nibbles(tweakey@, rounds as int, keytype);
    }
    Ok(round_keys)
}

} // verus!
