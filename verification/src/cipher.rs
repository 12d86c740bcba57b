//! The block transform: unpack an 8-byte block into a 16-nibble state,
//! run `rounds` rounds of substitute / add round key / shift rows / mix
//! columns, and repack the state into 8 bytes.
//!
//! The state is a 4x4 nibble grid in row-major order: positions 0..4 are
//! row 0, 4..8 row 1, 8..12 row 2, 12..16 row 3.

use vstd::prelude::*;

use crate::CipherError;
use crate::tables::all_nibbles;
use crate::tables::lemma_sbox_all_nibbles;
use crate::tables::lemma_unpack_all_nibbles;
use crate::tables::lemma_xor_nibble;
use crate::tables::pack_nibbles;
use crate::tables::sbox;
use crate::tables::spec_sbox;
use crate::tables::unpack_nibbles;
use vstd::slice::slice_subrange;

verus! {

/// Every nibble replaced by its substitution-table entry.
pub open spec fn spec_sub_cells(s: Seq<u8>) -> Seq<u8> {
    Seq::new(16, |i: int| spec_sbox()[s[i] as int])
}

/// The state XORed element-wise with the 16-nibble round key `k`.
pub open spec fn spec_add_round_key(s: Seq<u8>, k: Seq<u8>) -> Seq<u8> {
    Seq::new(16, |i: int| s[i] ^ k[i])
}

/// Source position for shift-rows: row `r` is rotated right by `r`
/// places, so output cell `(r, c)` takes input cell `(r, (c + 4 - r) % 4)`.
pub open spec fn spec_shift_src(i: int) -> int {
    let r = i / 4;
    let c = i % 4;
    4 * r + (c + 4 - r) % 4
}

/// Row 0 unchanged; row `r` rotated right by `r` nibble positions.
pub open spec fn spec_shift_rows(s: Seq<u8>) -> Seq<u8> {
    Seq::new(16, |i: int| s[spec_shift_src(i)])
}

/// Column mix, per column `c` with rows `a, b, d, e` read top to bottom
/// before the step: new row 3 is `a ^ d`, new row 2 is `b ^ d`, new row 1
/// is `a`, and new row 0 is the old row 3 XORed with the *new* row 3.
pub open spec fn spec_mix_columns(s: Seq<u8>) -> Seq<u8> {
    Seq::new(
        16,
        |i: int|
            {
                let c = i % 4;
                if i < 4 {
                    s[12 + c] ^ (s[c] ^ s[8 + c])
                } else if i < 8 {
                    s[c]
                } else if i < 12 {
                    s[4 + c] ^ s[8 + c]
                } else {
                    s[c] ^ s[8 + c]
                }
            },
    )
}

/// One full round in strict sequence: substitute, add round key, shift
/// rows, mix columns.
pub open spec fn spec_round(s: Seq<u8>, k: Seq<u8>) -> Seq<u8> {
    spec_mix_columns(spec_shift_rows(spec_add_round_key(spec_sub_cells(s), k)))
}

/// The state after the first `n` rounds, round `r` using the key slice
/// `keys[16*r .. 16*r + 16]`.
pub open spec fn spec_state_after(s: Seq<u8>, keys: Seq<u8>, n: int) -> Seq<u8>
    decreases n,
{
    if n <= 0 {
        s
    } else {
        spec_round(spec_state_after(s, keys, n - 1), keys.subrange(16 * (n - 1), 16 * n))
    }
}

/// The whole transform: unpack, `n` rounds, repack.
pub open spec fn spec_skinny64(input: Seq<u8>, n: int, keys: Seq<u8>) -> Seq<u8> {
    pack_nibbles(spec_state_after(unpack_nibbles(input), keys, n))
}

pub fn sub_bytes(state: &[u8; 16]) -> (out: [u8; 16])
    requires
        all_nibbles(state@),
    ensures
        out@ == spec_sub_cells(state@),
        all_nibbles(out@),
{
    let mut tmp_state: [u8; 16] = [0u8; 16];
    let mut i: usize = 0;
    while i < 16
        invariant
            i <= 16,
            all_nibbles(state@),
            forall|j: int| 0 <= j < i ==> tmp_state@[j] == spec_sub_cells(state@)[j],
        decreases 16 - i,
    {
        tmp_state[i] = sbox(state[i]);
        i = i + 1;
    }
    proof {
        assert(tmp_state@ =~= spec_sub_cells(state@));
        lemma_sbox_all_nibbles();
    }
    tmp_state
}

pub fn add_tweakey(state: &[u8; 16], tweakey: &[u8]) -> (out: [u8; 16])
    requires
        tweakey@.len() >= 16,
        all_nibbles(state@),
        forall|i: int| 0 <= i < 16 ==> tweakey@[i] < 16,
    ensures
        out@ == spec_add_round_key(state@, tweakey@),
        all_nibbles(out@),
{
    let mut tmp_state: [u8; 16] = [0u8; 16];
    let mut i: usize = 0;
    while i < 16
        invariant
            i <= 16,
            tweakey@.len() >= 16,
            forall|j: int| 0 <= j < i ==> tmp_state@[j] == spec_add_round_key(state@, tweakey@)[j],
        decreases 16 - i,
    {
        tmp_state[i] = state[i] ^ tweakey[i];
        i = i + 1;
    }
    proof {
        assert(tmp_state@ =~= spec_add_round_key(state@, tweakey@));
        assert forall|j: int| 0 <= j < 16 implies tmp_state@[j] < 16 by {
            lemma_xor_nibble(state@[j], tweakey@[j]);
        }
    }
    tmp_state
}

pub fn shift_rows(state: &[u8; 16]) -> (out: [u8; 16])
    requires
        all_nibbles(state@),
    ensures
        out@ == spec_shift_rows(state@),
        all_nibbles(out@),
{
    let mut tmp_state: [u8; 16] = [0u8; 16];
    let mut i: usize = 0;
    while i < 16
        invariant
            i <= 16,
            all_nibbles(state@),
            forall|j: int| 0 <= j < i ==> tmp_state@[j] == spec_shift_rows(state@)[j],
        decreases 16 - i,
    {
        let r: usize = i / 4;
        let c: usize = i % 4;
        let src: usize = 4 * r + (c + 4 - r) % 4;
        tmp_state[i] = state[src];
        i = i + 1;
    }
    proof {
        assert(tmp_state@ =~= spec_shift_rows(state@));
    }
    tmp_state
}

pub fn mix_columns(state: &[u8; 16]) -> (out: [u8; 16])
    requires
        all_nibbles(state@),
    ensures
        out@ == spec_mix_columns(state@),
        all_nibbles(out@),
{
    let mut tmp_state: [u8; 16] = [0u8; 16];
    let mut col: usize = 0;
    while col < 4
        invariant
            col <= 4,
            all_nibbles(state@),
            forall|j: int| 0 <= j < 16 && j % 4 < col ==> tmp_state@[j] == spec_mix_columns(
                state@,
            )[j],
        decreases 4 - col,
    {
        // New row 0 must read the already-updated new row 3, not the
        // original one, so row 3 is written first and row 0 last.
        let tmp = state[12 + col];
        tmp_state[12 + col] = state[col] ^ state[8 + col];
        tmp_state[8 + col] = state[4 + col] ^ state[8 + col];
        tmp_state[4 + col] = state[col];
        tmp_state[col] = tmp ^ tmp_state[12 + col];
        col = col + 1;
    }
    proof {
        assert(tmp_state@ =~= spec_mix_columns(state@));
        assert forall|j: int| 0 <= j < 16 implies tmp_state@[j] < 16 by {
            let c = j % 4;
            lemma_xor_nibble(state@[c], state@[8 + c]);
            lemma_xor_nibble(state@[4 + c], state@[8 + c]);
            lemma_xor_nibble(state@[12 + c], state@[c] ^ state@[8 + c]);
        }
    }
    tmp_state
}

/// Unpacks the 8-byte block into the 16-nibble state, high nibble of each
/// byte first.
fn unpack_block(input: &[u8; 8]) -> (state: [u8; 16])
    ensures
        state@ == unpack_nibbles(input@),
        all_nibbles(state@),
{
    let mut state: [u8; 16] = [0u8; 16];
    let mut i: usize = 0;
    while i < 8
        invariant
            i <= 8,
            forall|j: int| 0 <= j < 2 * i ==> state@[j] == unpack_nibbles(input@)[j],
        decreases 8 - i,
    {
        let b = input[i];
        state[2 * i] = b >> 4u8;
        state[2 * i + 1] = b & 0xf;
        i = i + 1;
    }
    proof {
        assert(state@ =~= unpack_nibbles(input@));
        lemma_unpack_all_nibbles(input@);
    }
    state
}

/// Repacks the 16-nibble state into 8 bytes, first nibble of each pair in
/// the high 4 bits.
fn pack_block(state: &[u8; 16]) -> (out: [u8; 8])
    ensures
        out@ == pack_nibbles(state@),
{
    let mut out: [u8; 8] = [0u8; 8];
    let mut i: usize = 0;
    while i < 8
        invariant
            i <= 8,
            forall|j: int| 0 <= j < i ==> out@[j] == pack_nibbles(state@)[j],
        decreases 8 - i,
    {
        out[i] = (state[2 * i] << 4u8) | state[2 * i + 1];
        i = i + 1;
    }
    proof {
        assert(out@ =~= pack_nibbles(state@));
    }
    out
}

/// Encrypts one 8-byte block with the given round-key material, which must
/// hold at least 16 nibbles per round; a shorter buffer is rejected.
pub fn skinny64(input: &[u8; 8], rounds: u64, round_keys: &[u8]) -> (result: Result<
    [u8; 8],
    CipherError,
>)
    requires
        all_nibbles(round_keys@),
    ensures
        match result {
            Ok(out) => round_keys@.len() >= 16 * rounds && out@ == spec_skinny64(
                input@,
                rounds as int,
                round_keys@,
            ),
            Err(e) => e == CipherError::RoundKeysTooShort && round_keys@.len() < 16 * rounds,
        },
{
    if (round_keys.len() as u64) / 16 < rounds {
        return Err(CipherError::RoundKeysTooShort);
    }
    let total: usize = rounds as usize;
    let mut state: [u8; 16] = unpack_block(input);
    let mut rnd: usize = 0;
    while rnd < total
        invariant
            total == rounds,
            rnd <= total,
            16 * total <= round_keys@.len(),
            round_keys@.len() <= usize::MAX,
            all_nibbles(round_keys@),
            state@ == spec_state_after(unpack_nibbles(input@), round_keys@, rnd as int),
            all_nibbles(state@),
        decreases total - rnd,
    {
        let substituted = sub_bytes(&state);
        let rk: &[u8] = slice_subrange(round_keys, 16 * rnd, 16 * rnd + 16);
        let added = add_tweakey(&substituted, rk);
        let shifted = shift_rows(&added);
        state = mix_columns(&shifted);
        rnd = rnd + 1;
    }
    Ok(pack_block(&state))
}

} // verus!
