//! Fixed cipher tables and nibble-level helpers: the 4-bit substitution
//! table, the tweakey nibble permutation, the round-constant table, the
//! two tweakey-word feedback functions, and byte/nibble (un)packing.

use vstd::prelude::*;

verus! {

/// The 4-bit substitution table, as a sequence indexed by the input nibble.
pub open spec fn spec_sbox() -> Seq<u8> {
    seq![0xc, 0x6, 0x9, 0x0, 0x1, 0xa, 0x2, 0xb, 0x3, 0x8, 0x5, 0xd, 0x4, 0xe, 0x7, 0xf]
}

/// The tweakey nibble permutation: within each 16-nibble word, output
/// position `j` takes the nibble from input position `spec_key_perm()[j]`.
pub open spec fn spec_key_perm() -> Seq<int> {
    seq![9int, 15, 8, 13, 10, 14, 12, 11, 0, 1, 2, 3, 4, 5, 6, 7]
}

/// The 48-entry round-constant table; entry `r` is consumed by round `r`,
/// so the table length caps the supported round count.
pub open spec fn spec_round_constants() -> Seq<u8> {
    seq![
        0x01, 0x03, 0x07, 0x0f, 0x1f, 0x3e, 0x3d, 0x3b, 0x37, 0x2f, 0x1e, 0x3c, 0x39, 0x33,
        0x27, 0x0e, 0x1d, 0x3a, 0x35, 0x2b, 0x16, 0x2c, 0x18, 0x30, 0x21, 0x02, 0x05, 0x0b,
        0x17, 0x2e, 0x1c, 0x38, 0x31, 0x23, 0x06, 0x0d, 0x1b, 0x36, 0x2d, 0x1a, 0x34, 0x29,
        0x12, 0x24, 0x08, 0x11, 0x22, 0x04,
    ]
}

/// The number of rounds the constant table supports.
pub open spec fn spec_max_rounds() -> int {
    48
}

pub open spec fn low_nibble(b: u8) -> u8 {
    b & 0xf
}

pub open spec fn high_nibble(b: u8) -> u8 {
    b >> 4
}

/// The 4-bit linear feedback applied to every nibble of tweakey word 1.
pub open spec fn lfsr_word1(x: u8) -> u8 {
    ((x << 1) & 0xE) ^ ((x >> 3) & 0x1) ^ ((x >> 2) & 0x1)
}

/// The 4-bit linear feedback applied to every nibble of tweakey word 2.
pub open spec fn lfsr_word2(x: u8) -> u8 {
    ((x >> 1) & 0x7) ^ (x & 0x8) ^ ((x << 3) & 0x8)
}

/// Unpacking a byte sequence into nibbles, high nibble of each byte first.
pub open spec fn unpack_nibbles(bytes: Seq<u8>) -> Seq<u8> {
    Seq::new(
        bytes.len() * 2,
        |i: int| if i % 2 == 0 { high_nibble(bytes[i / 2]) } else { low_nibble(bytes[i / 2]) },
    )
}

/// Packing a nibble sequence back into bytes, first nibble of each pair in
/// the high 4 bits: the inverse of `unpack_nibbles` on nibble sequences.
pub open spec fn pack_nibbles(nibs: Seq<u8>) -> Seq<u8> {
    Seq::new(nibs.len() / 2, |i: int| (nibs[2 * i] << 4) | nibs[2 * i + 1])
}

/// Whether every element of `s` is a nibble, i.e. below 16.
pub open spec fn all_nibbles(s: Seq<u8>) -> bool {
    forall|i: int| 0 <= i < s.len() ==> s[i] < 16
}

pub proof fn lemma_xor_nibble(x: u8, y: u8)
    requires
        x < 16,
        y < 16,
    ensures
        (x ^ y) < 16,
{
    assert((x ^ y) < 16) by (bit_vector)
        requires
            x < 16 && y < 16,
    ;
}

pub proof fn lemma_nibble_bounds(b: u8)
    ensures
        low_nibble(b) < 16,
        high_nibble(b) < 16,
        lfsr_word1(b) < 16,
        lfsr_word2(b) < 16,
{
    assert(low_nibble(b) < 16 && high_nibble(b) < 16 && lfsr_word1(b) < 16 && lfsr_word2(b)
        < 16) by (bit_vector);
}

pub proof fn lemma_unpack_all_nibbles(bytes: Seq<u8>)
    ensures
        all_nibbles(unpack_nibbles(bytes)),
{
    assert forall|i: int| 0 <= i < unpack_nibbles(bytes).len() implies unpack_nibbles(bytes)[i]
        < 16 by {
        lemma_nibble_bounds(bytes[i / 2]);
    }
}

/// Packing undoes unpacking: the byte is rebuilt from its two nibbles.
pub proof fn lemma_pack_unpack(bytes: Seq<u8>)
    ensures
        pack_nibbles(unpack_nibbles(bytes)) == bytes,
{
    let nibs = unpack_nibbles(bytes);
    assert forall|i: int| 0 <= i < bytes.len() implies pack_nibbles(nibs)[i] == bytes[i] by {
        let b = bytes[i];
        assert(nibs[2 * i] == high_nibble(b));
        assert(nibs[2 * i + 1] == low_nibble(b));
        assert(((b >> 4) << 4) | (b & 0xf) == b) by (bit_vector);
    }
    assert(pack_nibbles(nibs) =~= bytes);
}

pub fn sbox(x: u8) -> (r: u8)
    requires
        x < 16,
    ensures
        r == spec_sbox()[x as int],
        r < 16,
{
    let t: [u8; 16] = [0xc, 0x6, 0x9, 0x0, 0x1, 0xa, 0x2, 0xb, 0x3, 0x8, 0x5, 0xd, 0x4, 0xe, 0x7, 0xf];
    proof {
        assert(t@ =~= spec_sbox());
    }
    t[x as usize]
}

pub fn key_perm_lookup(j: usize) -> (p: usize)
    requires
        j < 16,
    ensures
        p as int == spec_key_perm()[j as int],
        p < 16,
{
    let t: [usize; 16] = [9, 15, 8, 13, 10, 14, 12, 11, 0, 1, 2, 3, 4, 5, 6, 7];
    proof {
        assert(t@.map_values(|v: usize| v as int) =~= spec_key_perm());
    }
    t[j]
}

pub fn round_constant(r: usize) -> (c: u8)
    requires
        r < spec_max_rounds(),
    ensures
        c == spec_round_constants()[r as int],
{
    let t: [u8; 48] = [
        0x01, 0x03, 0x07, 0x0f, 0x1f, 0x3e, 0x3d, 0x3b, 0x37, 0x2f, 0x1e, 0x3c, 0x39, 0x33,
        0x27, 0x0e, 0x1d, 0x3a, 0x35, 0x2b, 0x16, 0x2c, 0x18, 0x30, 0x21, 0x02, 0x05, 0x0b,
        0x17, 0x2e, 0x1c, 0x38, 0x31, 0x23, 0x06, 0x0d, 0x1b, 0x36, 0x2d, 0x1a, 0x34, 0x29,
        0x12, 0x24, 0x08, 0x11, 0x22, 0x04,
    ];
    proof {
        assert(t@ =~= spec_round_constants());
    }
    t[r]
}

/// Every substitution-table entry is itself a nibble.
pub proof fn lemma_sbox_all_nibbles()
    ensures
        forall|i: int| 0 <= i < 16 ==> spec_sbox()[i] < 16,
{
}

/// Unpacks a byte buffer into a nibble vector, high nibble of each byte
/// first.
pub fn unpack_bytes(bytes: &[u8]) -> (nibs: Vec<u8>)
    ensures
        nibs@ == unpack_nibbles(bytes@),
{
    let mut nibs: Vec<u8> = Vec::new();
    let mut i: usize = 0;
    while i < bytes.len()
        invariant
            i <= bytes@.len(),
            nibs@.len() == 2 * i,
            forall|j: int| 0 <= j < 2 * i ==> nibs@[j] == unpack_nibbles(bytes@)[j],
        decreases bytes@.len() - i,
    {
        let b = bytes[i];
        nibs.push(b >> 4);
        nibs.push(b & 0xf);
        i = i + 1;
    }
    proof {
        assert(nibs@ =~= unpack_nibbles(bytes@));
    }
    nibs
}

} // verus!
