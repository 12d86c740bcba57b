use skinny64::CipherError;
use skinny64::TweakeyType;
use skinny64::cipher::mix_columns;
use skinny64::cipher::shift_rows;
use skinny64::cipher::sub_bytes;
use skinny64::key_schedule_64;
use skinny64::skinny64;

fn expand_ok(tweakey: &[u8], rounds: u64, t: TweakeyType) -> Vec<u8> {
    key_schedule_64(tweakey, rounds, t).expect("schedule")
}

fn encrypt_ok(block: &[u8; 8], rounds: u64, keys: &[u8]) -> [u8; 8] {
    skinny64(block, rounds, keys).expect("encrypt")
}

#[test]
fn determinism_expand_and_encrypt() {
    let tweakey: [u8; 16] = [
        0x00, 0x11, 0x22, 0x33, 0x44, 0x55, 0x66, 0x77, 0x88, 0x99, 0xaa, 0xbb, 0xcc, 0xdd,
        0xee, 0xff,
    ];
    let block: [u8; 8] = [0x01, 0x23, 0x45, 0x67, 0x89, 0xab, 0xcd, 0xef];
    let keys_a = expand_ok(&tweakey, 36, TweakeyType::TK2);
    let keys_b = expand_ok(&tweakey, 36, TweakeyType::TK2);
    assert_eq!(keys_a, keys_b);
    let out_a = encrypt_ok(&block, 36, &keys_a);
    let out_b = encrypt_ok(&block, 36, &keys_b);
    assert_eq!(out_a, out_b);
}

#[test]
fn expand_length_every_variant() {
    let tk1: [u8; 8] = [7; 8];
    let tk2: [u8; 16] = [7; 16];
    let tk3: [u8; 24] = [7; 24];
    for rounds in [0u64, 1, 17, 48] {
        let expected: usize = 16 * rounds as usize;
        assert_eq!(expand_ok(&tk1, rounds, TweakeyType::TK1).len(), expected);
        assert_eq!(expand_ok(&tk2, rounds, TweakeyType::TK2).len(), expected);
        assert_eq!(expand_ok(&tk3, rounds, TweakeyType::TK3).len(), expected);
    }
}

#[test]
fn expand_yields_nibbles_only() {
    let tweakey: [u8; 24] = [
        0xff, 0xee, 0xdd, 0xcc, 0xbb, 0xaa, 0x99, 0x88, 0x77, 0x66, 0x55, 0x44, 0x33, 0x22,
        0x11, 0x00, 0xf0, 0x0f, 0xa5, 0x5a, 0xc3, 0x3c, 0x96, 0x69,
    ];
    for nib in expand_ok(&tweakey, 48, TweakeyType::TK3) {
        assert!(nib < 16);
    }
}

#[test]
fn encrypt_returns_eight_bytes() {
    let keys = expand_ok(&[0u8; 8], 32, TweakeyType::TK1);
    let out = encrypt_ok(&[0u8; 8], 32, &keys);
    assert_eq!(out.len(), 8);
}

#[test]
fn avalanche_single_bit_flip() {
    let keys = expand_ok(&[0u8; 8], 32, TweakeyType::TK1);
    let base: [u8; 8] = [0u8; 8];
    let mut flipped: [u8; 8] = base;
    flipped[0] ^= 0x01;
    let out_a = encrypt_ok(&base, 32, &keys);
    let out_b = encrypt_ok(&flipped, 32, &keys);
    let mut diff: u32 = 0;
    for i in 0..8 {
        diff += (out_a[i] ^ out_b[i]).count_ones();
    }
    // Roughly half of the 64 output bits should change.
    assert!(diff >= 16 && diff <= 48, "diff bits: {}", diff);
}

#[test]
fn round_zero_single_active_cells() {
    // Unpacked tweakey nibbles: 1, 2, 3, 4, 5, 6, 7, 8, 9, ...
    let tweakey: [u8; 8] = [0x12, 0x34, 0x56, 0x78, 0x9a, 0xbc, 0xde, 0xf0];
    let keys = expand_ok(&tweakey, 1, TweakeyType::TK1);
    // Cells 1..8 are the raw unpacked nibbles; cell 0 took the round-0
    // constant 0x01, cell 4 its (zero) high nibble; cell 8 the bit 0b0010.
    assert_eq!(keys, vec![0x1 ^ 0x1, 2, 3, 4, 5, 6, 7, 8, 2, 0, 0, 0, 0, 0, 0, 0]);
    let raw_nibbles: [u8; 8] = [1, 2, 3, 4, 5, 6, 7, 8];
    for i in 1..8 {
        if i != 4 {
            assert_eq!(keys[i], raw_nibbles[i]);
        }
    }
}

#[test]
fn constant_injection_at_position_eight() {
    let tweakey: [u8; 16] = [
        0x31, 0x41, 0x59, 0x26, 0x53, 0x58, 0x97, 0x93, 0x23, 0x84, 0x62, 0x64, 0x33, 0x83,
        0x27, 0x95,
    ];
    let keys = expand_ok(&tweakey, 48, TweakeyType::TK2);
    for r in 0..48 {
        assert_eq!(keys[16 * r + 8], 0x2);
        for j in 9..16 {
            assert_eq!(keys[16 * r + j], 0);
        }
    }
}

#[test]
fn known_answer_single_all_zero() {
    let keys = expand_ok(&[0u8; 8], 32, TweakeyType::TK1);
    let out = encrypt_ok(&[0u8; 8], 32, &keys);
    assert_eq!(out, [0xe3, 0x77, 0xbd, 0x61, 0x4c, 0xcc, 0xae, 0xd7]);
}

#[test]
fn known_answer_double_all_zero() {
    let keys = expand_ok(&[0u8; 16], 36, TweakeyType::TK2);
    let out = encrypt_ok(&[0u8; 8], 36, &keys);
    assert_eq!(out, [0x65, 0xd7, 0xcf, 0xf5, 0x0b, 0x2b, 0xf5, 0xb8]);
}

#[test]
fn known_answer_triple_all_zero() {
    let keys = expand_ok(&[0u8; 24], 40, TweakeyType::TK3);
    let out = encrypt_ok(&[0u8; 8], 40, &keys);
    assert_eq!(out, [0x4b, 0xf5, 0x01, 0x73, 0x7e, 0x54, 0xab, 0x63]);
}

#[test]
fn known_answer_single_nonzero_key() {
    let tweakey: [u8; 8] = [0xf5, 0x26, 0x98, 0x26, 0xfc, 0x68, 0x12, 0x38];
    let block: [u8; 8] = [0x06, 0x03, 0x4f, 0x95, 0x77, 0x24, 0xd1, 0x9d];
    let keys = expand_ok(&tweakey, 32, TweakeyType::TK1);
    let out = encrypt_ok(&block, 32, &keys);
    assert_eq!(out, [0xbb, 0x39, 0xdf, 0xb2, 0x42, 0x9b, 0x8a, 0xc7]);
}

#[test]
fn known_answer_triple_nonzero_key() {
    let tweakey: [u8; 24] = [
        0, 1, 2, 3, 4, 5, 6, 7, 8, 9, 10, 11, 12, 13, 14, 15, 16, 17, 18, 19, 20, 21, 22, 23,
    ];
    let block: [u8; 8] = [0x01, 0x23, 0x45, 0x67, 0x89, 0xab, 0xcd, 0xef];
    let keys = expand_ok(&tweakey, 40, TweakeyType::TK3);
    let out = encrypt_ok(&block, 40, &keys);
    assert_eq!(out, [0x16, 0xb8, 0xca, 0xda, 0x24, 0x24, 0x36, 0xda]);
}

#[test]
fn exact_schedule_double_three_rounds() {
    let tweakey: [u8; 16] = [0, 1, 2, 3, 4, 5, 6, 7, 8, 9, 10, 11, 12, 13, 14, 15];
    let keys = expand_ok(&tweakey, 3, TweakeyType::TK2);
    assert_eq!(
        keys,
        vec![
            1, 8, 0, 8, 0, 8, 0, 8, 2, 0, 0, 0, 0, 0, 0, 0, 15, 9, 0, 10, 0, 0, 0, 15, 2, 0,
            0, 0, 0, 0, 0, 0, 5, 12, 0, 9, 0, 0, 0, 7, 2, 0, 0, 0, 0, 0, 0, 0,
        ]
    );
}

#[test]
fn round_count_zero_is_identity() {
    let keys = expand_ok(&[0x5a; 8], 0, TweakeyType::TK1);
    assert!(keys.is_empty());
    let block: [u8; 8] = [0xde, 0xad, 0xbe, 0xef, 0x00, 0x11, 0x22, 0x33];
    let out = encrypt_ok(&block, 0, &keys);
    assert_eq!(out, block);
}

#[test]
fn mix_columns_ordering_markers() {
    // Distinct markers down column 0: rows 0..4 hold 1, 2, 3, 4.
    let mut state: [u8; 16] = [0; 16];
    state[0] = 1;
    state[4] = 2;
    state[8] = 3;
    state[12] = 4;
    let out = mix_columns(&state);
    // New row 3 = 1 ^ 3; new row 2 = 2 ^ 3; new row 1 = 1; and new row 0
    // must use the already-updated new row 3: 4 ^ (1 ^ 3) = 6, not
    // 4 ^ 4 = 0 as reading the original row 3 would give.
    assert_eq!(out[12], 1 ^ 3);
    assert_eq!(out[8], 2 ^ 3);
    assert_eq!(out[4], 1);
    assert_eq!(out[0], 4 ^ (1 ^ 3));
    assert_ne!(out[0], 0);
}

#[test]
fn shift_rows_rotates_each_row_right() {
    let state: [u8; 16] = [0, 1, 2, 3, 4, 5, 6, 7, 8, 9, 10, 11, 12, 13, 14, 15];
    let out = shift_rows(&state);
    assert_eq!(out[0..4], [0, 1, 2, 3]);
    assert_eq!(out[4..8], [7, 4, 5, 6]);
    assert_eq!(out[8..12], [10, 11, 8, 9]);
    assert_eq!(out[12..16], [13, 14, 15, 12]);
}

#[test]
fn sub_bytes_applies_table() {
    let state: [u8; 16] = [0, 1, 2, 3, 4, 5, 6, 7, 8, 9, 10, 11, 12, 13, 14, 15];
    let out = sub_bytes(&state);
    assert_eq!(
        out,
        [0xc, 0x6, 0x9, 0x0, 0x1, 0xa, 0x2, 0xb, 0x3, 0x8, 0x5, 0xd, 0x4, 0xe, 0x7, 0xf]
    );
}

#[test]
fn tweakey_length_mismatch_is_reported() {
    let short: [u8; 7] = [0; 7];
    let eight: [u8; 8] = [0; 8];
    let long: [u8; 25] = [0; 25];
    assert_eq!(
        key_schedule_64(&short, 4, TweakeyType::TK1),
        Err(CipherError::TweakeyLengthMismatch)
    );
    assert_eq!(
        key_schedule_64(&eight, 4, TweakeyType::TK2),
        Err(CipherError::TweakeyLengthMismatch)
    );
    assert_eq!(
        key_schedule_64(&long, 4, TweakeyType::TK3),
        Err(CipherError::TweakeyLengthMismatch)
    );
}

#[test]
fn round_count_beyond_constant_table_is_reported() {
    let tweakey: [u8; 8] = [0; 8];
    assert_eq!(
        key_schedule_64(&tweakey, 49, TweakeyType::TK1),
        Err(CipherError::RoundCountTooLarge)
    );
    assert!(key_schedule_64(&tweakey, 48, TweakeyType::TK1).is_ok());
}

#[test]
fn short_round_keys_are_reported() {
    let keys = expand_ok(&[0u8; 8], 2, TweakeyType::TK1);
    let block: [u8; 8] = [0; 8];
    assert_eq!(
        skinny64(&block, 3, &keys),
        Err(CipherError::RoundKeysTooShort)
    );
    assert!(skinny64(&block, 2, &keys).is_ok());
}
