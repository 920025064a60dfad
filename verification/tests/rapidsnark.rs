use mopro_ffi::rapidsnark::witness_bytes;

#[test]
fn witness_words_are_padded_or_cut_to_32_bytes() {
    let words = vec![vec![1u8, 2], vec![7u8; 33], vec![]];
    let out = witness_bytes(&words);
    assert_eq!(out.len(), 96);
    assert_eq!(&out[0..2], &[1, 2]);
    assert!(out[2..32].iter().all(|b| *b == 0));
    assert!(out[32..64].iter().all(|b| *b == 7));
    assert!(out[64..96].iter().all(|b| *b == 0));
    assert!(witness_bytes(&[]).is_empty());
}

use ark_ff::BigInteger;
use mopro_ffi::rapidsnark::rapidsnark_vkey;
use mopro_ffi::zkey::{G1Point, G2Point, ZkeyVerifyingKey};

/// The Montgomery bytes of the BN254 base-field element `n`, as a zkey stores it.
fn mont(n: u64) -> Vec<u8> {
    ark_bn254::Fq::from(n).0.to_bytes_le()
}

fn g1(x: u64, y: u64) -> G1Point {
    G1Point { x: mont(x), y: mont(y), infinity: false }
}

fn g2(a: u64, b: u64, c: u64, d: u64) -> G2Point {
    G2Point { x_c0: mont(a), x_c1: mont(b), y_c0: mont(c), y_c1: mont(d), infinity: false }
}

fn row(v: &[&str]) -> Vec<String> {
    v.iter().map(|s| s.to_string()).collect()
}

#[test]
fn verifying_key_in_snarkjs_layout() {
    let vk = ZkeyVerifyingKey {
        alpha_g1: g1(1, 2),
        beta_g2: g2(3, 4, 5, 6),
        gamma_g2: g2(7, 8, 9, 10),
        delta_g2: g2(11, 12, 13, 14),
        gamma_abc_g1: vec![g1(15, 16), g1(17, 18)],
    };
    let key = rapidsnark_vkey(&vk);
    assert_eq!(key.protocol, "groth16");
    assert_eq!(key.curve, "bn128");
    assert_eq!(key.n_public, 0);
    assert_eq!(key.vk_alpha_1, row(&["1", "2", "1"]));
    assert_eq!(key.vk_beta_2, vec![row(&["3", "4"]), row(&["5", "6"]), row(&["1", "0"])]);
    assert_eq!(key.vk_gamma_2, vec![row(&["7", "8"]), row(&["9", "10"]), row(&["1", "0"])]);
    assert_eq!(key.vk_delta_2, vec![row(&["11", "12"]), row(&["13", "14"]), row(&["1", "0"])]);
    assert_eq!(key.ic, vec![row(&["15", "16", "1"]), row(&["17", "18", "1"])]);
}

#[test]
fn verifying_key_coordinates_are_read_from_montgomery_form() {
    // The stored bytes of 1 are R mod p, not 1; zero prints as nothing.
    let one = mont(1);
    assert_ne!(one, {
        let mut v = vec![1u8];
        v.extend_from_slice(&[0u8; 31]);
        v
    });
    let vk = ZkeyVerifyingKey {
        alpha_g1: G1Point { x: vec![0u8; 32], y: one, infinity: false },
        beta_g2: g2(0, 0, 0, 0),
        gamma_g2: g2(0, 0, 0, 0),
        delta_g2: g2(0, 0, 0, 0),
        gamma_abc_g1: vec![],
    };
    let key = rapidsnark_vkey(&vk);
    assert_eq!(key.vk_alpha_1, row(&["", "1", "1"]));
    assert_eq!(key.vk_beta_2[0], row(&["", ""]));
    assert!(key.ic.is_empty());
}
