use mopro_ffi::zkey_header::ZkeyHeaderReader;
use num_bigint::BigUint;
use ark_ff::PrimeField;

fn push_u32(v: &mut Vec<u8>, x: u32) {
    v.extend_from_slice(&x.to_le_bytes());
}

fn header_bytes(q: &[u8], r: &[u8]) -> Vec<u8> {
    let mut v = b"zkey".to_vec();
    push_u32(&mut v, 1);
    push_u32(&mut v, 10);
    push_u32(&mut v, 1);
    v.extend_from_slice(&4u64.to_le_bytes());
    push_u32(&mut v, 1);
    push_u32(&mut v, 2);
    v.extend_from_slice(&0u64.to_le_bytes());
    push_u32(&mut v, q.len() as u32);
    v.extend_from_slice(q);
    push_u32(&mut v, r.len() as u32);
    v.extend_from_slice(r);
    push_u32(&mut v, 7);
    push_u32(&mut v, 2);
    push_u32(&mut v, 16);
    v.resize(512, 0);
    v
}

#[test]
fn header_of_a_bn254_key() {
    let q = BigUint::from(ark_bn254::Fq::MODULUS).to_bytes_le();
    let r = BigUint::from(ark_bn254::Fr::MODULUS).to_bytes_le();
    let mut reader = ZkeyHeaderReader::new("circuit.zkey");
    let bytes = header_bytes(&q, &r);
    assert!(reader.parses(&bytes));
    reader.read_bytes(bytes);
    assert_eq!(reader.n8q, 32);
    assert_eq!(reader.n8r, 32);
    assert_eq!(BigUint::from_bytes_le(&reader.q), BigUint::from(ark_bn254::Fq::MODULUS));
    assert_eq!(BigUint::from_bytes_le(&reader.r), BigUint::from(ark_bn254::Fr::MODULUS));
    assert_eq!(reader.n_vars(), 7);
    assert_eq!(reader.n_public(), 2);
    assert_eq!(reader.domain_size(), 16);
    assert_eq!(reader.zkey_path(), "circuit.zkey");
}

#[test]
fn header_of_a_bls12_381_key() {
    let q = BigUint::from(ark_bls12_381::Fq::MODULUS).to_bytes_le();
    let r = BigUint::from(ark_bls12_381::Fr::MODULUS).to_bytes_le();
    let mut reader = ZkeyHeaderReader::new("bls.zkey");
    reader.read_bytes(header_bytes(&q, &r));
    assert_eq!(reader.n8q, 48);
    assert_eq!(reader.n8r, 32);
    assert_eq!(BigUint::from_bytes_le(&reader.q), BigUint::from(ark_bls12_381::Fq::MODULUS));
}

#[test]
fn non_groth16_keys_do_not_parse() {
    let mut bytes = header_bytes(&[1u8; 32], &[2u8; 32]);
    bytes[24] = 2; // key type of section 1
    let reader = ZkeyHeaderReader::new("plonk.zkey");
    assert!(!reader.parses(&bytes));
}

#[test]
fn unknown_section_does_not_parse() {
    let mut bytes = header_bytes(&[1u8; 32], &[2u8; 32]);
    bytes[12] = 3; // id of the first section
    let reader = ZkeyHeaderReader::new("x.zkey");
    assert!(!reader.parses(&bytes));
}

#[test]
fn short_data_does_not_parse() {
    let reader = ZkeyHeaderReader::new("x.zkey");
    assert!(!reader.parses(&[0u8; 11]));
}
