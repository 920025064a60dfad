use ark_ff::{BigInteger, PrimeField};
use mopro_ffi::bytes::{read_u32_at, read_u64_at};
use mopro_ffi::zkey::{fr_bytes, BinFile, Curve, ZkeyError};

fn push_u32(v: &mut Vec<u8>, x: u32) {
    v.extend_from_slice(&x.to_le_bytes());
}

fn push_u64(v: &mut Vec<u8>, x: u64) {
    v.extend_from_slice(&x.to_le_bytes());
}

fn element(tag: u8) -> Vec<u8> {
    let mut e = vec![0u8; 32];
    e[0] = tag;
    e[31] = 0x01;
    e
}

/// The stored form of the scalar 1: Montgomery form applied twice.
fn stored_one() -> Vec<u8> {
    let r = ark_bn254::Fr::from(1u64).0;
    let r2 = ark_bn254::Fr::from_bigint(r).unwrap().0;
    r2.to_bytes_le()
}

fn section(out: &mut Vec<u8>, id: u32, body: &[u8]) {
    push_u32(out, id);
    push_u64(out, body.len() as u64);
    out.extend_from_slice(body);
}

fn g1_points(n: usize, tag: u8) -> Vec<u8> {
    let mut v = Vec::new();
    for i in 0..n {
        v.extend(element(tag + 2 * i as u8));
        v.extend(element(tag + 2 * i as u8 + 1));
    }
    v
}

fn g2_points(n: usize, tag: u8) -> Vec<u8> {
    let mut v = Vec::new();
    for i in 0..n {
        for k in 0..4u8 {
            v.extend(element(tag + 4 * i as u8 + k));
        }
    }
    v
}

/// A BN254 zkey with 3 variables, 1 public input and a domain of size 4.
fn sample_zkey() -> Vec<u8> {
    let mut out = Vec::new();
    out.extend_from_slice(b"zkey");
    push_u32(&mut out, 1);
    push_u32(&mut out, 10);
    let mut key_type = Vec::new();
    push_u32(&mut key_type, 1);
    section(&mut out, 1, &key_type);

    let mut header = Vec::new();
    push_u32(&mut header, 32);
    header.extend(element(200));
    push_u32(&mut header, 32);
    header.extend(stored_one());
    push_u32(&mut header, 3);
    push_u32(&mut header, 1);
    push_u32(&mut header, 4);
    header.extend(g1_points(1, 10)); // alpha1
    header.extend(g1_points(1, 12)); // beta1
    header.extend(g2_points(1, 14)); // beta2
    header.extend(g2_points(1, 18)); // gamma2
    header.extend(vec![0u8; 64]); // delta1 at infinity
    header.extend(g2_points(1, 26)); // delta2
    section(&mut out, 2, &header);

    section(&mut out, 3, &g1_points(2, 40));

    let mut coeffs = Vec::new();
    let records: [(u32, u32, u32); 4] = [(0, 0, 1), (1, 0, 2), (0, 1, 0), (0, 3, 1)];
    push_u32(&mut coeffs, records.len() as u32);
    for (m, c, s) in records {
        push_u32(&mut coeffs, m);
        push_u32(&mut coeffs, c);
        push_u32(&mut coeffs, s);
        coeffs.extend(stored_one());
    }
    section(&mut out, 4, &coeffs);
    section(&mut out, 5, &g1_points(3, 50));
    section(&mut out, 6, &g1_points(3, 60));
    section(&mut out, 7, &g2_points(3, 70));
    section(&mut out, 8, &g1_points(1, 90));
    section(&mut out, 9, &g1_points(4, 100));
    section(&mut out, 10, &[]);
    out
}

#[test]
fn little_endian_reads() {
    let data = [1u8, 2, 3, 4, 5, 6, 7, 8, 9];
    assert_eq!(read_u32_at(&data, 0), Some(0x04030201));
    assert_eq!(read_u32_at(&data, 5), Some(0x09080706));
    assert_eq!(read_u32_at(&data, 6), None);
    assert_eq!(read_u64_at(&data, 1), Some(0x0908070605040302));
    assert_eq!(read_u64_at(&data, 2), None);
    assert_eq!(read_u32_at(&data, u64::MAX), None);
}

#[test]
fn scalar_conversion_divides_out_r_twice() {
    let one = fr_bytes(Curve::Bn254, &stored_one());
    let mut expected = vec![0u8; 32];
    expected[0] = 1;
    assert_eq!(one, expected);
    let zero = fr_bytes(Curve::Bls12_381, &[0u8; 32]);
    assert_eq!(zero, vec![0u8; 32]);
}

#[test]
fn section_table_is_read() {
    let file = BinFile::new(sample_zkey(), Curve::Bn254).unwrap();
    assert_eq!(file.ftype, "zkey");
    assert_eq!(file.version, 1);
    let mut ids: Vec<u32> = file.sections.keys().copied().collect();
    ids.sort();
    assert_eq!(ids, vec![1, 2, 3, 4, 5, 6, 7, 8, 9, 10]);
    assert!(file.sections.values().all(|v| v.len() == 1));
    assert_eq!(file.sections[&1][0].position, 24);
    assert_eq!(file.sections[&1][0].size, 4);
    assert_eq!(file.sections[&2][0].position, 24 + 4 + 12);
    assert_eq!(file.get_section(2).position, 40);
}

#[test]
fn truncated_files_are_refused() {
    assert!(matches!(BinFile::new(vec![0u8; 11], Curve::Bn254), Err(ZkeyError::UnexpectedEof)));
    let mut data = b"zkey".to_vec();
    push_u32(&mut data, 1);
    push_u32(&mut data, 1);
    push_u32(&mut data, 1);
    assert!(matches!(BinFile::new(data, Curve::Bn254), Err(ZkeyError::UnexpectedEof)));
}

#[test]
fn negative_seek_is_refused() {
    let mut data = b"zkey".to_vec();
    push_u32(&mut data, 1);
    push_u32(&mut data, 1);
    push_u32(&mut data, 1);
    push_u64(&mut data, u64::MAX - 100);
    assert!(matches!(BinFile::new(data, Curve::Bn254), Err(ZkeyError::InvalidSeek)));
}

#[test]
fn section_length_seen_as_negative_seeks_back() {
    let mut data = b"zkey".to_vec();
    push_u32(&mut data, 1);
    push_u32(&mut data, 2);
    push_u32(&mut data, 7);
    push_u64(&mut data, u64::MAX - 11); // -12: back to the same header
    let file = BinFile::new(data, Curve::Bn254).unwrap();
    // Both entries read the same header: id 7, content at 24.
    assert_eq!(file.sections.len(), 1);
    let positions: Vec<u64> = file.sections[&7].iter().map(|s| s.position).collect();
    assert_eq!(positions, vec![24, 24]);
}

#[test]
fn groth16_header_is_read() {
    let file = BinFile::new(sample_zkey(), Curve::Bn254).unwrap();
    let h = file.groth_header().unwrap();
    assert_eq!(h.n8q, 32);
    assert_eq!(h.q, element(200));
    assert_eq!(h.n8r, 32);
    let mut one = vec![0u8; 32];
    one[0] = 1;
    assert_eq!(h.r, one);
    assert_eq!(h.n_vars, 3);
    assert_eq!(h.n_public, 1);
    assert_eq!(h.domain_size, 4);
    assert_eq!(h.power, 2);
    assert_eq!(h.alpha_g1.x, element(10));
    assert_eq!(h.alpha_g1.y, element(11));
    assert!(!h.alpha_g1.infinity);
    assert_eq!(h.beta_g2.x_c0, element(14));
    assert_eq!(h.beta_g2.y_c1, element(17));
    assert!(h.delta_g1.infinity);
}

#[test]
fn matrices_are_read_and_truncated() {
    let file = BinFile::new(sample_zkey(), Curve::Bn254).unwrap();
    let m = file.matrices().unwrap();
    assert_eq!(m.num_instance_variables, 2);
    assert_eq!(m.num_witness_variables, 2);
    assert_eq!(m.num_constraints, 2);
    assert_eq!(m.a.len(), 2);
    assert_eq!(m.b.len(), 2);
    let mut one = vec![0u8; 32];
    one[0] = 1;
    assert_eq!(m.a[0].len(), 1);
    assert_eq!(m.a[0][0].signal, 1);
    assert_eq!(m.a[0][0].value, one);
    assert_eq!(m.a[1].len(), 1);
    assert_eq!(m.a[1][0].signal, 0);
    assert_eq!(m.b[0].len(), 1);
    assert_eq!(m.b[0][0].signal, 2);
    assert!(m.b[1].is_empty());
    assert_eq!(m.a_num_non_zero, 2);
    assert_eq!(m.b_num_non_zero, 1);
    assert_eq!(m.c_num_non_zero, 0);
    assert!(m.c.is_empty());
}

#[test]
fn proving_key_is_read() {
    let file = BinFile::new(sample_zkey(), Curve::Bn254).unwrap();
    let pk = file.proving_key().unwrap();
    assert_eq!(pk.vk.gamma_abc_g1.len(), 2);
    assert_eq!(pk.vk.gamma_abc_g1[1].x, element(42));
    assert_eq!(pk.vk.alpha_g1.x, element(10));
    assert_eq!(pk.a_query.len(), 3);
    assert_eq!(pk.b_g1_query.len(), 3);
    assert_eq!(pk.b_g2_query.len(), 3);
    assert_eq!(pk.b_g2_query[2].y_c1, element(70 + 8 + 3));
    assert_eq!(pk.l_query.len(), 1);
    assert_eq!(pk.h_query.len(), 4);
    assert_eq!(pk.h_query[3].y, element(107));
    assert!(pk.delta_g1.infinity);
}

#[test]
fn incomplete_section_table_is_refused() {
    let mut data = sample_zkey();
    // Drop the contributions section header and the last H point.
    let cut = data.len() - 12 - 64;
    data.truncate(cut);
    // The section count still says 10: the table is incomplete.
    assert!(matches!(BinFile::new(data, Curve::Bn254), Err(ZkeyError::UnexpectedEof)));
}

#[test]
fn readiness_checks() {
    let data = sample_zkey();
    let (version, sections) = mopro_ffi::zkey::section_layout(&data).unwrap();
    assert_eq!(version, 1);
    assert_eq!(sections.len(), 10);
    let file = BinFile::new(data, Curve::Bn254).unwrap();
    assert!(file.has_section(9));
    assert!(!file.has_section(11));
    assert!(file.matrices_readable());
    assert!(file.proving_key_readable());
}

#[test]
fn out_of_range_coefficient_is_caught_before_reading() {
    let mut data = sample_zkey();
    let file = BinFile::new(data.clone(), Curve::Bn254).unwrap();
    let base = file.get_section(4).position as usize;
    // Matrix index of the first record set to 2.
    data[base + 4] = 2;
    let file = BinFile::new(data, Curve::Bn254).unwrap();
    assert!(!file.matrices_readable());
}

#[test]
fn header_reader_agrees_with_the_full_reader() {
    let data = sample_zkey();
    let file = BinFile::new(data.clone(), Curve::Bn254).unwrap();
    let h = file.groth_header().unwrap();
    let mut reader = mopro_ffi::zkey_header::ZkeyHeaderReader::new("sample.zkey");
    assert!(reader.parses(&data));
    reader.read_bytes(data);
    assert_eq!(reader.n8q, h.n8q);
    assert_eq!(reader.q, h.q);
    assert_eq!(reader.n8r, h.n8r);
    assert_eq!(reader.n_vars() as usize, h.n_vars);
    assert_eq!(reader.n_public() as usize, h.n_public);
    assert_eq!(reader.domain_size(), h.domain_size);
}

#[test]
fn sections_with_one_id_keep_file_order() {
    let mut data = b"zkey".to_vec();
    push_u32(&mut data, 1);
    push_u32(&mut data, 3);
    push_u32(&mut data, 5);
    push_u64(&mut data, 2);
    data.extend_from_slice(&[0, 0]);
    push_u32(&mut data, 6);
    push_u64(&mut data, 0);
    push_u32(&mut data, 5);
    push_u64(&mut data, 1);
    data.push(0);
    let file = BinFile::new(data, Curve::Bn254).unwrap();
    let fives: Vec<(u64, u64)> = file.sections[&5].iter().map(|s| (s.position, s.size)).collect();
    assert_eq!(fives, vec![(24, 2), (50, 1)]);
    assert_eq!(file.get_section(5).position, 24);
    assert!(file.has_section(6));
    assert!(!file.has_section(4));
}
