use ark_bls12_381::Bls12_381;
use ark_bn254::Bn254;
use ark_groth16::Proof;
use ark_serialize::{CanonicalDeserialize, CanonicalSerialize};
use mopro_ffi::ethereum::{
    from_ethereum_inputs, from_ethereum_inputs_checked, from_ethereum_proof,
    from_ethereum_proof_checked, to_ethereum_inputs, to_ethereum_proof, CircomProof,
    EthereumError, G1, G2,
};
use num_bigint::BigUint;
use std::str::FromStr;

const BN254_PROOF: [u8; 256] = [
    22, 2, 28, 144, 134, 93, 1, 6, 180, 134, 137, 11, 130, 217, 116, 35, 22, 58, 213, 215, 39, 9,
    76, 99, 93, 46, 166, 183, 200, 20, 234, 26, 86, 182, 126, 104, 167, 218, 67, 106, 232, 177,
    113, 76, 217, 110, 167, 101, 215, 168, 67, 23, 2, 2, 50, 131, 103, 159, 241, 197, 1, 75, 72,
    154, 107, 226, 61, 6, 227, 5, 193, 103, 229, 40, 232, 183, 170, 218, 136, 73, 194, 166, 135,
    22, 128, 83, 94, 84, 179, 66, 38, 17, 200, 0, 107, 4, 237, 57, 13, 157, 153, 39, 204, 59, 155,
    91, 76, 89, 209, 195, 76, 165, 72, 165, 188, 119, 12, 210, 184, 168, 78, 56, 125, 146, 97, 253,
    159, 42, 16, 203, 73, 47, 174, 29, 163, 124, 34, 156, 218, 243, 97, 226, 65, 123, 95, 132, 40,
    158, 63, 255, 94, 39, 196, 45, 251, 145, 188, 37, 155, 16, 201, 208, 50, 33, 199, 98, 119, 172,
    71, 240, 191, 110, 243, 225, 180, 215, 97, 98, 252, 124, 220, 169, 163, 130, 43, 114, 242, 40,
    46, 60, 6, 5, 51, 186, 24, 73, 62, 221, 213, 61, 116, 62, 159, 150, 165, 183, 78, 86, 26, 236,
    214, 9, 54, 152, 13, 135, 124, 137, 89, 119, 212, 15, 212, 24, 181, 54, 115, 197, 150, 31, 22,
    150, 210, 187, 28, 94, 109, 138, 22, 234, 67, 58, 115, 199, 93, 121, 182, 221, 62, 212, 88, 84,
    103, 215, 109, 154,
];

const BLS12_381_PROOF: [u8; 384] = [
    16, 28, 122, 199, 113, 31, 65, 38, 244, 34, 43, 54, 217, 128, 117, 94, 46, 251, 124, 92, 238,
    21, 116, 67, 76, 253, 25, 14, 245, 71, 165, 245, 77, 128, 31, 74, 244, 168, 231, 74, 230, 29,
    0, 205, 114, 129, 181, 0, 10, 185, 151, 173, 216, 44, 240, 213, 252, 154, 21, 139, 128, 65, 12,
    63, 186, 95, 93, 228, 224, 88, 210, 206, 124, 0, 62, 59, 33, 172, 160, 48, 18, 229, 162, 90,
    156, 80, 167, 160, 50, 94, 218, 143, 249, 97, 83, 87, 18, 146, 222, 45, 247, 74, 121, 222, 241,
    6, 178, 104, 230, 92, 178, 152, 36, 26, 5, 250, 252, 129, 220, 63, 200, 89, 51, 109, 10, 136,
    77, 38, 73, 214, 24, 44, 248, 159, 246, 202, 68, 57, 190, 126, 154, 57, 44, 140, 23, 189, 98,
    18, 30, 4, 123, 229, 206, 30, 54, 47, 96, 142, 197, 69, 147, 171, 129, 153, 239, 53, 185, 254,
    17, 101, 204, 193, 222, 75, 106, 243, 69, 157, 201, 227, 245, 179, 110, 227, 98, 223, 44, 15,
    155, 26, 135, 89, 9, 236, 135, 147, 116, 202, 150, 158, 72, 34, 160, 39, 140, 34, 127, 249, 86,
    205, 208, 198, 45, 122, 121, 208, 114, 191, 124, 9, 79, 158, 83, 163, 19, 240, 8, 105, 160,
    120, 63, 66, 118, 52, 78, 74, 124, 86, 83, 215, 4, 59, 74, 78, 102, 255, 112, 228, 243, 134,
    174, 65, 230, 214, 2, 205, 16, 134, 64, 198, 131, 204, 199, 224, 180, 132, 5, 107, 233, 51,
    155, 131, 184, 35, 58, 53, 203, 231, 187, 151, 172, 243, 108, 170, 223, 46, 99, 32, 12, 139,
    70, 189, 230, 72, 37, 173, 24, 159, 136, 212, 111, 126, 203, 65, 195, 186, 25, 105, 160, 44,
    154, 229, 134, 128, 183, 187, 173, 246, 240, 98, 181, 151, 124, 128, 146, 91, 126, 203, 153, 7,
    97, 123, 46, 169, 23, 99, 13, 26, 5, 75, 129, 102, 25, 29, 223, 111, 164, 134, 237, 117, 13,
    227, 152, 53, 33, 8, 232, 65, 97, 52, 71, 154, 156, 43, 49, 34, 143, 66, 4, 9, 3, 245, 230, 175,
    97, 172, 245, 106, 33, 234, 179, 82, 146, 129,
];

fn dec<F: Into<BigUint>>(f: F) -> String {
    f.into().to_string()
}

fn one_zero() -> Vec<String> {
    vec!["1".to_string(), "0".to_string()]
}

/// The BN254 proof of `raw` with its coordinates as decimals and `z` = 1, the
/// way circom writes projective points.
fn bn254_circom_proof(raw: &[u8], curve: &str) -> CircomProof {
    let p = Proof::<Bn254>::deserialize_uncompressed(raw).unwrap();
    CircomProof {
        a: G1 { x: dec(p.a.x), y: dec(p.a.y), z: Some("1".to_string()) },
        b: G2 {
            x: vec![dec(p.b.x.c0), dec(p.b.x.c1)],
            y: vec![dec(p.b.y.c0), dec(p.b.y.c1)],
            z: Some(one_zero()),
        },
        c: G1 { x: dec(p.c.x), y: dec(p.c.y), z: Some("1".to_string()) },
        protocol: "groth16".to_string(),
        curve: curve.to_string(),
    }
}

/// As `bn254_circom_proof`, for BLS12-381.
fn bls12_381_circom_proof(raw: &[u8], curve: &str) -> CircomProof {
    let p = Proof::<Bls12_381>::deserialize_uncompressed(raw).unwrap();
    CircomProof {
        a: G1 { x: dec(p.a.x), y: dec(p.a.y), z: Some("1".to_string()) },
        b: G2 {
            x: vec![dec(p.b.x.c0), dec(p.b.x.c1)],
            y: vec![dec(p.b.y.c0), dec(p.b.y.c1)],
            z: Some(one_zero()),
        },
        c: G1 { x: dec(p.c.x), y: dec(p.c.y), z: Some("1".to_string()) },
        protocol: "groth16".to_string(),
        curve: curve.to_string(),
    }
}

fn bn254_bytes(p: &CircomProof) -> Vec<u8> {
    let fq = |s: &String| ark_bn254::Fq::from_str(s).unwrap();
    let proof = Proof::<Bn254> {
        a: ark_bn254::G1Affine::new_unchecked(fq(&p.a.x), fq(&p.a.y)),
        b: ark_bn254::G2Affine::new_unchecked(
            ark_bn254::Fq2::new(fq(&p.b.x[0]), fq(&p.b.x[1])),
            ark_bn254::Fq2::new(fq(&p.b.y[0]), fq(&p.b.y[1])),
        ),
        c: ark_bn254::G1Affine::new_unchecked(fq(&p.c.x), fq(&p.c.y)),
    };
    let mut out = Vec::new();
    proof.serialize_uncompressed(&mut out).unwrap();
    out
}

fn bls12_381_bytes(p: &CircomProof) -> Vec<u8> {
    let fq = |s: &String| ark_bls12_381::Fq::from_str(s).unwrap();
    let proof = Proof::<Bls12_381> {
        a: ark_bls12_381::G1Affine::new_unchecked(fq(&p.a.x), fq(&p.a.y)),
        b: ark_bls12_381::G2Affine::new_unchecked(
            ark_bls12_381::Fq2::new(fq(&p.b.x[0]), fq(&p.b.x[1])),
            ark_bls12_381::Fq2::new(fq(&p.b.y[0]), fq(&p.b.y[1])),
        ),
        c: ark_bls12_381::G1Affine::new_unchecked(fq(&p.c.x), fq(&p.c.y)),
    };
    let mut out = Vec::new();
    proof.serialize_uncompressed(&mut out).unwrap();
    out
}

fn strings(v: &[&str]) -> Vec<String> {
    v.iter().map(|s| s.to_string()).collect()
}

#[test]
fn test_not_supported_curve() {
    let p = bn254_circom_proof(&BN254_PROOF, "bn128");
    let proof = to_ethereum_proof(p);
    let result = from_ethereum_proof(proof, "bls12377");
    assert!(result.is_err());

    let raw_inputs = vec![
        1, 0, 0, 0, 0, 0, 0, 0, 0, 0, 0, 0, 0, 0, 0, 0, 0, 0, 0, 0, 0, 0, 0, 0, 0, 0, 0, 0, 0, 0, 0,
        0, 0, 0, 0, 0, 0, 0, 0, 0,
    ];
    let result = to_ethereum_inputs(&raw_inputs, "bls12377");
    assert!(result.is_err());

    let result = from_ethereum_inputs(&vec!["1".to_string()], "bls12377");
    assert!(result.is_err());
}

#[test]
fn ethereum_test_to_ethereum_proof() {
    let circom = bn254_circom_proof(&BN254_PROOF, "bn128");
    let proof = to_ethereum_proof(circom.clone());
    assert!(!proof.a.x.is_empty());
    assert!(!proof.a.y.is_empty());
    assert!(!proof.b.x.is_empty());
    assert!(!proof.b.y.is_empty());
    assert!(!proof.c.x.is_empty());
    assert!(!proof.c.y.is_empty());

    let converted = from_ethereum_proof(proof, "bn128").unwrap();
    assert_eq!(converted, circom);
    assert_eq!(bn254_bytes(&converted), BN254_PROOF.to_vec());
}

#[test]
fn ethereum_test_to_ethereum_inputs() {
    let raw_inputs = vec![
        2, 0, 0, 0, 0, 0, 0, 0, 0, 0, 0, 240, 147, 245, 225, 67, 145, 112, 185, 121, 72, 232, 51,
        40, 93, 88, 129, 129, 182, 69, 80, 184, 41, 160, 49, 225, 114, 78, 100, 48, 0, 0, 0, 240,
        147, 245, 225, 67, 145, 112, 185, 121, 72, 232, 51, 40, 93, 88, 129, 129, 182, 69, 80, 184,
        41, 160, 49, 225, 114, 78, 100, 48,
    ];
    let inputs = to_ethereum_inputs(&raw_inputs, "bn128").unwrap();
    let expected_inputs = vec![
        "21888242871839275222246405745257275088548364400416034343698204186575808495616",
        "21888242871839275222246405745257275088548364400416034343698204186575808495616",
    ];
    assert_eq!(inputs, expected_inputs);

    let converted_inputs = from_ethereum_inputs(&inputs, "bn128").unwrap();
    assert_eq!(raw_inputs, converted_inputs);
}

#[test]
fn ethereum_test_to_ethereum_inputs_with_zero() {
    let raw_inputs = vec![
        1, 0, 0, 0, 0, 0, 0, 0, 0, 0, 0, 0, 0, 0, 0, 0, 0, 0, 0, 0, 0, 0, 0, 0, 0, 0, 0, 0, 0, 0, 0,
        0, 0, 0, 0, 0, 0, 0, 0, 0,
    ];
    let inputs = to_ethereum_inputs(&raw_inputs, "bn128").unwrap();
    let expected_inputs = vec!["0".to_string()];
    assert_eq!(inputs, expected_inputs);

    let converted_inputs = from_ethereum_inputs(&expected_inputs, "bn128").unwrap();
    assert_eq!(raw_inputs, converted_inputs);
}

#[test]
fn bls12381_test_to_ethereum_proof() {
    let circom = bls12_381_circom_proof(&BLS12_381_PROOF, "bn128");
    let proof = to_ethereum_proof(circom.clone());
    assert!(!proof.a.x.is_empty());
    assert!(!proof.a.y.is_empty());
    assert!(!proof.b.x.is_empty());
    assert!(!proof.b.y.is_empty());
    assert!(!proof.c.x.is_empty());
    assert!(!proof.c.y.is_empty());

    let converted = from_ethereum_proof(proof, "bls12381").unwrap();
    assert_eq!(converted.curve, "bls12381");
    assert_eq!(converted.a, circom.a);
    assert_eq!(converted.b, circom.b);
    assert_eq!(converted.c, circom.c);
    assert_eq!(bls12_381_bytes(&converted), BLS12_381_PROOF.to_vec());
}

#[test]
fn bls12381_test_to_ethereum_inputs() {
    let raw_inputs = vec![
        2, 0, 0, 0, 0, 0, 0, 0, 3, 0, 0, 0, 0, 0, 0, 0, 0, 0, 0, 0, 0, 0, 0, 0, 0, 0, 0, 0, 0, 0, 0,
        0, 0, 0, 0, 0, 0, 0, 0, 0, 11, 0, 0, 0, 0, 0, 0, 0, 0, 0, 0, 0, 0, 0, 0, 0, 0, 0, 0, 0, 0,
        0, 0, 0, 0, 0, 0, 0, 0, 0, 0, 0,
    ];
    let inputs = to_ethereum_inputs(&raw_inputs, "bls12381").unwrap();
    let expected_inputs = vec!["3", "11"];
    assert_eq!(inputs, expected_inputs);

    let converted_inputs = from_ethereum_inputs(&inputs, "bls12381").unwrap();
    assert_eq!(raw_inputs, converted_inputs);
}

#[test]
fn bls12381_test_to_ethereum_inputs_with_zero() {
    let raw_inputs = vec![
        1, 0, 0, 0, 0, 0, 0, 0, 0, 0, 0, 0, 0, 0, 0, 0, 0, 0, 0, 0, 0, 0, 0, 0, 0, 0, 0, 0, 0, 0, 0,
        0, 0, 0, 0, 0, 0, 0, 0, 0,
    ];
    let inputs = to_ethereum_inputs(&raw_inputs, "bls12381").unwrap();
    let expected_inputs = vec!["0".to_string()];
    assert_eq!(inputs, expected_inputs);

    let converted_inputs = from_ethereum_inputs(&expected_inputs, "bls12381").unwrap();
    assert_eq!(raw_inputs, converted_inputs);
}

#[test]
fn inputs_at_or_above_the_order_are_reduced() {
    // The BN254 scalar order itself, and the order plus 5.
    let inputs = strings(&[
        "21888242871839275222246405745257275088548364400416034343698204186575808495617",
        "21888242871839275222246405745257275088548364400416034343698204186575808495622",
    ]);
    let out = from_ethereum_inputs(&inputs, "bn128").unwrap();
    let mut expected = vec![2, 0, 0, 0, 0, 0, 0, 0];
    expected.extend_from_slice(&[0u8; 32]);
    expected.push(5);
    expected.extend_from_slice(&[0u8; 31]);
    assert_eq!(out, expected);
}

#[test]
fn empty_inputs_encode_as_a_zero_count() {
    let out = from_ethereum_inputs(&Vec::new(), "bls12381").unwrap();
    assert_eq!(out, vec![0u8; 8]);
    assert_eq!(to_ethereum_inputs(&out, "bls12381").unwrap(), Vec::<String>::new());
}

#[test]
fn unknown_curve_is_refused_before_the_bytes_are_read() {
    assert_eq!(to_ethereum_inputs(&[1, 2, 3], "bn254"), Err(EthereumError::UnsupportedCurve));
}

#[test]
fn checked_conversions_report_what_does_not_parse() {
    assert_eq!(from_ethereum_inputs_checked(&strings(&["12", "x1"]), "bn128"), None);
    assert_eq!(
        from_ethereum_inputs_checked(&strings(&["7"]), "bn128"),
        Some(Ok({
            let mut v = vec![1, 0, 0, 0, 0, 0, 0, 0, 7];
            v.extend_from_slice(&[0u8; 31]);
            v
        }))
    );
    assert_eq!(
        from_ethereum_inputs_checked(&strings(&["7"]), "secp"),
        Some(Err(EthereumError::UnsupportedCurve))
    );

    let mut proof = to_ethereum_proof(bn254_circom_proof(&BN254_PROOF, "bn128"));
    assert!(matches!(from_ethereum_proof_checked(proof.clone(), "bn128"), Some(Ok(_))));
    assert_eq!(
        from_ethereum_proof_checked(proof.clone(), "none"),
        Some(Err(EthereumError::UnsupportedCurve))
    );
    proof.b.y.pop();
    assert_eq!(from_ethereum_proof_checked(proof.clone(), "bn128"), None);
    proof.b.y.push("01".to_string());
    assert_eq!(from_ethereum_proof_checked(proof, "bn128"), None);
}

#[test]
fn serialized_inputs_print_as_the_scalars_do() {
    let mut raw = vec![3, 0, 0, 0, 0, 0, 0, 0];
    raw.extend_from_slice(&[0u8; 32]);
    raw.push(42);
    raw.extend_from_slice(&[0u8; 31]);
    raw.extend_from_slice(&[
        0, 0, 0, 240, 147, 245, 225, 67, 145, 112, 185, 121, 72, 232, 51, 40, 93, 88, 129, 129, 182,
        69, 80, 184, 41, 160, 49, 225, 114, 78, 100, 48,
    ]);
    let texts = mopro_ffi::serialization::to_ethereum_inputs(&raw);
    assert_eq!(
        texts,
        strings(&[
            "",
            "42",
            "21888242871839275222246405745257275088548364400416034343698204186575808495616"
        ])
    );
}

#[test]
fn calldata_coordinates_are_read_as_field_elements() {
    let mut proof = to_ethereum_proof(bn254_circom_proof(&BN254_PROOF, "bn128"));
    // The base-field modulus of BN254 reads as zero, which prints as "0".
    proof.a.x =
        "21888242871839275222246405745257275088696311157297823662689037894645226208583".to_string();
    let converted = from_ethereum_proof(proof, "bn128").unwrap();
    assert_eq!(converted.a.x, "0");
    assert_eq!(converted.a.z, Some("1".to_string()));
    assert_eq!(converted.b.z, Some(one_zero()));
    assert_eq!(converted.protocol, "groth16");
    assert_eq!(converted.curve, "bn128");
}

#[test]
fn decimal_inputs_are_read_by_biguint() {
    // `BigUint::from_str` takes a leading `+`.
    let out = from_ethereum_inputs(&strings(&["+5"]), "bn128").unwrap();
    let mut expected = vec![1, 0, 0, 0, 0, 0, 0, 0, 5];
    expected.extend_from_slice(&[0u8; 31]);
    assert_eq!(out, expected);
}

#[test]
fn biguint_decimals_take_one_plus_and_inner_underscores() {
    let out = from_ethereum_inputs(&strings(&["1_0"]), "bn128").unwrap();
    assert_eq!(out[8], 10);
    assert_eq!(from_ethereum_inputs_checked(&strings(&["++5"]), "bn128"), None);
    assert_eq!(from_ethereum_inputs_checked(&strings(&["_1"]), "bn128"), None);
    assert_eq!(from_ethereum_inputs_checked(&strings(&["+"]), "bn128"), None);
    assert_eq!(from_ethereum_inputs_checked(&strings(&["1a"]), "bn128"), None);
}

#[test]
fn field_decimals_refuse_signs_and_leading_zeros() {
    let proof = to_ethereum_proof(bn254_circom_proof(&BN254_PROOF, "bn128"));
    for bad in ["+1", "007", "", "1_0"] {
        let mut p = proof.clone();
        p.c.y = bad.to_string();
        assert_eq!(from_ethereum_proof_checked(p, "bn128"), None, "{:?}", bad);
    }
    let mut p = proof;
    p.c.y = "0".to_string();
    assert_eq!(from_ethereum_proof(p, "bn128").unwrap().c.y, "0");
}
