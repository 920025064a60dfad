use mopro_ffi::adapters::MoproError;
use mopro_ffi::halo2::{
    deserialize_circuit_inputs, halo2_key_paths, halo2_prove_output, halo2_verify_result, parse_u128,
    Halo2Call, Halo2Output,
};

#[test]
fn test_circuit_inputs_deserialization() {
    let serialized = vec![("out".to_string(), vec!["1".to_string(), "2".to_string()])];
    let deserialized = deserialize_circuit_inputs(&serialized);
    assert_eq!(deserialized.len(), 1);
    assert_eq!(deserialized[0].0, "out");
    assert_eq!(deserialized[0].1.len(), 2);
    assert_eq!(deserialized[0].1[0], 1);
    assert_eq!(deserialized[0].1[1], 2);
}

#[test]
fn decimal_parsing_follows_u128_from_str() {
    assert_eq!(parse_u128("0"), Some(0));
    assert_eq!(parse_u128("+55"), Some(55));
    assert_eq!(parse_u128("007"), Some(7));
    assert_eq!(parse_u128("340282366920938463463374607431768211455"), Some(u128::MAX));
    assert_eq!(parse_u128("340282366920938463463374607431768211456"), None);
    assert_eq!(parse_u128(""), None);
    assert_eq!(parse_u128("+"), None);
    assert_eq!(parse_u128("-1"), None);
    assert_eq!(parse_u128("12a"), None);
    assert_eq!(parse_u128(" 1"), None);
    for s in ["0", "+1", "99", "1x", "", "184467440737095516160"] {
        assert_eq!(parse_u128(s), s.parse::<u128>().ok());
    }
}

#[test]
fn prove_results_are_wrapped() {
    let ok = halo2_prove_output(Ok((vec![1, 2], vec![3])));
    assert_eq!(ok, Ok(Halo2Output { proof: vec![1, 2], public_inputs: vec![3] }));
    let err = halo2_prove_output(Err("bad".to_string()));
    assert_eq!(err, Err(MoproError::ProverError("bad".to_string())));
    assert_eq!(halo2_verify_result(Ok(true)), Ok(true));
    assert_eq!(
        halo2_verify_result(Err("no".to_string())),
        Err(MoproError::VerifierError("no".to_string()))
    );
}

#[test]
fn prove_gets_the_proving_key_and_verify_the_verifying_key() {
    let (srs, key) = halo2_key_paths(Halo2Call::Prove, "srs.bin", "pk.bin", "vk.bin");
    assert_eq!((srs.as_str(), key.as_str()), ("srs.bin", "pk.bin"));
    let (srs, key) = halo2_key_paths(Halo2Call::Verify, "srs.bin", "pk.bin", "vk.bin");
    assert_eq!((srs.as_str(), key.as_str()), ("srs.bin", "vk.bin"));
}
