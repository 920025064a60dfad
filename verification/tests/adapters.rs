use mopro_ffi::adapters::{MoproError, NoirProverAdapter, ProofLib};
use mopro_ffi::ethereum::{to_ethereum_proof, CircomProof, G1, G2};
use mopro_ffi::uniffi_example::{add, hello};

fn message() -> String {
    "noir-adapter: compile with --features barretenberg to enable".to_string()
}

#[test]
fn noir_adapter_keeps_its_configuration() {
    let adapter = NoirProverAdapter::new(
        "circuit.json".to_string(),
        Some("srs.bin".to_string()),
        vec![1, 2, 3],
        true,
        false,
    );
    assert_eq!(adapter.circuit_path(), "circuit.json");
    assert_eq!(adapter.srs_path(), Some("srs.bin"));
    assert_eq!(adapter.vk(), &vec![1, 2, 3]);
    assert!(adapter.on_chain());
    assert!(!adapter.low_memory_mode());
    let without_srs = NoirProverAdapter::new("c.json".to_string(), None, vec![], false, true);
    assert_eq!(without_srs.srs_path(), None);
    assert!(without_srs.low_memory_mode());
}

#[test]
fn noir_adapter_without_engine_refuses() {
    let adapter = NoirProverAdapter::new("c.json".to_string(), None, vec![], false, false);
    assert_eq!(adapter.prove(vec!["3".to_string()]), Err(MoproError::ProverError(message())));
    assert_eq!(adapter.verify(&vec![0u8]), Err(MoproError::ProverError(message())));
    assert_eq!(
        NoirProverAdapter::compute_vk("c.json".to_string(), None, true, false),
        Err(MoproError::ProverError(message()))
    );
}

#[test]
fn proof_lib_defaults_to_arkworks() {
    assert_eq!(ProofLib::default(), ProofLib::Arkworks);
}

#[test]
fn ethereum_calldata_keeps_coordinates_and_drops_z() {
    let proof = CircomProof {
        a: G1 { x: "1".to_string(), y: "2".to_string(), z: Some("1".to_string()) },
        b: G2 {
            x: vec!["3".to_string(), "4".to_string()],
            y: vec!["5".to_string(), "6".to_string()],
            z: Some(vec!["1".to_string(), "0".to_string()]),
        },
        c: G1 { x: "7".to_string(), y: "8".to_string(), z: Some("1".to_string()) },
        protocol: "groth16".to_string(),
        curve: "bn128".to_string(),
    };
    let calldata = to_ethereum_proof(proof);
    assert_eq!(calldata.a, G1 { x: "1".to_string(), y: "2".to_string(), z: None });
    assert_eq!(calldata.b.x, vec!["3".to_string(), "4".to_string()]);
    assert_eq!(calldata.b.y, vec!["5".to_string(), "6".to_string()]);
    assert_eq!(calldata.b.z, None);
    assert_eq!(calldata.c.y, "8");
}

#[test]
fn uniffi_example_functions() {
    assert_eq!(add(2, 3), 5);
    assert_eq!(hello(), "This is a hello from the rust library");
}
