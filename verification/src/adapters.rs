//! The result types of the prover adapters, and the Noir adapter as it is
//! built without its Barretenberg engine.

use vstd::prelude::*;
use vstd::string::StringExecFns;

verus! {

/// Why a prover adapter failed.
#[derive(Debug, Clone, PartialEq, Eq)]
pub enum MoproError {
    CircuitNotFound(String),
    InvalidInput(String),
    ProverError(String),
    VerifierError(String),
    SerializationError(String),
}

/// A point of G1 in projective coordinates, each a decimal string.
#[derive(Debug, Clone, Default, PartialEq, Eq)]
pub struct G1 {
    pub x: String,
    pub y: String,
    pub z: String,
}

/// A point of G2 in projective coordinates, each a pair of decimal strings.
#[derive(Debug, Clone, Default, PartialEq, Eq)]
pub struct G2 {
    pub x: Vec<String>,
    pub y: Vec<String>,
    pub z: Vec<String>,
}

/// A Groth16 proof with the protocol and curve it was made with.
#[derive(Debug, Clone, Default, PartialEq, Eq)]
pub struct CircomProof {
    pub a: G1,
    pub b: G2,
    pub c: G1,
    pub protocol: String,
    pub curve: String,
}

/// A Circom proof and its public inputs as decimal strings.
#[derive(Debug, Clone, PartialEq, Eq)]
pub struct CircomOutput {
    pub proof: CircomProof,
    pub public_inputs: Vec<String>,
}

/// The backend that proves and verifies Circom circuits.
#[derive(Debug, Clone, Copy, PartialEq, Eq, Structural)]
pub enum ProofLib {
    Arkworks,
    Rapidsnark,
}

impl Default for ProofLib {
    fn default() -> (r: Self)
        ensures
            r == ProofLib::Arkworks,
    {
        ProofLib::Arkworks
    }
}

/// The error of every Noir adapter operation when the Barretenberg engine is
/// not compiled in.
pub open spec fn noir_disabled_message() -> Seq<char> {
    "noir-adapter: compile with --features barretenberg to enable"@
}

fn noir_disabled() -> (r: String)
    ensures
        r@ == noir_disabled_message(),
{
    String::from_str("noir-adapter: compile with --features barretenberg to enable")
}

/// The Noir prover, its circuit configuration fixed at construction: the
/// compiled circuit, an optional SRS, the verification key, the hash
/// (Keccak256 for on-chain verification, Poseidon otherwise) and the
/// low-memory mode.
pub struct NoirProverAdapter {
    circuit_path: String,
    srs_path: Option<String>,
    vk: Vec<u8>,
    on_chain: bool,
    low_memory_mode: bool,
}

impl NoirProverAdapter {
    pub closed spec fn spec_circuit_path(&self) -> Seq<char> {
        self.circuit_path@
    }

    pub closed spec fn spec_srs_path(&self) -> Option<Seq<char>> {
        match self.srs_path {
            Some(p) => Some(p@),
            None => None,
        }
    }

    pub closed spec fn spec_vk(&self) -> Seq<u8> {
        self.vk@
    }

    pub closed spec fn spec_on_chain(&self) -> bool {
        self.on_chain
    }

    pub closed spec fn spec_low_memory_mode(&self) -> bool {
        self.low_memory_mode
    }

    /// An adapter for the circuit at `circuit_path`.
    pub fn new(
        circuit_path: String,
        srs_path: Option<String>,
        vk: Vec<u8>,
        on_chain: bool,
        low_memory_mode: bool,
    ) -> (r: Self)
        ensures
            r.spec_circuit_path() == circuit_path@,
            r.spec_srs_path() == (match srs_path {
                Some(p) => Some(p@),
                None => None::<Seq<char>>,
            }),
            r.spec_vk() == vk@,
            r.spec_on_chain() == on_chain,
            r.spec_low_memory_mode() == low_memory_mode,
    {
        NoirProverAdapter { circuit_path, srs_path, vk, on_chain, low_memory_mode }
    }

    /// The path of the compiled circuit.
    pub fn circuit_path(&self) -> (r: &str)
        ensures
            r@ == self.spec_circuit_path(),
    {
        self.circuit_path.as_str()
    }

    /// The path of the SRS, if one was given.
    pub fn srs_path(&self) -> (r: Option<&str>)
        ensures
            match r {
                Some(p) => self.spec_srs_path() == Some(p@),
                None => self.spec_srs_path() is None,
            },
    {
        match &self.srs_path {
            Some(p) => Some(p.as_str()),
            None => None,
        }
    }

    /// The verification key.
    pub fn vk(&self) -> (r: &Vec<u8>)
        ensures
            r@ == self.spec_vk(),
    {
        &self.vk
    }

    /// Whether proofs are made for on-chain verification (Keccak256).
    pub fn on_chain(&self) -> (r: bool)
        ensures
            r == self.spec_on_chain(),
    {
        self.on_chain
    }

    /// Whether the low-memory mode is on.
    pub fn low_memory_mode(&self) -> (r: bool)
        ensures
            r == self.spec_low_memory_mode(),
    {
        self.low_memory_mode
    }

    /// Derives the verification key of a circuit; without the Barretenberg
    /// engine, refuses.
    pub fn compute_vk(
        circuit_path: String,
        srs_path: Option<String>,
        on_chain: bool,
        low_memory_mode: bool,
    ) -> (r: Result<Vec<u8>, MoproError>)
        ensures
            r matches Err(MoproError::ProverError(m)) && m@ == noir_disabled_message(),
    {
        Err(MoproError::ProverError(noir_disabled()))
    }

    /// Proves the circuit for the ordered witness inputs; without the
    /// Barretenberg engine, refuses.
    pub fn prove(&self, input: Vec<String>) -> (r: Result<Vec<u8>, MoproError>)
        ensures
            r matches Err(MoproError::ProverError(m)) && m@ == noir_disabled_message(),
    {
        Err(MoproError::ProverError(noir_disabled()))
    }

    /// Verifies a proof; without the Barretenberg engine, refuses with a
    /// prover error, as `prove` does.
    pub fn verify(&self, output: &Vec<u8>) -> (r: Result<bool, MoproError>)
        ensures
            r matches Err(MoproError::ProverError(m)) && m@ == noir_disabled_message(),
    {
        Err(MoproError::ProverError(noir_disabled()))
    }
}

} // verus!
