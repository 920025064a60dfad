# mopro_ffi

The decision-making core of the mopro mobile-proving toolkit, verified with
Verus: build modes and target architectures, the names, arguments and file
edits of the iOS, Android, React Native, Flutter and WebAssembly binding
builds, the reading of snarkjs zkey files (section table, Groth16 header,
constraint matrices, proving key), the zkey header reader, Halo2 input
parsing, the conversions between Groth16 proofs and public inputs and the
calldata of the Solidity verifier (BN254 and BLS12-381), the verifying-key
layout that rapidsnark reads, the project name read from a Cargo manifest,
and the prover adapters' result types.

- `src/` — the verified library.
- `tests/` — tests of the library.
- `app/` — processes, files, environment, FFI entry points, arkworks
  conversions and serde forms around the library.
