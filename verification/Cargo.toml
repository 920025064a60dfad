[package]
name = "mopro-ffi"
version = "0.1.0"
edition = "2021"
publish = false

[dependencies]
byteorder = "1"
ark-std = "0.4"
convert_case = "0.6"
num-bigint = "0.4"
ark-ff = "0.4"
ark-ec = "0.4"
ark-bn254 = "0.4"
ark-bls12-381 = "0.4"
ark-serialize = "0.4"
ark-groth16 = "0.4"
ark-relations = "0.4"
anyhow = "1"
toml = "0.8"
uuid = { version = "1", features = ["v4"] }
camino = "1"
fs_extra = "1"
serde = { version = "1", features = ["derive"] }
serde_json = "1"
bincode = "1"
thiserror = "1"
uniffi = { version = "0.29", features = ["bindgen", "cargo-metadata"] }
