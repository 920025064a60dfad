//! Build-configuration, artifact-layout and proof-encoding logic of the mopro
//! toolkit, verified with Verus.

pub mod text;
pub mod app_config;
pub mod bytes;
pub mod zkey;
pub mod zkey_header;
pub mod halo2;
pub mod munchausen;
pub mod uniffi_example;
pub mod adapters;
pub mod ethereum;
pub mod serialization;
pub mod rapidsnark;
