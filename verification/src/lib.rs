//! FiLIP: a filtered-permutator stream cipher that runs unchanged over clear
//! Booleans and over homomorphic ciphertexts, so that a symmetric ciphertext
//! can be turned into a homomorphic one by evaluating the decryption circuit.

pub mod bit;
pub mod torus;
pub mod message;
pub mod multiplexer;
pub mod filter;
pub mod symmetric_key;
pub mod fhe;
pub mod encrypter;

pub use bit::{Bit, Shape};
pub use bit::encrypted_bit::EncryptedBit;
pub use multiplexer::Multiplexer;
pub use filter::{Filter, FilterType};
pub use encrypter::{Encrypter, Parameters, SystemParameters};
pub use fhe::{GlweSecretKey, StandardDev};
pub use symmetric_key::SymmetricKey;

pub use torus::Torus;
