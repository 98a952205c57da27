//! Schnorr adaptor signatures over secp256k1.
//!
//! A signer makes an encrypted signature bound to an encryption key `Y`;
//! anyone can check it; the holder of `y` with `Y = y·G` decrypts it into a
//! plain Schnorr signature; and anyone holding both recovers `y`.
pub mod adaptor;
pub mod group;
pub mod schnorr;

pub use adaptor::{Adaptor, AdaptorSign, EncryptedSignature};
pub use group::{Point, Scalar};
pub use schnorr::{Derivation, KeyPair, Schnorr, Signature};
