//! SLH-DSA, the stateless hash-based digital signature algorithm: key
//! generation, signing and verification for its twelve parameter sets,
//! with every function proved against a statement of what it returns.
//!
//! The scheme is built in layers. At the bottom stand the hash functions
//! ([`sha256`], [`sha512`], [`shake`]) and the tweakable hashes made of
//! them ([`hashes`]), each call bound to an [`address`]. On these rest the
//! one-time signature ([`wots`]), hash trees with their authentication
//! paths ([`merkle`]), the signature of one layer of trees ([`xmss`]), the
//! few-time signature ([`fors`]) and the hypertree ([`hypertree`]). The
//! scheme over byte strings is [`slh`]; keys and signatures as values of
//! their parameter set are [`SigningKey`], [`VerifyingKey`] and
//! [`Signature`].
//!
//! What holds of all keys, messages and contexts is stated as proof
//! functions beside the functions it speaks of: a signature verifies under
//! the public key of the pair that made it
//! ([`slh::lemma_sign_then_verify`], [`signing_key::lemma_signatures_verify`]),
//! keys and signatures have the lengths that the parameter set fixes
//! ([`signing_key::lemma_lengths`]), and no two hash calls at different
//! addresses hash the same string ([`hashes::lemma_tweak_injective`]).
pub mod address;
pub mod bytes;
pub mod decimal;
mod entropy;
pub mod fors;
pub mod hashes;
pub mod hypertree;
pub mod merkle;
pub mod parameter_set;
pub mod parameter_sets;
pub mod params;
pub mod sha256;
pub mod sha512;
pub mod shake;
pub mod signature_encoding;
pub mod signing_key;
pub mod slh;
pub mod transcoding;
pub mod verifying_key;
pub mod wots;
pub mod xmss;

pub use parameter_set::{ParameterSet, Parameters, SignatureLen, SigningKeyLen, VerifyingKeyLen};
pub use parameter_sets::{
    SLH_DSA_SHA2_128f, SLH_DSA_SHA2_128s, SLH_DSA_SHA2_192f, SLH_DSA_SHA2_192s, SLH_DSA_SHA2_256f,
    SLH_DSA_SHA2_256s, SLH_DSA_SHAKE_128f, SLH_DSA_SHAKE_128s, SLH_DSA_SHAKE_192f,
    SLH_DSA_SHAKE_192s, SLH_DSA_SHAKE_256f, SLH_DSA_SHAKE_256s,
};
pub use signature_encoding::Signature;
pub use signing_key::{KeygenError, SigningKey};
pub use transcoding::{AsBytes, FromBytes, TranscodingError};
pub use verifying_key::VerifyingKey;
