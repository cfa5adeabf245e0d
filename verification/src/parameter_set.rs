//! What a parameter set states of itself: its numbers, the lengths of its
//! keys and signatures, its name and its object identifier.
use vstd::prelude::*;
use crate::params::Params;

verus! {

/// The numbers of a parameter set.
pub trait Parameters {
    /// The numbers of the set.
    spec fn params() -> Params;

    /// The set is one of the standard.
    proof fn lemma_params()
        ensures
            Self::params().is_standard(),
    ;

    /// The numbers of the set.
    fn prm() -> (p: Params)
        ensures
            p == Self::params(),
            p.is_standard(),
            p.wf(),
    ;
}

/// The length of the secret (signing) key.
pub trait SigningKeyLen: Parameters {
    /// Length of the secret (signing) key in bytes.
    const SIGNING_KEY_LEN: usize;

    /// Length of the secret (signing) key in bytes.
    const SECRET_KEY_LEN: usize = Self::SIGNING_KEY_LEN;

    /// Length of the secret (signing) key in bytes, from the numbers of
    /// the set: four hash values.
    fn signing_key_len() -> (len: usize)
        ensures
            len == Self::params().spec_sk_bytes(),
            len == 4 * Self::params().n,
            len == Self::SIGNING_KEY_LEN,
            len == Self::SECRET_KEY_LEN,
    ;
}

/// The length of the public (verifying) key.
pub trait VerifyingKeyLen: Parameters {
    /// Length of the public (verifying) key in bytes.
    const VERIFYING_KEY_LEN: usize;

    /// Length of the public (verifying) key in bytes.
    const PUBLIC_KEY_LEN: usize = Self::VERIFYING_KEY_LEN;

    /// Length of the public (verifying) key in bytes, from the numbers of
    /// the set: two hash values.
    fn verifying_key_len() -> (len: usize)
        ensures
            len == Self::params().spec_pk_bytes(),
            len == 2 * Self::params().n,
            len == Self::VERIFYING_KEY_LEN,
            len == Self::PUBLIC_KEY_LEN,
    ;
}

/// The length of the signature.
pub trait SignatureLen: Parameters {
    /// Length of the signature in bytes.
    const SIGNATURE_LEN: usize;

    /// Length of the signature in bytes, from the numbers of the set: the
    /// randomizer, the few-time signature and the hypertree signature.
    fn signature_len() -> (len: usize)
        ensures
            len == Self::params().spec_sig_bytes(),
            len == Self::SIGNATURE_LEN,
    ;
}

/// One of the twelve parameter sets of the standard.
pub trait ParameterSet:
    Parameters
    + SigningKeyLen
    + VerifyingKeyLen
    + SignatureLen
    + PartialEq
    + Eq
    + Clone
    + core::fmt::Debug
{
    /// Name of the parameter set, as the standard writes it.
    const NAME: &'static str;

    /// Object identifier of the parameter set.
    const ALGORITHM_OID_STR: &'static str;

    /// Name of the parameter set, from the numbers of the set.
    fn algorithm_name() -> (name: &'static str)
        ensures
            name@ == crate::params::spec_algorithm_id(Self::params()),
            name@ == Self::NAME@,
    ;
}

} // verus!
