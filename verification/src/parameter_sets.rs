//! The twelve parameter sets of the standard: SHA-2 and SHAKE, each with
//! hash lengths of 128, 192 and 256 bits, each with small signatures
//! (`s`) or fast signing (`f`).
use vstd::prelude::*;
use crate::parameter_set::{
    ParameterSet, Parameters, SignatureLen, SigningKeyLen, VerifyingKeyLen,
};
use crate::params::{algorithm_id, HashFamily, Params};

verus! {

/// SLH-DSA-SHA2-128s.
#[allow(non_camel_case_types)]
#[derive(PartialEq, Eq, Clone, Copy, Debug)]
pub struct SLH_DSA_SHA2_128s {}

impl Parameters for SLH_DSA_SHA2_128s {
    open spec fn params() -> Params {
        Params { n: 16, h: 63, d: 7, hp: 9, a: 12, k: 14, m: 30, family: HashFamily::Sha2 }
    }

    proof fn lemma_params() {
    }

    fn prm() -> (p: Params) {
        Params { n: 16, h: 63, d: 7, hp: 9, a: 12, k: 14, m: 30, family: HashFamily::Sha2 }
    }
}

impl SignatureLen for SLH_DSA_SHA2_128s {
    const SIGNATURE_LEN: usize = 7856;

    fn signature_len() -> (len: usize) {
        Self::prm().sig_bytes()
    }
}

impl SigningKeyLen for SLH_DSA_SHA2_128s {
    const SIGNING_KEY_LEN: usize = 64;

    const SECRET_KEY_LEN: usize = 64;

    fn signing_key_len() -> (len: usize) {
        Self::prm().sk_bytes()
    }
}

impl VerifyingKeyLen for SLH_DSA_SHA2_128s {
    const VERIFYING_KEY_LEN: usize = 32;

    const PUBLIC_KEY_LEN: usize = 32;

    fn verifying_key_len() -> (len: usize) {
        Self::prm().pk_bytes()
    }
}

impl ParameterSet for SLH_DSA_SHA2_128s {
    const NAME: &'static str = "SLH-DSA-SHA2-128s";

    const ALGORITHM_OID_STR: &'static str = "2.16.840.1.101.3.4.3.20";

    fn algorithm_name() -> (name: &'static str) {
        algorithm_id(&Self::prm())
    }
}

/// SLH-DSA-SHA2-128f.
#[allow(non_camel_case_types)]
#[derive(PartialEq, Eq, Clone, Copy, Debug)]
pub struct SLH_DSA_SHA2_128f {}

impl Parameters for SLH_DSA_SHA2_128f {
    open spec fn params() -> Params {
        Params { n: 16, h: 66, d: 22, hp: 3, a: 6, k: 33, m: 34, family: HashFamily::Sha2 }
    }

    proof fn lemma_params() {
    }

    fn prm() -> (p: Params) {
        Params { n: 16, h: 66, d: 22, hp: 3, a: 6, k: 33, m: 34, family: HashFamily::Sha2 }
    }
}

impl SignatureLen for SLH_DSA_SHA2_128f {
    const SIGNATURE_LEN: usize = 17088;

    fn signature_len() -> (len: usize) {
        Self::prm().sig_bytes()
    }
}

impl SigningKeyLen for SLH_DSA_SHA2_128f {
    const SIGNING_KEY_LEN: usize = 64;

    const SECRET_KEY_LEN: usize = 64;

    fn signing_key_len() -> (len: usize) {
        Self::prm().sk_bytes()
    }
}

impl VerifyingKeyLen for SLH_DSA_SHA2_128f {
    const VERIFYING_KEY_LEN: usize = 32;

    const PUBLIC_KEY_LEN: usize = 32;

    fn verifying_key_len() -> (len: usize) {
        Self::prm().pk_bytes()
    }
}

impl ParameterSet for SLH_DSA_SHA2_128f {
    const NAME: &'static str = "SLH-DSA-SHA2-128f";

    const ALGORITHM_OID_STR: &'static str = "2.16.840.1.101.3.4.3.21";

    fn algorithm_name() -> (name: &'static str) {
        algorithm_id(&Self::prm())
    }
}

/// SLH-DSA-SHA2-192s.
#[allow(non_camel_case_types)]
#[derive(PartialEq, Eq, Clone, Copy, Debug)]
pub struct SLH_DSA_SHA2_192s {}

impl Parameters for SLH_DSA_SHA2_192s {
    open spec fn params() -> Params {
        Params { n: 24, h: 63, d: 7, hp: 9, a: 14, k: 17, m: 39, family: HashFamily::Sha2 }
    }

    proof fn lemma_params() {
    }

    fn prm() -> (p: Params) {
        Params { n: 24, h: 63, d: 7, hp: 9, a: 14, k: 17, m: 39, family: HashFamily::Sha2 }
    }
}

impl SignatureLen for SLH_DSA_SHA2_192s {
    const SIGNATURE_LEN: usize = 16224;

    fn signature_len() -> (len: usize) {
        Self::prm().sig_bytes()
    }
}

impl SigningKeyLen for SLH_DSA_SHA2_192s {
    const SIGNING_KEY_LEN: usize = 96;

    const SECRET_KEY_LEN: usize = 96;

    fn signing_key_len() -> (len: usize) {
        Self::prm().sk_bytes()
    }
}

impl VerifyingKeyLen for SLH_DSA_SHA2_192s {
    const VERIFYING_KEY_LEN: usize = 48;

    const PUBLIC_KEY_LEN: usize = 48;

    fn verifying_key_len() -> (len: usize) {
        Self::prm().pk_bytes()
    }
}

impl ParameterSet for SLH_DSA_SHA2_192s {
    const NAME: &'static str = "SLH-DSA-SHA2-192s";

    const ALGORITHM_OID_STR: &'static str = "2.16.840.1.101.3.4.3.22";

    fn algorithm_name() -> (name: &'static str) {
        algorithm_id(&Self::prm())
    }
}

/// SLH-DSA-SHA2-192f.
#[allow(non_camel_case_types)]
#[derive(PartialEq, Eq, Clone, Copy, Debug)]
pub struct SLH_DSA_SHA2_192f {}

impl Parameters for SLH_DSA_SHA2_192f {
    open spec fn params() -> Params {
        Params { n: 24, h: 66, d: 22, hp: 3, a: 8, k: 33, m: 42, family: HashFamily::Sha2 }
    }

    proof fn lemma_params() {
    }

    fn prm() -> (p: Params) {
        Params { n: 24, h: 66, d: 22, hp: 3, a: 8, k: 33, m: 42, family: HashFamily::Sha2 }
    }
}

impl SignatureLen for SLH_DSA_SHA2_192f {
    const SIGNATURE_LEN: usize = 35664;

    fn signature_len() -> (len: usize) {
        Self::prm().sig_bytes()
    }
}

impl SigningKeyLen for SLH_DSA_SHA2_192f {
    const SIGNING_KEY_LEN: usize = 96;

    const SECRET_KEY_LEN: usize = 96;

    fn signing_key_len() -> (len: usize) {
        Self::prm().sk_bytes()
    }
}

impl VerifyingKeyLen for SLH_DSA_SHA2_192f {
    const VERIFYING_KEY_LEN: usize = 48;

    const PUBLIC_KEY_LEN: usize = 48;

    fn verifying_key_len() -> (len: usize) {
        Self::prm().pk_bytes()
    }
}

impl ParameterSet for SLH_DSA_SHA2_192f {
    const NAME: &'static str = "SLH-DSA-SHA2-192f";

    const ALGORITHM_OID_STR: &'static str = "2.16.840.1.101.3.4.3.23";

    fn algorithm_name() -> (name: &'static str) {
        algorithm_id(&Self::prm())
    }
}

/// SLH-DSA-SHA2-256s.
#[allow(non_camel_case_types)]
#[derive(PartialEq, Eq, Clone, Copy, Debug)]
pub struct SLH_DSA_SHA2_256s {}

impl Parameters for SLH_DSA_SHA2_256s {
    open spec fn params() -> Params {
        Params { n: 32, h: 64, d: 8, hp: 8, a: 14, k: 22, m: 47, family: HashFamily::Sha2 }
    }

    proof fn lemma_params() {
    }

    fn prm() -> (p: Params) {
        Params { n: 32, h: 64, d: 8, hp: 8, a: 14, k: 22, m: 47, family: HashFamily::Sha2 }
    }
}

impl SignatureLen for SLH_DSA_SHA2_256s {
    const SIGNATURE_LEN: usize = 29792;

    fn signature_len() -> (len: usize) {
        Self::prm().sig_bytes()
    }
}

impl SigningKeyLen for SLH_DSA_SHA2_256s {
    const SIGNING_KEY_LEN: usize = 128;

    const SECRET_KEY_LEN: usize = 128;

    fn signing_key_len() -> (len: usize) {
        Self::prm().sk_bytes()
    }
}

impl VerifyingKeyLen for SLH_DSA_SHA2_256s {
    const VERIFYING_KEY_LEN: usize = 64;

    const PUBLIC_KEY_LEN: usize = 64;

    fn verifying_key_len() -> (len: usize) {
        Self::prm().pk_bytes()
    }
}

impl ParameterSet for SLH_DSA_SHA2_256s {
    const NAME: &'static str = "SLH-DSA-SHA2-256s";

    const ALGORITHM_OID_STR: &'static str = "2.16.840.1.101.3.4.3.24";

    fn algorithm_name() -> (name: &'static str) {
        algorithm_id(&Self::prm())
    }
}

/// SLH-DSA-SHA2-256f.
#[allow(non_camel_case_types)]
#[derive(PartialEq, Eq, Clone, Copy, Debug)]
pub struct SLH_DSA_SHA2_256f {}

impl Parameters for SLH_DSA_SHA2_256f {
    open spec fn params() -> Params {
        Params { n: 32, h: 68, d: 17, hp: 4, a: 9, k: 35, m: 49, family: HashFamily::Sha2 }
    }

    proof fn lemma_params() {
    }

    fn prm() -> (p: Params) {
        Params { n: 32, h: 68, d: 17, hp: 4, a: 9, k: 35, m: 49, family: HashFamily::Sha2 }
    }
}

impl SignatureLen for SLH_DSA_SHA2_256f {
    const SIGNATURE_LEN: usize = 49856;

    fn signature_len() -> (len: usize) {
        Self::prm().sig_bytes()
    }
}

impl SigningKeyLen for SLH_DSA_SHA2_256f {
    const SIGNING_KEY_LEN: usize = 128;

    const SECRET_KEY_LEN: usize = 128;

    fn signing_key_len() -> (len: usize) {
        Self::prm().sk_bytes()
    }
}

impl VerifyingKeyLen for SLH_DSA_SHA2_256f {
    const VERIFYING_KEY_LEN: usize = 64;

    const PUBLIC_KEY_LEN: usize = 64;

    fn verifying_key_len() -> (len: usize) {
        Self::prm().pk_bytes()
    }
}

impl ParameterSet for SLH_DSA_SHA2_256f {
    const NAME: &'static str = "SLH-DSA-SHA2-256f";

    const ALGORITHM_OID_STR: &'static str = "2.16.840.1.101.3.4.3.25";

    fn algorithm_name() -> (name: &'static str) {
        algorithm_id(&Self::prm())
    }
}

/// SLH-DSA-SHAKE-128s.
#[allow(non_camel_case_types)]
#[derive(PartialEq, Eq, Clone, Copy, Debug)]
pub struct SLH_DSA_SHAKE_128s {}

impl Parameters for SLH_DSA_SHAKE_128s {
    open spec fn params() -> Params {
        Params { n: 16, h: 63, d: 7, hp: 9, a: 12, k: 14, m: 30, family: HashFamily::Shake }
    }

    proof fn lemma_params() {
    }

    fn prm() -> (p: Params) {
        Params { n: 16, h: 63, d: 7, hp: 9, a: 12, k: 14, m: 30, family: HashFamily::Shake }
    }
}

impl SignatureLen for SLH_DSA_SHAKE_128s {
    const SIGNATURE_LEN: usize = 7856;

    fn signature_len() -> (len: usize) {
        Self::prm().sig_bytes()
    }
}

impl SigningKeyLen for SLH_DSA_SHAKE_128s {
    const SIGNING_KEY_LEN: usize = 64;

    const SECRET_KEY_LEN: usize = 64;

    fn signing_key_len() -> (len: usize) {
        Self::prm().sk_bytes()
    }
}

impl VerifyingKeyLen for SLH_DSA_SHAKE_128s {
    const VERIFYING_KEY_LEN: usize = 32;

    const PUBLIC_KEY_LEN: usize = 32;

    fn verifying_key_len() -> (len: usize) {
        Self::prm().pk_bytes()
    }
}

impl ParameterSet for SLH_DSA_SHAKE_128s {
    const NAME: &'static str = "SLH-DSA-SHAKE-128s";

    const ALGORITHM_OID_STR: &'static str = "2.16.840.1.101.3.4.3.26";

    fn algorithm_name() -> (name: &'static str) {
        algorithm_id(&Self::prm())
    }
}

/// SLH-DSA-SHAKE-128f.
#[allow(non_camel_case_types)]
#[derive(PartialEq, Eq, Clone, Copy, Debug)]
pub struct SLH_DSA_SHAKE_128f {}

impl Parameters for SLH_DSA_SHAKE_128f {
    open spec fn params() -> Params {
        Params { n: 16, h: 66, d: 22, hp: 3, a: 6, k: 33, m: 34, family: HashFamily::Shake }
    }

    proof fn lemma_params() {
    }

    fn prm() -> (p: Params) {
        Params { n: 16, h: 66, d: 22, hp: 3, a: 6, k: 33, m: 34, family: HashFamily::Shake }
    }
}

impl SignatureLen for SLH_DSA_SHAKE_128f {
    const SIGNATURE_LEN: usize = 17088;

    fn signature_len() -> (len: usize) {
        Self::prm().sig_bytes()
    }
}

impl SigningKeyLen for SLH_DSA_SHAKE_128f {
    const SIGNING_KEY_LEN: usize = 64;

    const SECRET_KEY_LEN: usize = 64;

    fn signing_key_len() -> (len: usize) {
        Self::prm().sk_bytes()
    }
}

impl VerifyingKeyLen for SLH_DSA_SHAKE_128f {
    const VERIFYING_KEY_LEN: usize = 32;

    const PUBLIC_KEY_LEN: usize = 32;

    fn verifying_key_len() -> (len: usize) {
        Self::prm().pk_bytes()
    }
}

impl ParameterSet for SLH_DSA_SHAKE_128f {
    const NAME: &'static str = "SLH-DSA-SHAKE-128f";

    const ALGORITHM_OID_STR: &'static str = "2.16.840.1.101.3.4.3.27";

    fn algorithm_name() -> (name: &'static str) {
        algorithm_id(&Self::prm())
    }
}

/// SLH-DSA-SHAKE-192s.
#[allow(non_camel_case_types)]
#[derive(PartialEq, Eq, Clone, Copy, Debug)]
pub struct SLH_DSA_SHAKE_192s {}

impl Parameters for SLH_DSA_SHAKE_192s {
    open spec fn params() -> Params {
        Params { n: 24, h: 63, d: 7, hp: 9, a: 14, k: 17, m: 39, family: HashFamily::Shake }
    }

    proof fn lemma_params() {
    }

    fn prm() -> (p: Params) {
        Params { n: 24, h: 63, d: 7, hp: 9, a: 14, k: 17, m: 39, family: HashFamily::Shake }
    }
}

impl SignatureLen for SLH_DSA_SHAKE_192s {
    const SIGNATURE_LEN: usize = 16224;

    fn signature_len() -> (len: usize) {
        Self::prm().sig_bytes()
    }
}

impl SigningKeyLen for SLH_DSA_SHAKE_192s {
    const SIGNING_KEY_LEN: usize = 96;

    const SECRET_KEY_LEN: usize = 96;

    fn signing_key_len() -> (len: usize) {
        Self::prm().sk_bytes()
    }
}

impl VerifyingKeyLen for SLH_DSA_SHAKE_192s {
    const VERIFYING_KEY_LEN: usize = 48;

    const PUBLIC_KEY_LEN: usize = 48;

    fn verifying_key_len() -> (len: usize) {
        Self::prm().pk_bytes()
    }
}

impl ParameterSet for SLH_DSA_SHAKE_192s {
    const NAME: &'static str = "SLH-DSA-SHAKE-192s";

    const ALGORITHM_OID_STR: &'static str = "2.16.840.1.101.3.4.3.28";

    fn algorithm_name() -> (name: &'static str) {
        algorithm_id(&Self::prm())
    }
}

/// SLH-DSA-SHAKE-192f.
#[allow(non_camel_case_types)]
#[derive(PartialEq, Eq, Clone, Copy, Debug)]
pub struct SLH_DSA_SHAKE_192f {}

impl Parameters for SLH_DSA_SHAKE_192f {
    open spec fn params() -> Params {
        Params { n: 24, h: 66, d: 22, hp: 3, a: 8, k: 33, m: 42, family: HashFamily::Shake }
    }

    proof fn lemma_params() {
    }

    fn prm() -> (p: Params) {
        Params { n: 24, h: 66, d: 22, hp: 3, a: 8, k: 33, m: 42, family: HashFamily::Shake }
    }
}

impl SignatureLen for SLH_DSA_SHAKE_192f {
    const SIGNATURE_LEN: usize = 35664;

    fn signature_len() -> (len: usize) {
        Self::prm().sig_bytes()
    }
}

impl SigningKeyLen for SLH_DSA_SHAKE_192f {
    const SIGNING_KEY_LEN: usize = 96;

    const SECRET_KEY_LEN: usize = 96;

    fn signing_key_len() -> (len: usize) {
        Self::prm().sk_bytes()
    }
}

impl VerifyingKeyLen for SLH_DSA_SHAKE_192f {
    const VERIFYING_KEY_LEN: usize = 48;

    const PUBLIC_KEY_LEN: usize = 48;

    fn verifying_key_len() -> (len: usize) {
        Self::prm().pk_bytes()
    }
}

impl ParameterSet for SLH_DSA_SHAKE_192f {
    const NAME: &'static str = "SLH-DSA-SHAKE-192f";

    const ALGORITHM_OID_STR: &'static str = "2.16.840.1.101.3.4.3.29";

    fn algorithm_name() -> (name: &'static str) {
        algorithm_id(&Self::prm())
    }
}

/// SLH-DSA-SHAKE-256s.
#[allow(non_camel_case_types)]
#[derive(PartialEq, Eq, Clone, Copy, Debug)]
pub struct SLH_DSA_SHAKE_256s {}

impl Parameters for SLH_DSA_SHAKE_256s {
    open spec fn params() -> Params {
        Params { n: 32, h: 64, d: 8, hp: 8, a: 14, k: 22, m: 47, family: HashFamily::Shake }
    }

    proof fn lemma_params() {
    }

    fn prm() -> (p: Params) {
        Params { n: 32, h: 64, d: 8, hp: 8, a: 14, k: 22, m: 47, family: HashFamily::Shake }
    }
}

impl SignatureLen for SLH_DSA_SHAKE_256s {
    const SIGNATURE_LEN: usize = 29792;

    fn signature_len() -> (len: usize) {
        Self::prm().sig_bytes()
    }
}

impl SigningKeyLen for SLH_DSA_SHAKE_256s {
    const SIGNING_KEY_LEN: usize = 128;

    const SECRET_KEY_LEN: usize = 128;

    fn signing_key_len() -> (len: usize) {
        Self::prm().sk_bytes()
    }
}

impl VerifyingKeyLen for SLH_DSA_SHAKE_256s {
    const VERIFYING_KEY_LEN: usize = 64;

    const PUBLIC_KEY_LEN: usize = 64;

    fn verifying_key_len() -> (len: usize) {
        Self::prm().pk_bytes()
    }
}

impl ParameterSet for SLH_DSA_SHAKE_256s {
    const NAME: &'static str = "SLH-DSA-SHAKE-256s";

    const ALGORITHM_OID_STR: &'static str = "2.16.840.1.101.3.4.3.30";

    fn algorithm_name() -> (name: &'static str) {
        algorithm_id(&Self::prm())
    }
}

/// SLH-DSA-SHAKE-256f.
#[allow(non_camel_case_types)]
#[derive(PartialEq, Eq, Clone, Copy, Debug)]
pub struct SLH_DSA_SHAKE_256f {}

impl Parameters for SLH_DSA_SHAKE_256f {
    open spec fn params() -> Params {
        Params { n: 32, h: 68, d: 17, hp: 4, a: 9, k: 35, m: 49, family: HashFamily::Shake }
    }

    proof fn lemma_params() {
    }

    fn prm() -> (p: Params) {
        Params { n: 32, h: 68, d: 17, hp: 4, a: 9, k: 35, m: 49, family: HashFamily::Shake }
    }
}

impl SignatureLen for SLH_DSA_SHAKE_256f {
    const SIGNATURE_LEN: usize = 49856;

    fn signature_len() -> (len: usize) {
        Self::prm().sig_bytes()
    }
}

impl SigningKeyLen for SLH_DSA_SHAKE_256f {
    const SIGNING_KEY_LEN: usize = 128;

    const SECRET_KEY_LEN: usize = 128;

    fn signing_key_len() -> (len: usize) {
        Self::prm().sk_bytes()
    }
}

impl VerifyingKeyLen for SLH_DSA_SHAKE_256f {
    const VERIFYING_KEY_LEN: usize = 64;

    const PUBLIC_KEY_LEN: usize = 64;

    fn verifying_key_len() -> (len: usize) {
        Self::prm().pk_bytes()
    }
}

impl ParameterSet for SLH_DSA_SHAKE_256f {
    const NAME: &'static str = "SLH-DSA-SHAKE-256f";

    const ALGORITHM_OID_STR: &'static str = "2.16.840.1.101.3.4.3.31";

    fn algorithm_name() -> (name: &'static str) {
        algorithm_id(&Self::prm())
    }
}

} // verus!
