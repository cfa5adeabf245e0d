//! Secret keys as values of their parameter set: key generation and
//! signing.
use vstd::prelude::*;
use vstd::std_specs::convert::TryFromSpecImpl;
use crate::decimal::{append_decimal, spec_decimal};
use crate::entropy::{random_bytes, seeded_generator};
use crate::parameter_set::ParameterSet;
use crate::signature_encoding::Signature;
use crate::slh::{
    lemma_key_len, lemma_sign_len, lemma_sign_then_verify, slh_keygen_internal, slh_sign,
    spec_frame, spec_keygen_sk, spec_public_part, spec_sign, spec_sign_with, spec_verify,
};
use crate::transcoding::{AsBytes, FromBytes, TranscodingError};
use crate::verifying_key::VerifyingKey;

verus! {

/// Errors that can occur during key generation.
#[derive(Debug, Clone, Copy, PartialEq, Eq)]
pub enum KeygenError {
    /// The random source reported the given non-zero status code.
    FFIError(i32),
}

impl KeygenError {
    /// What went wrong, in words: that key generation failed, and with
    /// which status code.
    pub fn message(&self) -> (text: String)
        ensures
            text@ == "FFI keygen failed with error code "@ + spec_decimal(self->0 as int),
    {
        let mut text = String::from_str("FFI keygen failed with error code ");
        append_decimal(&mut text, self.code());
        text
    }

    /// The status code of the random source.
    pub fn code(&self) -> (code: i32)
        ensures
            *self == KeygenError::FFIError(code),
    {
        match self {
            KeygenError::FFIError(code) => *code,
        }
    }
}

/// The status code for a random source that gave no bytes.
pub const NO_RANDOM_BYTES: i32 = -1;

/// The secret key made of `3 * n` random bytes: the secret seed, the key
/// of the randomizer and the public seed.
pub open spec fn spec_key_of_entropy(p: crate::params::Params, entropy: Seq<u8>) -> Seq<u8> {
    spec_keygen_sk(
        p,
        entropy.subrange(0, p.n as int),
        entropy.subrange(p.n as int, 2 * p.n),
        entropy.subrange(2 * p.n, 3 * p.n),
    )
}

/// In every parameter set, a signature that the secret key of a key pair
/// made of a message in a context, with or without a random value,
/// verifies for that message in that context under the public key of the
/// pair.
pub proof fn lemma_signatures_verify<P: ParameterSet>(
    entropy: Seq<u8>,
    msg: Seq<u8>,
    ctx: Seq<u8>,
    randomness: Seq<u8>,
)
    requires
        entropy.len() == 3 * P::params().n,
        ctx.len() <= 255,
    ensures
        spec_verify(
            P::params(),
            spec_public_part(P::params(), spec_key_of_entropy(P::params(), entropy)),
            msg,
            ctx,
            spec_sign(P::params(), spec_key_of_entropy(P::params(), entropy), msg, ctx),
        ),
        spec_verify(
            P::params(),
            spec_public_part(P::params(), spec_key_of_entropy(P::params(), entropy)),
            msg,
            ctx,
            spec_sign_with(
                P::params(),
                spec_key_of_entropy(P::params(), entropy),
                msg,
                ctx,
                randomness,
            ),
        ),
{
    let p = P::params();
    P::lemma_params();
    p.lemma_standard_wf();
    let sk_seed = entropy.subrange(0, p.n as int);
    let sk_prf = entropy.subrange(p.n as int, 2 * p.n);
    let pk_seed = entropy.subrange(2 * p.n, 3 * p.n);
    lemma_key_len(p, sk_seed, sk_prf, pk_seed);
    lemma_sign_then_verify(p, sk_seed, sk_prf, pk_seed, msg, ctx, randomness);
}

/// In every parameter set, secret keys have four times `n` bytes, public
/// keys two times `n` bytes, and signatures the length that the numbers of
/// the set fix.
pub proof fn lemma_lengths<P: ParameterSet>(
    entropy: Seq<u8>,
    msg: Seq<u8>,
    ctx: Seq<u8>,
    randomness: Seq<u8>,
)
    requires
        entropy.len() == 3 * P::params().n,
    ensures
        spec_key_of_entropy(P::params(), entropy).len() == 4 * P::params().n,
        spec_public_part(P::params(), spec_key_of_entropy(P::params(), entropy)).len() == 2
            * P::params().n,
        spec_sign(P::params(), spec_key_of_entropy(P::params(), entropy), msg, ctx).len()
            == P::params().spec_sig_bytes(),
        spec_sign_with(
            P::params(),
            spec_key_of_entropy(P::params(), entropy),
            msg,
            ctx,
            randomness,
        ).len() == P::params().spec_sig_bytes(),
        P::params().spec_sig_bytes() == P::params().n * (1 + P::params().k * (1 + P::params().a)
            + P::params().h + P::params().d * (2 * P::params().n + 3)),
{
    let p = P::params();
    P::lemma_params();
    p.lemma_standard_wf();
    p.lemma_sizes();
    let sk = spec_key_of_entropy(p, entropy);
    lemma_key_len(
        p,
        entropy.subrange(0, p.n as int),
        entropy.subrange(p.n as int, 2 * p.n),
        entropy.subrange(2 * p.n, 3 * p.n),
    );
    lemma_sign_len(p, sk, spec_frame(ctx, msg), sk.subrange(2 * p.n, 3 * p.n));
    lemma_sign_len(p, sk, spec_frame(ctx, msg), randomness);
}

/// Holds the secret key material for a given parameter set: the secret
/// seed, the key of the randomizer, and the public key.
#[derive(Debug)]
pub struct SigningKey<P: ParameterSet> {
    sk: Vec<u8>,
    vk: VerifyingKey<P>,
}

impl<P: ParameterSet> SigningKey<P> {
    #[verifier::type_invariant]
    spec fn well_formed(self) -> bool {
        &&& self.sk@.len() == P::params().spec_sk_bytes()
        &&& self.vk@ == spec_public_part(P::params(), self.sk@)
    }

    /// The bytes of the key.
    pub closed spec fn view(&self) -> Seq<u8> {
        self.sk@
    }

    /// The key that `sk` holds.
    fn from_vec(sk: Vec<u8>) -> (key: Self)
        requires
            sk@.len() == P::params().spec_sk_bytes(),
        ensures
            key@ == sk@,
    {
        let p = P::prm();
        let pk = vstd::slice::slice_to_vec(
            vstd::slice::slice_subrange(sk.as_slice(), 2 * p.n, 4 * p.n),
        );
        SigningKey { sk, vk: VerifyingKey::from_vec(pk) }
    }

    /// Generate an SLH-DSA key pair from random bytes of the operating
    /// system. Fails if and only if the operating system gives none.
    pub fn keygen() -> (r: Result<Self, KeygenError>)
        ensures
            r matches Ok(key) ==> exists|entropy: Seq<u8>|
                entropy.len() == 3 * P::params().n && key@ == #[trigger] spec_key_of_entropy(
                    P::params(),
                    entropy,
                ),
            r matches Err(e) ==> e == KeygenError::FFIError(NO_RANDOM_BYTES),
    {
        let p = P::prm();
        match seeded_generator() {
            Some(mut generator) => {
                let entropy = random_bytes(&mut generator, 3 * p.n);
                Self::keygen_with(Some(entropy.as_slice()))
            },
            None => Self::keygen_with(None),
        }
    }

    /// The key pair made of what the random source gave: of `3 * n` bytes
    /// the key pair with these seeds; of nothing, or of another number of
    /// bytes, an error.
    pub fn keygen_with(entropy: Option<&[u8]>) -> (r: Result<Self, KeygenError>)
        ensures
            r.is_ok() <==> (entropy matches Some(bytes) && bytes@.len() == 3 * P::params().n),
            r matches Ok(key) ==> key@ == spec_key_of_entropy(P::params(), entropy.unwrap()@),
            r matches Err(e) ==> e == KeygenError::FFIError(NO_RANDOM_BYTES),
    {
        let p = P::prm();
        match entropy {
            Some(bytes) => {
                if bytes.len() != 3 * p.n {
                    return Err(KeygenError::FFIError(NO_RANDOM_BYTES));
                }
                let sk_seed = vstd::slice::slice_subrange(bytes, 0, p.n);
                let sk_prf = vstd::slice::slice_subrange(bytes, p.n, 2 * p.n);
                let pk_seed = vstd::slice::slice_subrange(bytes, 2 * p.n, 3 * p.n);
                let (sk, pk) = slh_keygen_internal(&p, sk_seed, sk_prf, pk_seed);
                Ok(Self::from_vec(sk))
            },
            None => Err(KeygenError::FFIError(NO_RANDOM_BYTES)),
        }
    }

    /// The public key of the pair: the second half of the secret key.
    pub fn verifying_key(&self) -> (vk: VerifyingKey<P>)
        ensures
            vk@ == spec_public_part(P::params(), self@),
    {
        proof {
            use_type_invariant(self);
        }
        self.vk.clone()
    }

    /// Attempt to sign the given `message` bytestring under the associated
    /// `context` bytestring, returning a digital signature on success, or
    /// an error if the context is longer than 255 bytes. The signature
    /// depends on nothing but the key, the message and the context.
    pub fn try_sign_with_ctx(&self, message: &[u8], context: &[u8]) -> (r: Result<
        Signature<P>,
        signature::Error,
    >)
        ensures
            r.is_ok() <==> context@.len() <= 255,
            r matches Ok(sig) ==> sig@ == spec_sign(P::params(), self@, message@, context@),
    {
        proof {
            use_type_invariant(self);
        }
        let p = P::prm();
        let pk_seed = vstd::slice::slice_subrange(self.sk.as_slice(), 2 * p.n, 3 * p.n);
        match slh_sign(&p, self.sk.as_slice(), message, context, pk_seed) {
            Some(sig) => Ok(Signature::from_vec(sig)),
            None => Err(signature::Error::new()),
        }
    }

    /// Attempt to sign `message` under `context` with the random value
    /// `randomness` of `n` bytes mixed into the randomizer of the
    /// signature. Fails if the context is longer than 255 bytes or the
    /// random value has not `n` bytes.
    pub fn try_sign_hedged_with_ctx(&self, message: &[u8], context: &[u8], randomness: &[u8]) -> (r:
        Result<Signature<P>, signature::Error>)
        ensures
            r.is_ok() <==> context@.len() <= 255 && randomness@.len() == P::params().n,
            r matches Ok(sig) ==> sig@ == spec_sign_with(
                P::params(),
                self@,
                message@,
                context@,
                randomness@,
            ),
    {
        proof {
            use_type_invariant(self);
        }
        let p = P::prm();
        if randomness.len() != p.n {
            return Err(signature::Error::new());
        }
        match slh_sign(&p, self.sk.as_slice(), message, context, randomness) {
            Some(sig) => Ok(Signature::from_vec(sig)),
            None => Err(signature::Error::new()),
        }
    }

    /// Attempt to sign `message` under `context` with `n` random bytes of
    /// the operating system mixed into the randomizer of the signature.
    /// Fails if the context is longer than 255 bytes, and if the operating
    /// system gives no random bytes.
    pub fn try_sign_randomized_with_ctx(&self, message: &[u8], context: &[u8]) -> (r: Result<
        Signature<P>,
        signature::Error,
    >)
        ensures
            context@.len() > 255 ==> r.is_err(),
            r matches Ok(sig) ==> exists|randomness: Seq<u8>|
                randomness.len() == P::params().n && sig@ == #[trigger] spec_sign_with(
                    P::params(),
                    self@,
                    message@,
                    context@,
                    randomness,
                ),
    {
        let p = P::prm();
        match seeded_generator() {
            Some(mut generator) => {
                let randomness = random_bytes(&mut generator, p.n);
                self.try_sign_with_drawn(message, context, Some(randomness.as_slice()))
            },
            None => self.try_sign_with_drawn(message, context, None),
        }
    }

    /// The signature of `message` under `context` made with what the
    /// random source gave: with `n` bytes, the signature with these bytes
    /// mixed into its randomizer; with nothing or with another number of
    /// bytes, and with a context longer than 255 bytes, an error.
    pub fn try_sign_with_drawn(&self, message: &[u8], context: &[u8], drawn: Option<&[u8]>) -> (r:
        Result<Signature<P>, signature::Error>)
        ensures
            r.is_ok() <==> context@.len() <= 255 && (drawn matches Some(bytes) && bytes@.len()
                == P::params().n),
            r matches Ok(sig) ==> sig@ == spec_sign_with(
                P::params(),
                self@,
                message@,
                context@,
                drawn.unwrap()@,
            ),
    {
        match drawn {
            Some(bytes) => self.try_sign_hedged_with_ctx(message, context, bytes),
            None => Err(signature::Error::new()),
        }
    }

    /// Attempt to sign `msg` under the empty context; this never fails.
    pub fn try_sign(&self, msg: &[u8]) -> (r: Result<Signature<P>, signature::Error>)
        ensures
            r matches Ok(sig) && sig@ == spec_sign(P::params(), self@, msg@, Seq::empty()),
    {
        let empty: [u8; 0] = [];
        assert(empty@ =~= Seq::<u8>::empty());
        self.try_sign_with_ctx(msg, empty.as_slice())
    }

    /// The signature of `msg` under the empty context.
    pub fn sign(&self, msg: &[u8]) -> (sig: Signature<P>)
        ensures
            sig@ == spec_sign(P::params(), self@, msg@, Seq::empty()),
    {
        match self.try_sign(msg) {
            Ok(sig) => sig,
            Err(_) => vstd::pervasive::unreached(),
        }
    }
}

impl<P: ParameterSet> AsBytes for SigningKey<P> {
    open spec fn spec_bytes(&self) -> Seq<u8> {
        self@
    }

    fn as_bytes(&self) -> (bytes: &[u8])
        ensures
            bytes@.len() == P::params().spec_sk_bytes(),
    {
        proof {
            use_type_invariant(self);
        }
        self.sk.as_slice()
    }
}

impl<P: ParameterSet> FromBytes for SigningKey<P> {
    type Error = TranscodingError;

    open spec fn spec_decodes(input: Seq<u8>) -> bool {
        input.len() == P::params().spec_sk_bytes()
    }

    open spec fn spec_encoding(&self) -> Seq<u8> {
        self@
    }

    fn from_bytes(input: &[u8]) -> (r: Result<Self, Self::Error>) {
        if input.len() != P::signing_key_len() {
            return Err(TranscodingError {  });
        }
        Ok(Self::from_vec(vstd::slice::slice_to_vec(input)))
    }
}

impl<P: ParameterSet> TryFrom<&[u8]> for SigningKey<P> {
    type Error = TranscodingError;

    fn try_from(bytes: &[u8]) -> (r: Result<Self, Self::Error>)
        ensures
            r.is_ok() <==> bytes@.len() == P::params().spec_sk_bytes(),
            r matches Ok(key) ==> key@ == bytes@,
    {
        Self::from_bytes(bytes)
    }
}

impl<P: ParameterSet> TryFromSpecImpl<&[u8]> for SigningKey<P> {
    open spec fn obeys_try_from_spec() -> bool {
        false
    }

    open spec fn try_from_spec(v: &[u8]) -> Result<Self, Self::Error> {
        Err(TranscodingError {  })
    }
}

impl<P: ParameterSet> AsRef<[u8]> for SigningKey<P> {
    fn as_ref(&self) -> (bytes: &[u8])
        ensures
            ({
                let held: &[u8] = bytes;
                held@ == self@ && held@.len() == P::params().spec_sk_bytes()
            }),
    {
        proof {
            use_type_invariant(self);
        }
        self.sk.as_slice()
    }
}

impl<P: ParameterSet> AsRef<VerifyingKey<P>> for SigningKey<P> {
    fn as_ref(&self) -> (vk: &VerifyingKey<P>)
        ensures
            ({
                let held: &VerifyingKey<P> = vk;
                held@ == spec_public_part(P::params(), self@)
            }),
    {
        proof {
            use_type_invariant(self);
        }
        &self.vk
    }
}

} // verus!
