//! Public keys as values of their parameter set.
use vstd::prelude::*;
use vstd::std_specs::convert::TryFromSpecImpl;
use core::marker::PhantomData;
use crate::parameter_set::ParameterSet;
use crate::signature_encoding::Signature;
use crate::slh::{slh_verify, spec_verify};
use crate::transcoding::{AsBytes, FromBytes, TranscodingError};

verus! {

/// Public key for signature verification: the public seed and the root of
/// the hypertree.
#[derive(Debug)]
pub struct VerifyingKey<P: ParameterSet> {
    pk: Vec<u8>,
    marker: PhantomData<P>,
}

impl<P: ParameterSet> VerifyingKey<P> {
    #[verifier::type_invariant]
    spec fn well_formed(self) -> bool {
        self.pk@.len() == P::params().spec_pk_bytes()
    }

    /// The bytes of the key.
    pub closed spec fn view(&self) -> Seq<u8> {
        self.pk@
    }

    /// The key that `pk` holds.
    pub(crate) fn from_vec(pk: Vec<u8>) -> (key: Self)
        requires
            pk@.len() == P::params().spec_pk_bytes(),
        ensures
            key@ == pk@,
    {
        VerifyingKey { pk, marker: PhantomData }
    }

    /// Whether `signature` is a signature of `message` in the context
    /// `context` under this key: `Ok` if it is, an error if it is not. A
    /// context of more than 255 bytes has no signatures.
    pub fn verify_with_ctx(&self, message: &[u8], context: &[u8], signature: &Signature<P>) -> (r:
        Result<(), signature::Error>)
        ensures
            r.is_ok() <==> spec_verify(P::params(), self@, message@, context@, signature@),
    {
        proof {
            use_type_invariant(self);
        }
        let p = P::prm();
        if slh_verify(&p, self.pk.as_slice(), message, context, signature.as_bytes()) {
            Ok(())
        } else {
            Err(signature::Error::new())
        }
    }

    /// Whether `signature` is a signature of `message` in the empty
    /// context under this key.
    pub fn verify(&self, msg: &[u8], signature: &Signature<P>) -> (r: Result<(), signature::Error>)
        ensures
            r.is_ok() <==> spec_verify(P::params(), self@, msg@, Seq::empty(), signature@),
    {
        let empty: [u8; 0] = [];
        assert(empty@ =~= Seq::<u8>::empty());
        self.verify_with_ctx(msg, empty.as_slice(), signature)
    }

    /// Whether the bytes `signature` are a signature of `message` in the
    /// context `context` under this key. Bytes that have not the length of
    /// a signature are no encoding of one: that is an error, and no
    /// answer.
    pub fn verify_encoded_with_ctx(&self, message: &[u8], context: &[u8], signature: &[u8]) -> (r:
        Result<bool, TranscodingError>)
        ensures
            r.is_ok() <==> signature@.len() == P::params().spec_sig_bytes(),
            r matches Ok(valid) ==> valid == spec_verify(
                P::params(),
                self@,
                message@,
                context@,
                signature@,
            ),
    {
        proof {
            use_type_invariant(self);
        }
        let p = P::prm();
        if signature.len() != p.sig_bytes() {
            return Err(TranscodingError {  });
        }
        Ok(slh_verify(&p, self.pk.as_slice(), message, context, signature))
    }
}

impl<P: ParameterSet> Clone for VerifyingKey<P> {
    fn clone(&self) -> (key: Self)
        ensures
            key@ == self@,
    {
        proof {
            use_type_invariant(self);
        }
        VerifyingKey { pk: vstd::slice::slice_to_vec(self.pk.as_slice()), marker: PhantomData }
    }
}

impl<P: ParameterSet> AsBytes for VerifyingKey<P> {
    open spec fn spec_bytes(&self) -> Seq<u8> {
        self@
    }

    fn as_bytes(&self) -> (bytes: &[u8])
        ensures
            bytes@.len() == P::params().spec_pk_bytes(),
    {
        proof {
            use_type_invariant(self);
        }
        self.pk.as_slice()
    }
}

impl<P: ParameterSet> FromBytes for VerifyingKey<P> {
    type Error = TranscodingError;

    open spec fn spec_decodes(input: Seq<u8>) -> bool {
        input.len() == P::params().spec_pk_bytes()
    }

    open spec fn spec_encoding(&self) -> Seq<u8> {
        self@
    }

    fn from_bytes(input: &[u8]) -> (r: Result<Self, Self::Error>) {
        if input.len() != P::verifying_key_len() {
            return Err(TranscodingError {  });
        }
        Ok(VerifyingKey { pk: vstd::slice::slice_to_vec(input), marker: PhantomData })
    }
}

impl<P: ParameterSet> TryFrom<&[u8]> for VerifyingKey<P> {
    type Error = TranscodingError;

    fn try_from(bytes: &[u8]) -> (r: Result<Self, Self::Error>)
        ensures
            r.is_ok() <==> bytes@.len() == P::params().spec_pk_bytes(),
            r matches Ok(key) ==> key@ == bytes@,
    {
        Self::from_bytes(bytes)
    }
}

impl<P: ParameterSet> TryFromSpecImpl<&[u8]> for VerifyingKey<P> {
    open spec fn obeys_try_from_spec() -> bool {
        false
    }

    open spec fn try_from_spec(v: &[u8]) -> Result<Self, Self::Error> {
        Err(TranscodingError {  })
    }
}

impl<P: ParameterSet> AsRef<[u8]> for VerifyingKey<P> {
    fn as_ref(&self) -> (bytes: &[u8])
        ensures
            ({
                let held: &[u8] = bytes;
                held@ == self@ && held@.len() == P::params().spec_pk_bytes()
            }),
    {
        proof {
            use_type_invariant(self);
        }
        self.pk.as_slice()
    }
}

} // verus!
