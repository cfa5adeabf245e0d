//! Signatures as values of their parameter set.
use vstd::prelude::*;
use vstd::std_specs::convert::TryFromSpecImpl;
use core::marker::PhantomData;
use crate::parameter_set::ParameterSet;
use crate::transcoding::{AsBytes, FromBytes, TranscodingError};

verus! {

/// The error of the crate signature: a value without content, which says
/// no more than that signing failed or that a signature is not valid.
#[verifier::external_type_specification]
#[verifier::external_body]
pub struct ExSignatureError(signature::Error);

/// `Error::new` of the crate signature makes an error without a source.
pub assume_specification[ signature::Error::new ]() -> signature::Error;

/// A signature under the parameter set `P`: a byte string of the length
/// that the set fixes.
#[derive(Debug, PartialEq, Eq)]
pub struct Signature<P: ParameterSet> {
    sig: Vec<u8>,
    marker: PhantomData<P>,
}

impl<P: ParameterSet> Signature<P> {
    #[verifier::type_invariant]
    spec fn well_formed(self) -> bool {
        self.sig@.len() == P::params().spec_sig_bytes()
    }

    /// The bytes of the signature.
    pub closed spec fn view(&self) -> Seq<u8> {
        self.sig@
    }

    /// The signature that `sig` holds.
    pub(crate) fn from_vec(sig: Vec<u8>) -> (s: Self)
        requires
            sig@.len() == P::params().spec_sig_bytes(),
        ensures
            s@ == sig@,
    {
        Signature { sig, marker: PhantomData }
    }

    /// The bytes of the signature, copied.
    pub fn to_bytes(&self) -> (bytes: Vec<u8>)
        ensures
            bytes@ == self@,
            bytes@.len() == P::params().spec_sig_bytes(),
    {
        proof {
            use_type_invariant(self);
        }
        vstd::slice::slice_to_vec(self.sig.as_slice())
    }
}

impl<P: ParameterSet> Clone for Signature<P> {
    fn clone(&self) -> (s: Self)
        ensures
            s@ == self@,
    {
        proof {
            use_type_invariant(self);
        }
        Signature { sig: vstd::slice::slice_to_vec(self.sig.as_slice()), marker: PhantomData }
    }
}

impl<P: ParameterSet> AsBytes for Signature<P> {
    open spec fn spec_bytes(&self) -> Seq<u8> {
        self@
    }

    fn as_bytes(&self) -> (bytes: &[u8])
        ensures
            bytes@.len() == P::params().spec_sig_bytes(),
    {
        proof {
            use_type_invariant(self);
        }
        self.sig.as_slice()
    }
}

impl<P: ParameterSet> FromBytes for Signature<P> {
    type Error = TranscodingError;

    open spec fn spec_decodes(input: Seq<u8>) -> bool {
        input.len() == P::params().spec_sig_bytes()
    }

    open spec fn spec_encoding(&self) -> Seq<u8> {
        self@
    }

    fn from_bytes(input: &[u8]) -> (r: Result<Self, Self::Error>) {
        if input.len() != P::signature_len() {
            return Err(TranscodingError {  });
        }
        Ok(Signature { sig: vstd::slice::slice_to_vec(input), marker: PhantomData })
    }
}

impl<P: ParameterSet> TryFrom<&[u8]> for Signature<P> {
    type Error = TranscodingError;

    fn try_from(bytes: &[u8]) -> (r: Result<Self, Self::Error>)
        ensures
            r.is_ok() <==> bytes@.len() == P::params().spec_sig_bytes(),
            r matches Ok(sig) ==> sig@ == bytes@,
    {
        Self::from_bytes(bytes)
    }
}

impl<P: ParameterSet> TryFromSpecImpl<&[u8]> for Signature<P> {
    open spec fn obeys_try_from_spec() -> bool {
        false
    }

    open spec fn try_from_spec(v: &[u8]) -> Result<Self, Self::Error> {
        Err(TranscodingError {  })
    }
}

impl<P: ParameterSet> AsRef<[u8]> for Signature<P> {
    fn as_ref(&self) -> (bytes: &[u8])
        ensures
            ({
                let held: &[u8] = bytes;
                held@ == self@ && held@.len() == P::params().spec_sig_bytes()
            }),
    {
        proof {
            use_type_invariant(self);
        }
        self.sig.as_slice()
    }
}

} // verus!
