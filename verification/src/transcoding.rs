//! Values as byte strings, and byte strings as values.
use vstd::prelude::*;

verus! {

/// A byte string that is no encoding of the value asked for: it has not
/// the length that the parameter set fixes.
#[derive(Debug)]
pub struct TranscodingError;

impl TranscodingError {
    /// What went wrong, in words.
    pub fn message(&self) -> (text: &'static str)
        ensures
            text@ == "Transcoding error"@,
    {
        "Transcoding error"
    }
}

/// Types that can be represented as a byte slice.
pub trait AsBytes {
    /// The bytes that stand for the value.
    spec fn spec_bytes(&self) -> Seq<u8>;

    /// Returns a reference to the underlying byte slice.
    fn as_bytes(&self) -> (bytes: &[u8])
        ensures
            bytes@ == self.spec_bytes(),
    ;
}

/// Fallible parse from a byte slice.
pub trait FromBytes: Sized {
    /// The error type returned when parsing from bytes fails.
    type Error;

    /// Whether `input` stands for a value.
    spec fn spec_decodes(input: Seq<u8>) -> bool;

    /// The bytes that stand for the value.
    spec fn spec_encoding(&self) -> Seq<u8>;

    /// Try to build an instance of this object from a byte slice: the
    /// value that `input` stands for, or an error where it stands for
    /// none.
    fn from_bytes(input: &[u8]) -> (r: Result<Self, Self::Error>)
        ensures
            r.is_ok() <==> Self::spec_decodes(input@),
            r matches Ok(v) ==> v.spec_encoding() == input@,
    ;
}

} // verus!
