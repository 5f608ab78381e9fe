//! The blob store: how blobs are named and where they lie.

use vstd::prelude::*;
use vstd::slice::slice_to_vec;
use crate::error::FileError;

pub mod file_id;
pub mod file_store;
pub mod path_gen;

verus! {

/// A locator for a stored blob that can be written down as bytes and read
/// back without loss.
pub trait Identifier: View + Sized {
    /// The bytes that stand for a locator.
    spec fn encoding(v: Self::V) -> Seq<u8>;

    /// The locator that bytes stand for, if any.
    spec fn decoding(bytes: Seq<u8>) -> Option<Self::V>;

    /// Reading the bytes of a locator gives the locator back.
    proof fn lemma_round_trip(v: Self::V)
        ensures
            Self::decoding(Self::encoding(v)) == Some(v),
    ;

    /// The bytes that stand for this locator.
    fn to_bytes(&self) -> (r: Vec<u8>)
        ensures
            r@ == Self::encoding(self@),
    ;

    /// The locator that `bytes` stand for. Bytes that stand for none are
    /// refused as a malformed identifier.
    fn from_bytes(bytes: Vec<u8>) -> (r: Result<Self, FileError>)
        ensures
            match r {
                Ok(id) => Self::decoding(bytes@) == Some(id@),
                Err(e) => e == FileError::IdError && Self::decoding(bytes@) is None,
            },
    ;
}

impl Identifier for Vec<u8> {
    open spec fn encoding(v: Seq<u8>) -> Seq<u8> {
        v
    }

    open spec fn decoding(bytes: Seq<u8>) -> Option<Seq<u8>> {
        Some(bytes)
    }

    proof fn lemma_round_trip(v: Seq<u8>) {
    }

    fn to_bytes(&self) -> (r: Vec<u8>) {
        slice_to_vec(self.as_slice())
    }

    fn from_bytes(bytes: Vec<u8>) -> (r: Result<Self, FileError>) {
        Ok(bytes)
    }
}

} // verus!
