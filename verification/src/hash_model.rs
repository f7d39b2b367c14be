use vstd::prelude::*;

use crate::byte_order::{bytes_equal, copy_bytes};

verus! {

/// The hash algorithm of a digest.
#[derive(Debug, Clone, Copy, PartialEq, Eq, Structural)]
pub enum OmniHashAlgorithmType {
    Sha3_256,
}

/// A digest with the algorithm that made it.
#[derive(Debug)]
pub struct OmniHash {
    pub typ: OmniHashAlgorithmType,
    pub value: Vec<u8>,
}

impl View for OmniHash {
    type V = (OmniHashAlgorithmType, Seq<u8>);

    open spec fn view(&self) -> (OmniHashAlgorithmType, Seq<u8>) {
        (self.typ, self.value@)
    }
}

impl OmniHash {
    /// A digest of the given algorithm and value.
    pub fn new(typ: OmniHashAlgorithmType, value: Vec<u8>) -> (r: Self)
        ensures
            r@ == (typ, value@),
    {
        OmniHash { typ, value }
    }

    /// A copy of this digest.
    pub fn duplicate(&self) -> (r: Self)
        ensures
            r@ == self@,
    {
        OmniHash { typ: self.typ, value: copy_bytes(self.value.as_slice()) }
    }

    /// Whether two digests are the same.
    pub fn same_as(&self, other: &OmniHash) -> (r: bool)
        ensures
            r == (self@ == other@),
    {
        self.typ == other.typ && bytes_equal(self.value.as_slice(), other.value.as_slice())
    }
}

} // verus!
