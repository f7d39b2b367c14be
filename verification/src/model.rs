use vstd::prelude::*;

use crate::byte_order::{bytes_equal, copy_bytes};
use crate::hash_model::OmniHash;

verus! {

/// The views of a list of strings.
pub open spec fn string_views(v: Seq<String>) -> Seq<Seq<char>> {
    v.map_values(|s: String| s@)
}

/// A copy of a list of strings.
pub fn copy_strings(v: &Vec<String>) -> (r: Vec<String>)
    ensures
        string_views(r@) == string_views(v@),
{
    let mut r: Vec<String> = Vec::new();
    let mut i: usize = 0;
    while i < v.len()
        invariant
            i <= v@.len(),
            r@.len() == i,
            forall|j: int| 0 <= j < i ==> #[trigger] r@[j]@ == v@[j]@,
        decreases v@.len() - i,
    {
        r.push(v[i].clone());
        i = i + 1;
    }
    assert(string_views(r@) =~= string_views(v@));
    r
}

/// A node's public key, in the encoding of the session certificates, and the
/// addresses where it can be reached. The node's ID is derived from the key.
#[derive(Debug)]
pub struct NodeProfile {
    pub public_key: Vec<u8>,
    pub addrs: Vec<String>,
}

impl View for NodeProfile {
    type V = (Seq<u8>, Seq<Seq<char>>);

    open spec fn view(&self) -> (Seq<u8>, Seq<Seq<char>>) {
        (self.public_key@, string_views(self.addrs@))
    }
}

impl NodeProfile {
    /// A profile with the given key and addresses.
    pub fn new(public_key: Vec<u8>, addrs: Vec<String>) -> (r: Self)
        ensures
            r@ == (public_key@, string_views(addrs@)),
    {
        NodeProfile { public_key, addrs }
    }

    /// The public key, in the encoding of the session certificates.
    pub fn public_key(&self) -> (r: &[u8])
        ensures
            r@ == self.public_key@,
    {
        self.public_key.as_slice()
    }

    /// A copy of this profile.
    pub fn duplicate(&self) -> (r: Self)
        ensures
            r@ == self@,
    {
        NodeProfile { public_key: copy_bytes(self.public_key.as_slice()), addrs: copy_strings(&self.addrs) }
    }

    /// Whether two profiles are equal: same key and same addresses, in order.
    pub fn equals(&self, other: &NodeProfile) -> (r: bool)
        ensures
            r == (self@ == other@),
    {
        if !bytes_equal(self.public_key.as_slice(), other.public_key.as_slice()) {
            return false;
        }
        if self.addrs.len() != other.addrs.len() {
            assert(string_views(self.addrs@).len() != string_views(other.addrs@).len());
            return false;
        }
        let mut i: usize = 0;
        while i < self.addrs.len()
            invariant
                i <= self.addrs@.len(),
                self.addrs@.len() == other.addrs@.len(),
                forall|j: int| 0 <= j < i ==> #[trigger] self.addrs@[j]@ == other.addrs@[j]@,
            decreases self.addrs@.len() - i,
        {
            if self.addrs[i] != other.addrs[i] {
                assert(string_views(self.addrs@)[i as int] != string_views(other.addrs@)[i as int]);
                return false;
            }
            i = i + 1;
        }
        assert(string_views(self.addrs@) =~= string_views(other.addrs@));
        true
    }
}

/// The key of an asset that nodes look for: its type and its hash.
#[derive(Debug)]
pub struct AssetKey {
    pub typ: String,
    pub hash: OmniHash,
}

impl View for AssetKey {
    type V = (Seq<char>, (crate::hash_model::OmniHashAlgorithmType, Seq<u8>));

    open spec fn view(&self) -> (Seq<char>, (crate::hash_model::OmniHashAlgorithmType, Seq<u8>)) {
        (self.typ@, self.hash@)
    }
}

impl AssetKey {
    /// Whether two keys are equal.
    pub fn equals(&self, other: &AssetKey) -> (r: bool)
        ensures
            r == (self@ == other@),
    {
        self.typ == other.typ && self.hash.same_as(&other.hash)
    }
}

/// A reference to a published file: its name and the root hash of its tree.
#[derive(Debug)]
pub struct FileRef {
    pub name: String,
    pub hash: OmniHash,
}

} // verus!
