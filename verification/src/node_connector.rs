use vstd::prelude::*;

use crate::byte_order::{bytes_equal, copy_bytes};
use crate::error::{Error, ErrorKind};
use crate::rng::random_index;
use crate::session_registry::SessionRegistry;

verus! {

/// The IDs of the nodes that a connector of this node is dialing right now.
pub struct ConnectingIds {
    ids: Vec<Vec<u8>>,
}

/// Whether a list of byte strings holds `k`.
pub open spec fn holds(s: Seq<Vec<u8>>, k: Seq<u8>) -> bool {
    exists|i: int| 0 <= i < s.len() && #[trigger] s[i]@ == k
}

fn contains_id(s: &Vec<Vec<u8>>, k: &[u8]) -> (r: bool)
    ensures
        r == holds(s@, k@),
{
    let mut i: usize = 0;
    while i < s.len()
        invariant
            i <= s@.len(),
            forall|j: int| 0 <= j < i ==> #[trigger] s@[j]@ != k@,
        decreases s@.len() - i,
    {
        if bytes_equal(s[i].as_slice(), k) {
            return true;
        }
        i = i + 1;
    }
    false
}

impl View for ConnectingIds {
    type V = Set<Seq<u8>>;

    closed spec fn view(&self) -> Set<Seq<u8>> {
        Set::new(|k: Seq<u8>| holds(self.ids@, k))
    }
}

impl ConnectingIds {
    /// No node is being dialed.
    pub fn new() -> (r: Self)
        ensures
            r@ == Set::<Seq<u8>>::empty(),
    {
        let r = ConnectingIds { ids: Vec::new() };
        assert(r@ =~= Set::<Seq<u8>>::empty());
        r
    }

    /// Whether the node `id` is being dialed.
    pub fn contains(&self, id: &[u8]) -> (r: bool)
        ensures
            r == self@.contains(id@),
    {
        contains_id(&self.ids, id)
    }

    /// Whether no node is being dialed.
    pub fn is_empty(&self) -> (r: bool)
        ensures
            r == (self@ == Set::<Seq<u8>>::empty()),
    {
        if self.ids.len() == 0 {
            assert(self@ =~= Set::<Seq<u8>>::empty());
            true
        } else {
            assert(self@.contains(self.ids@[0]@));
            false
        }
    }

    /// Marks the node `id` as being dialed.
    pub fn insert(&mut self, id: &[u8])
        ensures
            final(self)@ == old(self)@.insert(id@),
    {
        let ghost before = self.ids@;
        self.ids.push(copy_bytes(id));
        proof {
            assert forall|k: Seq<u8>| holds(self.ids@, k) <==> holds(before, k) || k == id@ by {
                if holds(before, k) {
                    let j = choose|j: int| 0 <= j < before.len() && #[trigger] before[j]@ == k;
                    assert(self.ids@[j]@ == k);
                }
                if k == id@ {
                    assert(self.ids@[before.len() as int]@ == k);
                }
                if holds(self.ids@, k) {
                    let j = choose|j: int| 0 <= j < self.ids@.len() && #[trigger] self.ids@[j]@ == k;
                    if j < before.len() {
                        assert(before[j]@ == k);
                    }
                }
            }
            assert forall|k: Seq<u8>| self@.contains(k) == old(self)@.insert(id@).contains(k) by {
                assert(self@.contains(k) == holds(self.ids@, k));
                assert(old(self)@.contains(k) == holds(before, k));
            }
            assert(self@ =~= old(self)@.insert(id@));
        }
    }

    /// Marks the node `id` as no longer being dialed.
    pub fn remove(&mut self, id: &[u8])
        ensures
            final(self)@ == old(self)@.remove(id@),
    {
        let mut kept: Vec<Vec<u8>> = Vec::new();
        let mut i: usize = 0;
        while i < self.ids.len()
            invariant
                i <= self.ids@.len(),
                forall|k: Seq<u8>|
                    holds(kept@, k) <==> (k != id@ && exists|j: int| 0 <= j < i && #[trigger] self.ids@[j]@ == k),
            decreases self.ids@.len() - i,
        {
            let ghost kept_before = kept@;
            if !bytes_equal(self.ids[i].as_slice(), id) {
                kept.push(copy_bytes(self.ids[i].as_slice()));
            }
            proof {
                assert forall|k: Seq<u8>|
                    holds(kept@, k) <==> (k != id@ && exists|j: int| 0 <= j < i + 1 && #[trigger] self.ids@[j]@ == k) by {
                    if holds(kept@, k) {
                        let j = choose|j: int| 0 <= j < kept@.len() && #[trigger] kept@[j]@ == k;
                        if j < kept_before.len() {
                            assert(kept@[j] == kept_before[j]);
                            assert(kept_before[j]@ == k);
                            assert(holds(kept_before, k));
                            let w = choose|w: int| 0 <= w < i && #[trigger] self.ids@[w]@ == k;
                            assert(self.ids@[w]@ == k);
                        } else {
                            assert(self.ids@[i as int]@ == k);
                        }
                    }
                    if k != id@ && exists|j: int| 0 <= j < i + 1 && #[trigger] self.ids@[j]@ == k {
                        let j = choose|j: int| 0 <= j < i + 1 && #[trigger] self.ids@[j]@ == k;
                        if j < i {
                            assert(self.ids@[j]@ == k);
                            assert(holds(kept_before, k));
                            let m = choose|m: int| 0 <= m < kept_before.len() && #[trigger] kept_before[m]@ == k;
                            assert(kept@[m] == kept_before[m]);
                            assert(kept@[m]@ == k);
                        } else {
                            assert(kept@[kept@.len() - 1]@ == k);
                        }
                    }
                }
            }
            i = i + 1;
        }
        self.ids = kept;
        proof {
            assert(self@ =~= old(self)@.remove(id@));
        }
    }
}

/// Whether a node is one the connector may dial: it is not this node, has no
/// session with this node, was not dialed lately and is not being dialed.
pub open spec fn dialable(
    id: Seq<u8>,
    my_id: Seq<u8>,
    excluded: Seq<Vec<u8>>,
    connecting: Set<Seq<u8>>,
) -> bool {
    id != my_id && !holds(excluded, id) && !connecting.contains(id)
}

/// A connector never dials this node itself, a node on the exclusion list, or
/// a node being dialed; every other node may be dialed.
pub proof fn lemma_dialable_excludes_exactly(
    id: Seq<u8>,
    my_id: Seq<u8>,
    excluded: Seq<Vec<u8>>,
    connecting: Set<Seq<u8>>,
)
    ensures
        id == my_id ==> !dialable(id, my_id, excluded, connecting),
        forall|j: int| 0 <= j < excluded.len() && (#[trigger] excluded[j])@ == id ==> !dialable(id, my_id, excluded, connecting),
        connecting.contains(id) ==> !dialable(id, my_id, excluded, connecting),
        id != my_id && !connecting.contains(id) && (forall|j: int| 0 <= j < excluded.len() ==> (#[trigger] excluded[j])@
            != id) ==> dialable(id, my_id, excluded, connecting),
{
}

/// The decisions that a session connector of the node finder takes on its own.
pub struct TaskConnector;

impl TaskConnector {
    /// Whether a connector should dial one more node: fewer sessions dialed by
    /// this node than `max_connected_session_count`.
    pub fn wants_more_sessions(sessions: &SessionRegistry, max_connected_session_count: usize) -> (r: bool)
        ensures
            r == (sessions@.dom().filter(
                |k: Seq<u8>| sessions@[k].handshake_type == crate::session::SessionHandshakeType::Connected,
            ).len() < max_connected_session_count),
    {
        sessions.connected_count() < max_connected_session_count
    }

    /// Chooses at random, among the known nodes `node_ids`, one that may be
    /// dialed (see [`dialable`]) and marks it as being dialed, so that no other
    /// connector of this node dials it at the same time. `excluded` holds the
    /// nodes with a session and those dialed lately. Returns the position of the
    /// chosen node in `node_ids`, or `NotFound` when there is none.
    pub fn reserve_target(
        my_id: &[u8],
        excluded: &Vec<Vec<u8>>,
        node_ids: &Vec<Vec<u8>>,
        connecting: &mut ConnectingIds,
    ) -> (r: Result<usize, Error>)
        ensures
            match r {
                Ok(i) => {
                    &&& i < node_ids@.len()
                    &&& dialable(node_ids@[i as int]@, my_id@, excluded@, old(connecting)@)
                    &&& final(connecting)@ == old(connecting)@.insert(node_ids@[i as int]@)
                },
                Err(e) => {
                    &&& forall|j: int|
                        0 <= j < node_ids@.len() ==> !dialable(#[trigger] node_ids@[j]@, my_id@, excluded@, old(connecting)@)
                    &&& final(connecting)@ == old(connecting)@
                    &&& e.kind == ErrorKind::NotFound
                    &&& e.message matches Some(m) && m@ == "node profile is not found"@
                },
            },
    {
        let mut candidates: Vec<usize> = Vec::new();
        let mut i: usize = 0;
        while i < node_ids.len()
            invariant
                i <= node_ids@.len(),
                forall|j: int| 0 <= j < candidates@.len() ==> #[trigger] candidates@[j] < i,
                forall|j: int|
                    0 <= j < candidates@.len() ==> dialable(node_ids@[#[trigger] candidates@[j] as int]@, my_id@, excluded@, connecting@),
                forall|j: int|
                    0 <= j < i && dialable(#[trigger] node_ids@[j]@, my_id@, excluded@, connecting@) ==> exists|m: int|
                        0 <= m < candidates@.len() && candidates@[m] == j,
            decreases node_ids@.len() - i,
        {
            let id = node_ids[i].as_slice();
            let ghost before = candidates@;
            if !bytes_equal(id, my_id) && !contains_id(excluded, id) && !connecting.contains(id) {
                candidates.push(i);
            }
            proof {
                assert forall|j: int|
                    0 <= j < i + 1 && dialable(#[trigger] node_ids@[j]@, my_id@, excluded@, connecting@) implies exists|m: int|
                        0 <= m < candidates@.len() && candidates@[m] == j by {
                    if j < i {
                        let m = choose|m: int| 0 <= m < before.len() && before[m] == j;
                        assert(candidates@[m] == j);
                    } else {
                        assert(candidates@[candidates@.len() - 1] == j);
                    }
                }
            }
            i = i + 1;
        }
        if candidates.len() == 0 {
            proof {
                assert forall|j: int| 0 <= j < node_ids@.len() implies !dialable(#[trigger] node_ids@[j]@, my_id@, excluded@, connecting@) by {
                    if dialable(node_ids@[j]@, my_id@, excluded@, connecting@) {
                        let m = choose|m: int| 0 <= m < candidates@.len() && candidates@[m] == j;
                    }
                }
            }
            return Err(Error::new(ErrorKind::NotFound).with_message("node profile is not found".to_owned()));
        }
        let chosen = candidates[random_index(candidates.len())];
        connecting.insert(node_ids[chosen].as_slice());
        Ok(chosen)
    }

    /// Marks the node `id` as no longer being dialed, once its dial is over.
    pub fn release_target(id: &[u8], connecting: &mut ConnectingIds)
        ensures
            final(connecting)@ == old(connecting)@.remove(id@),
    {
        connecting.remove(id);
    }
}

/// How long a node that was dialed stays excluded from dialing, in seconds.
pub const DIALED_NODE_EXCLUSION_SECS: u64 = 180;

impl TaskConnector {
    /// The nodes that a connector does not dial: those dialed lately
    /// (`recently_dialed`, the nodes dialed in the last
    /// [`DIALED_NODE_EXCLUSION_SECS`] seconds), those with a session, and this
    /// node itself.
    pub fn excluded_ids(recently_dialed: &Vec<Vec<u8>>, sessions: &SessionRegistry, my_id: &[u8]) -> (r: Vec<
        Vec<u8>,
    >)
        ensures
            forall|k: Seq<u8>|
                holds(r@, k) <==> (holds(recently_dialed@, k) || sessions@.contains_key(k) || k == my_id@),
    {
        let mut r: Vec<Vec<u8>> = Vec::new();
        let mut i: usize = 0;
        while i < recently_dialed.len()
            invariant
                i <= recently_dialed@.len(),
                r@.len() == i,
                forall|j: int| 0 <= j < i ==> (#[trigger] r@[j])@ == recently_dialed@[j]@,
            decreases recently_dialed@.len() - i,
        {
            r.push(copy_bytes(recently_dialed[i].as_slice()));
            i = i + 1;
        }
        let ids = sessions.node_ids();
        let n = r.len();
        let mut j: usize = 0;
        while j < ids.len()
            invariant
                j <= ids@.len(),
                n == recently_dialed@.len(),
                r@.len() == n + j,
                forall|a: int| 0 <= a < n ==> (#[trigger] r@[a])@ == recently_dialed@[a]@,
                forall|a: int| 0 <= a < j ==> (#[trigger] r@[n + a])@ == ids@[a]@,
            decreases ids@.len() - j,
        {
            r.push(copy_bytes(ids[j].as_slice()));
            j = j + 1;
        }
        r.push(copy_bytes(my_id));
        proof {
            let m = n + ids@.len();
            assert forall|k: Seq<u8>|
                holds(r@, k) <==> (holds(recently_dialed@, k) || sessions@.contains_key(k) || k == my_id@) by {
                if holds(r@, k) {
                    let x = choose|x: int| 0 <= x < r@.len() && (#[trigger] r@[x])@ == k;
                    if x < n {
                        assert(recently_dialed@[x]@ == k);
                    } else if x < m {
                        assert(r@[n + (x - n)]@ == ids@[x - n]@);
                        assert(ids@[x - n]@ == k);
                    }
                }
                if holds(recently_dialed@, k) {
                    let x = choose|x: int| 0 <= x < recently_dialed@.len() && (#[trigger] recently_dialed@[x])@ == k;
                    assert(r@[x]@ == k);
                }
                if sessions@.contains_key(k) {
                    let x = choose|x: int| 0 <= x < ids@.len() && (#[trigger] ids@[x])@ == k;
                    assert(r@[n + x]@ == k);
                }
                if k == my_id@ {
                    assert(r@[m]@ == k);
                }
            }
        }
        r
    }
}

/// A reservation followed by its release leaves the set of nodes being dialed
/// as it was; while it holds, the reserved node is being dialed, so a second
/// reservation, by any connector, chooses another node.
pub proof fn lemma_reservation_is_exclusive(
    connecting: Set<Seq<u8>>,
    reserved: Seq<u8>,
    other: Seq<u8>,
    my_id: Seq<u8>,
    excluded: Seq<Vec<u8>>,
)
    requires
        dialable(reserved, my_id, excluded, connecting),
        dialable(other, my_id, excluded, connecting.insert(reserved)),
    ensures
        other != reserved,
        connecting.insert(reserved).remove(reserved) == connecting,
{
    assert(connecting.insert(reserved).remove(reserved) =~= connecting);
}

} // verus!
