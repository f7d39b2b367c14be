use vstd::prelude::*;

use crate::byte_order::{bytes_equal, bytes_less_than, copy_bytes, bytes_lt, lemma_bytes_lt_is_lexicographic, lemma_bytes_lt_trichotomy};
use crate::error::{Error, ErrorKind};
use crate::session::{opposite, SessionHandshakeType};

verus! {

/// The handshake type of the session that a node keeps when it holds two
/// sessions with the same other node: the one dialed by the node whose ID is
/// the smaller, seen from the node with ID `my_id`.
pub open spec fn preferred_handshake(my_id: Seq<u8>, other_id: Seq<u8>) -> SessionHandshakeType {
    if bytes_lt(my_id, other_id) {
        SessionHandshakeType::Connected
    } else {
        SessionHandshakeType::Accepted
    }
}

/// Whether a node keeps its existing session with another node when a new one
/// with the same node is established.
pub open spec fn keeps_existing(
    my_id: Seq<u8>,
    other_id: Seq<u8>,
    existing: SessionHandshakeType,
    new: SessionHandshakeType,
) -> bool {
    existing == preferred_handshake(my_id, other_id) || new != preferred_handshake(my_id, other_id)
}

/// The decisions that the session communicator takes on its own.
pub struct TaskCommunicator;

impl TaskCommunicator {
    /// When two sessions with the same node overlap, tells whether to keep the
    /// existing one. The session dialed by the node with the smaller ID is kept,
    /// so both ends choose the same session without exchanging a message.
    pub fn keeps_existing_session(
        my_id: &[u8],
        other_id: &[u8],
        existing: &SessionHandshakeType,
        new: &SessionHandshakeType,
    ) -> (r: bool)
        ensures
            r == keeps_existing(my_id@, other_id@, *existing, *new),
    {
        let preferred = if bytes_less_than(my_id, other_id) {
            SessionHandshakeType::Connected
        } else {
            SessionHandshakeType::Accepted
        };
        *existing == preferred || *new != preferred
    }
}

/// Both nodes of a pair keep the same one of two overlapping sessions: the one
/// dialed by the node whose ID is the smaller, whichever of the two sessions
/// each node registered first; and of two sessions dialed in the same
/// direction, the existing one stays.
pub proof fn lemma_both_nodes_keep_the_session_dialed_by_the_smaller_id(a: Seq<u8>, b: Seq<u8>)
    requires
        a != b,
    ensures
        ({
            // the session dialed by the node with the smaller ID, as `a` sees it
            let x_at_a = if bytes_lt(a, b) {
                SessionHandshakeType::Connected
            } else {
                SessionHandshakeType::Accepted
            };
            let y_at_a = opposite(x_at_a);
            let x_at_b = opposite(x_at_a);
            let y_at_b = x_at_a;
            &&& keeps_existing(a, b, x_at_a, y_at_a)
            &&& !keeps_existing(a, b, y_at_a, x_at_a)
            &&& keeps_existing(b, a, x_at_b, y_at_b)
            &&& !keeps_existing(b, a, y_at_b, x_at_b)
        }),
        forall|t: SessionHandshakeType| keeps_existing(a, b, t, t),
{
    lemma_bytes_lt_trichotomy(a, b);
}

/// The node whose ID has the smaller first byte, as an unsigned value, keeps
/// the session it dialed: it keeps an existing dialed session against a new
/// accepted one, and replaces an existing accepted one by a new dialed one.
pub proof fn lemma_smaller_first_byte_keeps_its_dialed_session(my_id: Seq<u8>, other_id: Seq<u8>)
    requires
        my_id.len() > 0,
        other_id.len() > 0,
        my_id[0] < other_id[0],
    ensures
        keeps_existing(my_id, other_id, SessionHandshakeType::Connected, SessionHandshakeType::Accepted),
        !keeps_existing(my_id, other_id, SessionHandshakeType::Accepted, SessionHandshakeType::Connected),
        keeps_existing(other_id, my_id, SessionHandshakeType::Accepted, SessionHandshakeType::Connected),
        !keeps_existing(other_id, my_id, SessionHandshakeType::Connected, SessionHandshakeType::Accepted),
{
    lemma_bytes_lt_is_lexicographic(my_id, other_id);
    lemma_bytes_lt_is_lexicographic(other_id, my_id);
    assert(my_id.take(0) =~= other_id.take(0));
}

/// What the registry holds for one node: how its session was opened, and a
/// token that tells that session apart from any other.
#[derive(Debug, Clone, Copy, PartialEq, Eq, Structural)]
pub struct SessionSlot {
    pub handshake_type: SessionHandshakeType,
    pub token: u64,
}

/// One session of the registry: the ID of the node at the other end and its slot.
#[derive(Debug)]
pub struct SessionEntry {
    pub node_id: Vec<u8>,
    pub slot: SessionSlot,
}

/// The established sessions of a node, at most one for each other node.
pub struct SessionRegistry {
    entries: Vec<SessionEntry>,
}

/// The map from node ID to slot that a list of entries stands for.
pub open spec fn map_of(s: Seq<SessionEntry>) -> Map<Seq<u8>, SessionSlot>
    decreases s.len(),
{
    if s.len() == 0 {
        Map::empty()
    } else {
        map_of(s.drop_last()).insert(s.last().node_id@, s.last().slot)
    }
}

/// No two entries are for the same node.
pub open spec fn distinct_ids(s: Seq<SessionEntry>) -> bool {
    forall|i: int, j: int|
        0 <= i < s.len() && 0 <= j < s.len() && i != j ==> #[trigger] s[i].node_id@ != #[trigger] s[j].node_id@
}

proof fn lemma_map_of_dom(s: Seq<SessionEntry>, k: Seq<u8>)
    ensures
        map_of(s).dom().contains(k) <==> exists|i: int| 0 <= i < s.len() && #[trigger] s[i].node_id@ == k,
    decreases s.len(),
{
    if s.len() > 0 {
        lemma_map_of_dom(s.drop_last(), k);
        if map_of(s).dom().contains(k) && k != s.last().node_id@ {
            let i = choose|i: int| 0 <= i < s.drop_last().len() && #[trigger] s.drop_last()[i].node_id@ == k;
            assert(s[i].node_id@ == k);
        }
        if exists|i: int| 0 <= i < s.len() && #[trigger] s[i].node_id@ == k {
            let i = choose|i: int| 0 <= i < s.len() && #[trigger] s[i].node_id@ == k;
            if i < s.len() - 1 {
                assert(s.drop_last()[i].node_id@ == k);
            }
        }
    }
}

proof fn lemma_map_of_value(s: Seq<SessionEntry>, i: int)
    requires
        distinct_ids(s),
        0 <= i < s.len(),
    ensures
        map_of(s).dom().contains(s[i].node_id@),
        map_of(s)[s[i].node_id@] == s[i].slot,
    decreases s.len(),
{
    if i < s.len() - 1 {
        assert(distinct_ids(s.drop_last()));
        lemma_map_of_value(s.drop_last(), i);
        assert(s.drop_last()[i] == s[i]);
        assert(s[i].node_id@ != s[s.len() - 1].node_id@);
    }
}

proof fn lemma_map_of_equal(s: Seq<SessionEntry>, t: Seq<SessionEntry>, m: Map<Seq<u8>, SessionSlot>)
    requires
        distinct_ids(t),
        forall|k: Seq<u8>|
            m.dom().contains(k) <==> exists|i: int| 0 <= i < t.len() && #[trigger] t[i].node_id@ == k,
        forall|i: int| 0 <= i < t.len() ==> m.dom().contains(#[trigger] t[i].node_id@) && m[t[i].node_id@] == t[i].slot,
    ensures
        map_of(t) == m,
{
    assert forall|k: Seq<u8>| map_of(t).dom().contains(k) <==> m.dom().contains(k) by {
        lemma_map_of_dom(t, k);
    }
    assert forall|k: Seq<u8>| #[trigger] map_of(t).dom().contains(k) implies map_of(t)[k] == m[k] by {
        lemma_map_of_dom(t, k);
        let i = choose|i: int| 0 <= i < t.len() && #[trigger] t[i].node_id@ == k;
        lemma_map_of_value(t, i);
    }
    assert(map_of(t) =~= m);
}

/// Whether registering a new session with `other_id` is refused: there is
/// already one and the rule of [`keeps_existing`] keeps it.
pub open spec fn register_refused(
    m: Map<Seq<u8>, SessionSlot>,
    my_id: Seq<u8>,
    other_id: Seq<u8>,
    handshake_type: SessionHandshakeType,
) -> bool {
    m.contains_key(other_id) && keeps_existing(my_id, other_id, m[other_id].handshake_type, handshake_type)
}

/// The registry after an attempt to register a new session with `other_id`.
pub open spec fn after_register(
    m: Map<Seq<u8>, SessionSlot>,
    my_id: Seq<u8>,
    other_id: Seq<u8>,
    slot: SessionSlot,
) -> Map<Seq<u8>, SessionSlot> {
    if register_refused(m, my_id, other_id, slot.handshake_type) {
        m
    } else {
        m.insert(other_id, slot)
    }
}

/// The registry after the session with token `token` with `other_id` closed:
/// its entry goes only if it is still that session.
pub open spec fn after_unregister(
    m: Map<Seq<u8>, SessionSlot>,
    other_id: Seq<u8>,
    token: u64,
) -> Map<Seq<u8>, SessionSlot> {
    if m.contains_key(other_id) && m[other_id].token == token {
        m.remove(other_id)
    } else {
        m
    }
}

impl View for SessionRegistry {
    type V = Map<Seq<u8>, SessionSlot>;

    closed spec fn view(&self) -> Map<Seq<u8>, SessionSlot> {
        map_of(self.entries@)
    }
}

impl SessionRegistry {
    #[verifier::type_invariant]
    spec fn wf(&self) -> bool {
        distinct_ids(self.entries@)
    }

    /// An empty registry.
    pub fn new() -> (r: Self)
        ensures
            r@ == Map::<Seq<u8>, SessionSlot>::empty(),
    {
        SessionRegistry { entries: Vec::new() }
    }

    fn find(&self, node_id: &[u8]) -> (r: Option<usize>)
        ensures
            match r {
                Some(i) => i < self.entries@.len() && self.entries@[i as int].node_id@ == node_id@,
                None => forall|i: int| 0 <= i < self.entries@.len() ==> #[trigger] self.entries@[i].node_id@ != node_id@,
            },
    {
        let mut i: usize = 0;
        while i < self.entries.len()
            invariant
                i <= self.entries@.len(),
                forall|j: int| 0 <= j < i ==> #[trigger] self.entries@[j].node_id@ != node_id@,
            decreases self.entries@.len() - i,
        {
            if bytes_equal(self.entries[i].node_id.as_slice(), node_id) {
                return Some(i);
            }
            i = i + 1;
        }
        None
    }

    /// The number of established sessions.
    pub fn len(&self) -> (r: usize)
        ensures
            r == self@.len(),
    {
        proof {
            use_type_invariant(self);
            self.lemma_len();
        }
        self.entries.len()
    }

    proof fn lemma_len(&self)
        requires
            distinct_ids(self.entries@),
        ensures
            self@.len() == self.entries@.len(),
            self@.dom().finite(),
    {
        lemma_map_of_len(self.entries@);
    }

    /// The slot held for the node `node_id`, if there is a session with it.
    pub fn get(&self, node_id: &[u8]) -> (r: Option<SessionSlot>)
        ensures
            r == (if self@.contains_key(node_id@) {
                Some(self@[node_id@])
            } else {
                None
            }),
    {
        proof {
            use_type_invariant(self);
            lemma_map_of_dom(self.entries@, node_id@);
        }
        match self.find(node_id) {
            Some(i) => {
                proof {
                    lemma_map_of_value(self.entries@, i as int);
                }
                Some(self.entries[i].slot)
            },
            None => None,
        }
    }

    /// Registers a new session with the node `other_id`, as the node `my_id`.
    /// When a session with that node exists and the rule of
    /// [`TaskCommunicator::keeps_existing_session`] keeps it, the new session is
    /// refused with `AlreadyExists`; otherwise the new session takes the place of
    /// the old one, whose token is returned.
    pub fn register(&mut self, my_id: &[u8], other_id: &[u8], slot: SessionSlot) -> (r: Result<
        Option<u64>,
        Error,
    >)
        ensures
            final(self)@ == after_register(old(self)@, my_id@, other_id@, slot),
            match r {
                Ok(replaced) => !register_refused(old(self)@, my_id@, other_id@, slot.handshake_type)
                    && replaced == (if old(self)@.contains_key(other_id@) {
                    Some(old(self)@[other_id@].token)
                } else {
                    None
                }),
                Err(e) => {
                    &&& register_refused(old(self)@, my_id@, other_id@, slot.handshake_type)
                    &&& e.kind == ErrorKind::AlreadyExists
                    &&& e.message matches Some(m) && m@ == "Session already exists"@
                },
            },
    {
        proof {
            use_type_invariant(&*self);
            lemma_map_of_dom(self.entries@, other_id@);
        }
        match self.find(other_id) {
            Some(i) => {
                let existing = self.entries[i].slot;
                proof {
                    lemma_map_of_value(self.entries@, i as int);
                }
                if TaskCommunicator::keeps_existing_session(
                    my_id,
                    other_id,
                    &existing.handshake_type,
                    &slot.handshake_type,
                ) {
                    return Err(
                        Error::new(ErrorKind::AlreadyExists).with_message(
                            "Session already exists".to_owned(),
                        ),
                    );
                }
                let ghost old_entries = self.entries@;
                let ghost old_map = self@;
                self.replace_slot(i, slot);
                proof {
                    let t = self.entries@;
                    let m = old_map.insert(other_id@, slot);
                    assert forall|k: Seq<u8>|
                        m.dom().contains(k) <==> exists|j: int| 0 <= j < t.len() && #[trigger] t[j].node_id@ == k by {
                        lemma_map_of_dom(old_entries, k);
                        if exists|j: int| 0 <= j < old_entries.len() && #[trigger] old_entries[j].node_id@ == k {
                            let j = choose|j: int| 0 <= j < old_entries.len() && #[trigger] old_entries[j].node_id@ == k;
                            assert(t[j].node_id@ == k);
                        }
                        if exists|j: int| 0 <= j < t.len() && #[trigger] t[j].node_id@ == k {
                            let j = choose|j: int| 0 <= j < t.len() && #[trigger] t[j].node_id@ == k;
                            assert(old_entries[j].node_id@ == k);
                        }
                    }
                    assert forall|j: int| 0 <= j < t.len() implies m.dom().contains(#[trigger] t[j].node_id@)
                        && m[t[j].node_id@] == t[j].slot by {
                        if j != i {
                            lemma_map_of_value(old_entries, j);
                        }
                    }
                    lemma_map_of_equal(old_entries, t, m);
                }
                Ok(Some(existing.token))
            },
            None => {
                let ghost old_entries = self.entries@;
                self.push_entry(other_id, slot);
                proof {
                    assert(self.entries@.drop_last() =~= old_entries);
                }
                Ok(None)
            },
        }
    }

    fn replace_slot(&mut self, i: usize, slot: SessionSlot)
        requires
            i < old(self).entries@.len(),
        ensures
            final(self).entries@.len() == old(self).entries@.len(),
            forall|j: int|
                0 <= j < old(self).entries@.len() ==> #[trigger] final(self).entries@[j].node_id@
                    == old(self).entries@[j].node_id@,
            forall|j: int|
                0 <= j < old(self).entries@.len() && j != i ==> #[trigger] final(self).entries@[j].slot
                    == old(self).entries@[j].slot,
            final(self).entries@[i as int].slot == slot,
    {
        proof {
            use_type_invariant(&*self);
        }
        let mut entries: Vec<SessionEntry> = Vec::new();
        std::mem::swap(&mut entries, &mut self.entries);
        let ghost before = entries@;
        let node_id = copy_bytes(entries[i].node_id.as_slice());
        entries.set(i, SessionEntry { node_id, slot });
        proof {
            assert forall|a: int, b: int|
                0 <= a < entries@.len() && 0 <= b < entries@.len() && a != b implies #[trigger] entries@[a].node_id@
                != #[trigger] entries@[b].node_id@ by {
                assert(before[a].node_id@ != before[b].node_id@);
            }
        }
        self.entries = entries;
    }

    fn push_entry(&mut self, node_id: &[u8], slot: SessionSlot)
        requires
            forall|i: int| 0 <= i < old(self).entries@.len() ==> #[trigger] old(self).entries@[i].node_id@ != node_id@,
        ensures
            final(self).entries@.len() == old(self).entries@.len() + 1,
            final(self).entries@.drop_last() == old(self).entries@,
            final(self).entries@.last().node_id@ == node_id@,
            final(self).entries@.last().slot == slot,
    {
        proof {
            use_type_invariant(&*self);
        }
        let entry = SessionEntry { node_id: copy_bytes(node_id), slot };
        let mut entries: Vec<SessionEntry> = Vec::new();
        std::mem::swap(&mut entries, &mut self.entries);
        let ghost before = entries@;
        entries.push(entry);
        proof {
            assert(entries@.drop_last() =~= before);
            assert forall|a: int, b: int|
                0 <= a < entries@.len() && 0 <= b < entries@.len() && a != b implies #[trigger] entries@[a].node_id@
                != #[trigger] entries@[b].node_id@ by {
                if a < before.len() && b < before.len() {
                    assert(before[a].node_id@ != before[b].node_id@);
                } else if a < before.len() {
                    assert(before[a].node_id@ != node_id@);
                } else {
                    assert(before[b].node_id@ != node_id@);
                }
            }
        }
        self.entries = entries;
    }

    /// Removes the session with the node `other_id` when it is still the one
    /// with token `token`; a session that has taken its place stays.
    pub fn unregister(&mut self, other_id: &[u8], token: u64)
        ensures
            final(self)@ == after_unregister(old(self)@, other_id@, token),
    {
        proof {
            use_type_invariant(&*self);
            lemma_map_of_dom(self.entries@, other_id@);
        }
        if let Some(i) = self.find(other_id) {
            proof {
                lemma_map_of_value(self.entries@, i as int);
            }
            if self.entries[i].slot.token == token {
                let ghost old_entries = self.entries@;
                let ghost old_map = self@;
                self.remove_entry(i);
                proof {
                    let t = self.entries@;
                    let m = old_map.remove(other_id@);
                    assert(t =~= old_entries.remove(i as int));
                    assert forall|k: Seq<u8>|
                        m.dom().contains(k) <==> exists|j: int| 0 <= j < t.len() && #[trigger] t[j].node_id@ == k by {
                        lemma_map_of_dom(old_entries, k);
                        if m.dom().contains(k) {
                            let j = choose|j: int| 0 <= j < old_entries.len() && #[trigger] old_entries[j].node_id@ == k;
                            assert(j != i);
                            if j < i {
                                assert(t[j].node_id@ == k);
                            } else {
                                assert(t[j - 1].node_id@ == k);
                            }
                        }
                        if exists|j: int| 0 <= j < t.len() && #[trigger] t[j].node_id@ == k {
                            let j = choose|j: int| 0 <= j < t.len() && #[trigger] t[j].node_id@ == k;
                            if j < i {
                                assert(old_entries[j].node_id@ == k);
                                assert(old_entries[j].node_id@ != old_entries[i as int].node_id@);
                            } else {
                                assert(old_entries[j + 1].node_id@ == k);
                                assert(old_entries[j + 1].node_id@ != old_entries[i as int].node_id@);
                            }
                        }
                    }
                    assert forall|j: int| 0 <= j < t.len() implies m.dom().contains(#[trigger] t[j].node_id@)
                        && m[t[j].node_id@] == t[j].slot by {
                        if j < i {
                            lemma_map_of_value(old_entries, j);
                            assert(old_entries[j].node_id@ != old_entries[i as int].node_id@);
                        } else {
                            lemma_map_of_value(old_entries, j + 1);
                            assert(old_entries[j + 1].node_id@ != old_entries[i as int].node_id@);
                        }
                    }
                    lemma_map_of_equal(old_entries, t, m);
                }
            }
        }
    }

    fn remove_entry(&mut self, i: usize)
        requires
            i < old(self).entries@.len(),
        ensures
            final(self).entries@ == old(self).entries@.remove(i as int),
    {
        proof {
            use_type_invariant(&*self);
        }
        let mut entries: Vec<SessionEntry> = Vec::new();
        std::mem::swap(&mut entries, &mut self.entries);
        let ghost before = entries@;
        let _ = entries.remove(i);
        proof {
            assert forall|a: int, b: int|
                0 <= a < entries@.len() && 0 <= b < entries@.len() && a != b implies #[trigger] entries@[a].node_id@
                != #[trigger] entries@[b].node_id@ by {
                let a2 = if a < i { a } else { a + 1 };
                let b2 = if b < i { b } else { b + 1 };
                assert(entries@[a] == before[a2]);
                assert(entries@[b] == before[b2]);
                assert(before[a2].node_id@ != before[b2].node_id@);
            }
        }
        self.entries = entries;
    }

    /// The number of sessions that this node dialed.
    pub fn connected_count(&self) -> (r: usize)
        ensures
            r == self@.dom().filter(
                |k: Seq<u8>| self@[k].handshake_type == SessionHandshakeType::Connected,
            ).len(),
    {
        proof {
            use_type_invariant(self);
        }
        let mut n: usize = 0;
        let mut i: usize = 0;
        while i < self.entries.len()
            invariant
                i <= self.entries@.len(),
                n <= i,
                distinct_ids(self.entries@),
                n == connected_in(self.entries@.take(i as int)),
            decreases self.entries@.len() - i,
        {
            assert(self.entries@.take(i + 1).drop_last() =~= self.entries@.take(i as int));
            if self.entries[i].slot.handshake_type == SessionHandshakeType::Connected {
                n = n + 1;
            }
            i = i + 1;
        }
        proof {
            assert(self.entries@.take(i as int) =~= self.entries@);
            lemma_connected_in(self.entries@);
        }
        n
    }

    /// The IDs of the nodes at the other end of the sessions.
    pub fn node_ids(&self) -> (r: Vec<Vec<u8>>)
        ensures
            forall|k: Seq<u8>|
                self@.contains_key(k) <==> exists|i: int| 0 <= i < r@.len() && #[trigger] r@[i]@ == k,
            r@.len() == self@.len(),
    {
        proof {
            use_type_invariant(self);
            self.lemma_len();
        }
        let mut r: Vec<Vec<u8>> = Vec::new();
        let mut i: usize = 0;
        while i < self.entries.len()
            invariant
                i <= self.entries@.len(),
                r@.len() == i,
                forall|j: int| 0 <= j < i ==> #[trigger] r@[j]@ == self.entries@[j].node_id@,
            decreases self.entries@.len() - i,
        {
            r.push(self.entries[i].node_id.clone());
            i = i + 1;
        }
        proof {
            assert forall|k: Seq<u8>| self@.contains_key(k) <==> exists|i: int| 0 <= i < r@.len() && #[trigger] r@[i]@ == k by {
                lemma_map_of_dom(self.entries@, k);
                if self@.contains_key(k) {
                    let j = choose|j: int| 0 <= j < self.entries@.len() && #[trigger] self.entries@[j].node_id@ == k;
                    assert(r@[j]@ == k);
                }
                if exists|i: int| 0 <= i < r@.len() && #[trigger] r@[i]@ == k {
                    let j = choose|j: int| 0 <= j < r@.len() && #[trigger] r@[j]@ == k;
                    assert(self.entries@[j].node_id@ == k);
                }
            }
        }
        r
    }
}

/// The number of entries of a list whose session this node dialed.
pub open spec fn connected_in(s: Seq<SessionEntry>) -> nat
    decreases s.len(),
{
    if s.len() == 0 {
        0
    } else {
        connected_in(s.drop_last()) + if s.last().slot.handshake_type == SessionHandshakeType::Connected {
            1nat
        } else {
            0nat
        }
    }
}

proof fn lemma_map_of_len(s: Seq<SessionEntry>)
    requires
        distinct_ids(s),
    ensures
        map_of(s).dom().finite(),
        map_of(s).len() == s.len(),
    decreases s.len(),
{
    if s.len() > 0 {
        assert(distinct_ids(s.drop_last()));
        lemma_map_of_len(s.drop_last());
        lemma_map_of_dom(s.drop_last(), s.last().node_id@);
        if map_of(s.drop_last()).dom().contains(s.last().node_id@) {
            let j = choose|j: int| 0 <= j < s.drop_last().len() && #[trigger] s.drop_last()[j].node_id@ == s.last().node_id@;
            assert(s[j].node_id@ == s[s.len() - 1].node_id@);
        }
    }
}

proof fn lemma_connected_in(s: Seq<SessionEntry>)
    requires
        distinct_ids(s),
    ensures
        connected_in(s) == map_of(s).dom().filter(
            |k: Seq<u8>| map_of(s)[k].handshake_type == SessionHandshakeType::Connected,
        ).len(),
    decreases s.len(),
{
    let f = |k: Seq<u8>| map_of(s)[k].handshake_type == SessionHandshakeType::Connected;
    if s.len() == 0 {
        assert(map_of(s).dom().filter(f) =~= Set::empty());
    } else {
        let p = s.drop_last();
        let k0 = s.last().node_id@;
        assert(distinct_ids(p));
        lemma_connected_in(p);
        lemma_map_of_len(p);
        lemma_map_of_dom(p, k0);
        if map_of(p).dom().contains(k0) {
            let j = choose|j: int| 0 <= j < p.len() && #[trigger] p[j].node_id@ == k0;
            assert(s[j].node_id@ == s[s.len() - 1].node_id@);
        }
        let g = |k: Seq<u8>| map_of(p)[k].handshake_type == SessionHandshakeType::Connected;
        let old_set = map_of(p).dom().filter(g);
        let new_set = map_of(s).dom().filter(f);
        if s.last().slot.handshake_type == SessionHandshakeType::Connected {
            assert(new_set =~= old_set.insert(k0));
        } else {
            assert(new_set =~= old_set);
        }
    }
}

/// A session registered with a node that had none, once it closes, leaves
/// the registry as it was; a refused registration leaves it unchanged.
pub proof fn lemma_register_then_close_restores(
    m: Map<Seq<u8>, SessionSlot>,
    my_id: Seq<u8>,
    other_id: Seq<u8>,
    slot: SessionSlot,
)
    ensures
        !m.contains_key(other_id) ==> after_unregister(after_register(m, my_id, other_id, slot), other_id, slot.token)
            == m,
        register_refused(m, my_id, other_id, slot.handshake_type) ==> after_register(m, my_id, other_id, slot) == m,
{
    if !m.contains_key(other_id) {
        assert(m.insert(other_id, slot).remove(other_id) =~= m);
    }
}

/// Two nodes `a` and `b` that dial each other end up with one session between
/// them: each registers both sessions, in either order, and keeps the one dialed
/// by the node with the smaller ID; when the other session closes, that one stays.
pub proof fn lemma_nodes_dialing_each_other_keep_one_session(
    a: Seq<u8>,
    b: Seq<u8>,
    ma: Map<Seq<u8>, SessionSlot>,
    mb: Map<Seq<u8>, SessionSlot>,
    token_x: u64,
    token_y: u64,
    x_first_at_a: bool,
    x_first_at_b: bool,
)
    requires
        a != b,
        token_x != token_y,
        !ma.contains_key(b),
        !mb.contains_key(a),
    ensures
        ({
            // x is the session dialed by the node with the smaller ID, y the other one
            let x_at_a = SessionSlot {
                handshake_type: if bytes_lt(a, b) {
                    SessionHandshakeType::Connected
                } else {
                    SessionHandshakeType::Accepted
                },
                token: token_x,
            };
            let y_at_a = SessionSlot { handshake_type: opposite(x_at_a.handshake_type), token: token_y };
            let x_at_b = SessionSlot { handshake_type: opposite(x_at_a.handshake_type), token: token_x };
            let y_at_b = SessionSlot { handshake_type: x_at_a.handshake_type, token: token_y };
            let ra = if x_first_at_a {
                after_register(after_register(ma, a, b, x_at_a), a, b, y_at_a)
            } else {
                after_register(after_register(ma, a, b, y_at_a), a, b, x_at_a)
            };
            let rb = if x_first_at_b {
                after_register(after_register(mb, b, a, x_at_b), b, a, y_at_b)
            } else {
                after_register(after_register(mb, b, a, y_at_b), b, a, x_at_b)
            };
            &&& ra.contains_key(b) && ra[b].token == token_x
            &&& rb.contains_key(a) && rb[a].token == token_x
            &&& after_unregister(ra, b, token_y) == ra
            &&& after_unregister(rb, a, token_y) == rb
        }),
{
    lemma_bytes_lt_trichotomy(a, b);
}

} // verus!
