use vstd::prelude::*;

use crate::byte_order::bytes_equal;
use crate::error::{Error, ErrorKind};
use crate::model::{AssetKey, NodeProfile};
use crate::session_registry::TaskCommunicator;
use crate::text::{decimal_text, with_decimal};

verus! {

/// The bit of version 1 of the node finder protocol in a set of versions.
pub const NODE_FINDER_VERSION_V1: u32 = 1;

/// The versions this implementation knows, as bits.
pub const NODE_FINDER_VERSIONS_ALL: u32 = 1;

/// The set of versions read from a peer: the bits of unknown versions dropped.
pub open spec fn known_versions(bits: u32) -> u32 {
    bits & NODE_FINDER_VERSIONS_ALL
}

/// Whether both sides speak version 1 of the protocol.
pub open spec fn agree_on_v1(sent: u32, received: u32) -> bool {
    (sent & received) & NODE_FINDER_VERSION_V1 == NODE_FINDER_VERSION_V1
}

/// The versions that the two sides share are the intersection of their sets:
/// version 1 is agreed exactly when both sides offer it.
pub proof fn lemma_agreement_is_intersection(sent: u32, received: u32)
    ensures
        agree_on_v1(sent, received) == (sent & 1 == 1 && received & 1 == 1),
        known_versions(known_versions(received)) == known_versions(received),
{
    assert(((sent & received) & 1u32 == 1u32) == ((sent & 1u32 == 1u32) && (received & 1u32 == 1u32)))
        by (bit_vector);
    assert((received & 1u32) & 1u32 == received & 1u32) by (bit_vector);
}

impl TaskCommunicator {
    /// The set of versions this node offers in its hello message.
    pub fn hello_versions() -> (r: u32)
        ensures
            r == NODE_FINDER_VERSION_V1,
    {
        NODE_FINDER_VERSION_V1
    }

    /// Reads a peer's set of versions, keeping the versions this node knows.
    pub fn read_versions(bits: u32) -> (r: u32)
        ensures
            r == known_versions(bits),
    {
        bits & NODE_FINDER_VERSIONS_ALL
    }

    /// Settles the version of a handshake from the versions sent and received:
    /// version 1 when both offer it, `UnsupportedType` otherwise, with the
    /// shared set in the message.
    pub fn negotiate_version(sent: u32, received: u32) -> (r: Result<(), Error>)
        ensures
            r is Ok <==> agree_on_v1(sent, received),
            r matches Err(e) ==> {
                &&& e.kind == ErrorKind::UnsupportedType
                &&& e.message matches Some(m) && m@ == "invalid version: "@ + decimal_text((sent & received) as nat)
            },
    {
        let version = sent & received;
        if version & NODE_FINDER_VERSION_V1 == NODE_FINDER_VERSION_V1 {
            Ok(())
        } else {
            Err(Error::new(ErrorKind::UnsupportedType).with_message(with_decimal("invalid version: ", version)))
        }
    }

    /// Checks the profile that a peer sent in the handshake. `my_id` and
    /// `peer_id` are the node IDs derived from this node's and the peer's public
    /// keys; `cert_public_key` is the key whose signature the session checked.
    /// A peer with this node's own ID is refused (`Reject`, connected to self),
    /// then a profile whose key is not the certificate's (`Reject`); since the
    /// ID derives from the key, a matching key settles the peer's ID too.
    pub fn check_peer_profile(
        my_id: &[u8],
        peer_id: &[u8],
        peer_profile: &NodeProfile,
        cert_public_key: &[u8],
    ) -> (r: Result<(), Error>)
        ensures
            r is Ok <==> (peer_id@ != my_id@ && peer_profile.public_key@ == cert_public_key@),
            r matches Err(e) ==> e.kind == ErrorKind::Reject,
            peer_id@ == my_id@ ==> {
                &&& r matches Err(e)
                &&& e.message matches Some(m) && m@ == "connected to self"@
            },
            peer_id@ != my_id@ && peer_profile.public_key@ != cert_public_key@ ==> {
                &&& r matches Err(e)
                &&& e.message matches Some(m) && m@ == "node profile does not match the session certificate"@
            },
    {
        if bytes_equal(peer_id, my_id) {
            return Err(Error::new(ErrorKind::Reject).with_message("connected to self".to_owned()));
        }
        if !bytes_equal(peer_profile.public_key(), cert_public_key) {
            return Err(
                Error::new(ErrorKind::Reject).with_message(
                    "node profile does not match the session certificate".to_owned(),
                ),
            );
        }
        Ok(())
    }
}

/// How many of the node profiles that a peer pushes in one message are stored.
pub const MAX_STORED_PUSHED_PROFILES: usize = 32;

impl TaskCommunicator {
    /// The pushed node profiles of a received message that are stored: the
    /// first 32, in the order they came.
    pub fn profiles_to_store(pushed: &Vec<NodeProfile>) -> (r: Vec<NodeProfile>)
        ensures
            profile_views(r@) == profile_views(pushed@).take(
                if pushed@.len() < MAX_STORED_PUSHED_PROFILES { pushed@.len() as int } else { MAX_STORED_PUSHED_PROFILES as int },
            ),
    {
        let n: usize = if pushed.len() < MAX_STORED_PUSHED_PROFILES { pushed.len() } else { MAX_STORED_PUSHED_PROFILES };
        let mut r: Vec<NodeProfile> = Vec::new();
        let mut i: usize = 0;
        while i < n
            invariant
                i <= n,
                n <= pushed@.len(),
                profile_views(r@) == profile_views(pushed@).take(i as int),
            decreases n - i,
        {
            let ghost before = r@;
            r.push(pushed[i].duplicate());
            proof {
                assert(profile_views(r@) =~= profile_views(before).push(pushed@[i as int]@));
                assert(profile_views(pushed@).take(i + 1) =~= profile_views(pushed@).take(i as int).push(
                    pushed@[i as int]@,
                ));
            }
            i = i + 1;
        }
        r
    }
}

/// Where an asset can be found, as a peer told it: the asset's key and the
/// profiles of the nodes that hold it.
#[derive(Debug)]
pub struct AssetKeyLocation {
    pub asset_key: AssetKey,
    pub node_profiles: Vec<NodeProfile>,
}

/// The views of a list of profiles.
pub open spec fn profile_views(v: Seq<NodeProfile>) -> Seq<(Seq<u8>, Seq<Seq<char>>)> {
    v.map_values(|p: NodeProfile| p@)
}

/// The profiles that one session's locations give for `key`: those of the
/// first location with that key, or none.
pub open spec fn located_in(locations: Seq<AssetKeyLocation>, key: (Seq<char>, (crate::hash_model::OmniHashAlgorithmType, Seq<u8>))) -> Seq<(Seq<u8>, Seq<Seq<char>>)>
    decreases locations.len(),
{
    if locations.len() == 0 {
        seq![]
    } else if locations[0].asset_key@ == key {
        profile_views(locations[0].node_profiles@)
    } else {
        located_in(locations.drop_first(), key)
    }
}

/// The profiles that all sessions give for `key`, session after session.
pub open spec fn located_in_all(sessions: Seq<Vec<AssetKeyLocation>>, key: (Seq<char>, (crate::hash_model::OmniHashAlgorithmType, Seq<u8>))) -> Seq<(Seq<u8>, Seq<Seq<char>>)>
    decreases sessions.len(),
{
    if sessions.len() == 0 {
        seq![]
    } else {
        located_in_all(sessions.drop_last(), key) + located_in(sessions.last()@, key)
    }
}

/// A session's answer for `key` is every profile, in order, of its first
/// location whose asset key is `key`; a session without such a location
/// gives none.
pub proof fn lemma_located_in_first_match(
    locations: Seq<AssetKeyLocation>,
    key: (Seq<char>, (crate::hash_model::OmniHashAlgorithmType, Seq<u8>)),
    i: int,
)
    requires
        0 <= i < locations.len(),
        locations[i].asset_key@ == key,
        forall|j: int| 0 <= j < i ==> (#[trigger] locations[j]).asset_key@ != key,
    ensures
        located_in(locations, key) == profile_views(locations[i].node_profiles@),
        located_in(locations, key).len() == locations[i].node_profiles@.len(),
        forall|p: int|
            0 <= p < locations[i].node_profiles@.len() ==> located_in(locations, key)[p]
                == (#[trigger] locations[i].node_profiles@[p])@,
    decreases i,
{
    if i > 0 {
        assert(locations[0].asset_key@ != key);
        let rest = locations.drop_first();
        assert forall|j: int| 0 <= j < i - 1 implies (#[trigger] rest[j]).asset_key@ != key by {
            assert(rest[j] == locations[j + 1]);
        }
        lemma_located_in_first_match(rest, key, i - 1);
    }
}

/// A session none of whose locations has the asset key `key` gives no profile.
pub proof fn lemma_located_in_absent(
    locations: Seq<AssetKeyLocation>,
    key: (Seq<char>, (crate::hash_model::OmniHashAlgorithmType, Seq<u8>)),
)
    requires
        forall|j: int| 0 <= j < locations.len() ==> (#[trigger] locations[j]).asset_key@ != key,
    ensures
        located_in(locations, key) == Seq::<(Seq<u8>, Seq<Seq<char>>)>::empty(),
    decreases locations.len(),
{
    if locations.len() > 0 {
        let rest = locations.drop_first();
        assert forall|j: int| 0 <= j < rest.len() implies (#[trigger] rest[j]).asset_key@ != key by {
            assert(rest[j] == locations[j + 1]);
        }
        lemma_located_in_absent(rest, key);
    }
}

/// The answers of all sessions, session after session: one more session adds
/// its answer at the end, and every profile that a session gives for `key`
/// is among the profiles found.
pub proof fn lemma_located_in_all_collects_every_session(
    sessions: Seq<Vec<AssetKeyLocation>>,
    key: (Seq<char>, (crate::hash_model::OmniHashAlgorithmType, Seq<u8>)),
    extra: Vec<AssetKeyLocation>,
)
    ensures
        located_in_all(Seq::<Vec<AssetKeyLocation>>::empty(), key) == Seq::<(Seq<u8>, Seq<Seq<char>>)>::empty(),
        located_in_all(sessions.push(extra), key) == located_in_all(sessions, key) + located_in(extra@, key),
        located_in_all(sessions, key).len() + located_in(extra@, key).len() == located_in_all(
            sessions.push(extra),
            key,
        ).len(),
        forall|s: int, p: int|
            0 <= s < sessions.len() && 0 <= p < located_in(sessions[s]@, key).len() ==> located_in_all(
                sessions,
                key,
            ).contains(#[trigger] located_in(sessions[s]@, key)[p]),
    decreases sessions.len(),
{
    assert(sessions.push(extra).drop_last() =~= sessions);
    if sessions.len() > 0 {
        let init = sessions.drop_last();
        lemma_located_in_all_collects_every_session(init, key, sessions.last());
        assert(init.push(sessions.last()) =~= sessions);
        assert forall|s: int, p: int|
            0 <= s < sessions.len() && 0 <= p < located_in(sessions[s]@, key).len() implies located_in_all(
                sessions,
                key,
            ).contains(#[trigger] located_in(sessions[s]@, key)[p]) by {
            let all = located_in_all(sessions, key);
            let before = located_in_all(init, key);
            assert(all == before + located_in(sessions.last()@, key));
            if s < sessions.len() - 1 {
                assert(sessions[s] == init[s]);
                let w = choose|w: int| 0 <= w < before.len() && before[w] == located_in(init[s]@, key)[p];
                assert(all[w] == before[w]);
            } else {
                assert(all[before.len() + p] == located_in(sessions[s]@, key)[p]);
            }
        }
    }
}

fn locate(locations: &Vec<AssetKeyLocation>, key: &AssetKey, out: &mut Vec<NodeProfile>)
    ensures
        profile_views(final(out)@) == profile_views(old(out)@) + located_in(locations@, key@),
{
    let mut i: usize = 0;
    assert(locations@.skip(0) =~= locations@);
    while i < locations.len()
        invariant
            i <= locations@.len(),
            *out == *old(out),
            located_in(locations@, key@) == located_in(locations@.skip(i as int), key@),
        decreases locations@.len() - i,
    {
        assert(locations@.skip(i as int).drop_first() =~= locations@.skip(i + 1));
        if locations[i].asset_key.equals(key) {
            let profiles = &locations[i].node_profiles;
            let ghost before = out@;
            let mut j: usize = 0;
            while j < profiles.len()
                invariant
                    j <= profiles@.len(),
                    profile_views(out@) == profile_views(before) + profile_views(profiles@.take(j as int)),
                decreases profiles@.len() - j,
            {
                let ghost mid = out@;
                out.push(profiles[j].duplicate());
                proof {
                    assert(profile_views(out@) =~= profile_views(mid).push(profiles@[j as int]@));
                    assert(profile_views(profiles@.take(j + 1)) =~= profile_views(profiles@.take(j as int)).push(
                        profiles@[j as int]@,
                    ));
                }
                j = j + 1;
            }
            assert(profiles@.take(j as int) =~= profiles@);
            return;
        }
        i = i + 1;
    }
    assert(located_in(locations@.skip(i as int), key@) =~= seq![]);
    assert(profile_views(out@) + seq![] =~= profile_views(out@));
}

/// The profiles of the nodes that hold the asset `key`, as the peers of all
/// sessions told it, session after session.
pub fn find_node_profile(sessions: &Vec<Vec<AssetKeyLocation>>, key: &AssetKey) -> (r: Vec<NodeProfile>)
    ensures
        profile_views(r@) == located_in_all(sessions@, key@),
{
    let mut r: Vec<NodeProfile> = Vec::new();
    let mut i: usize = 0;
    while i < sessions.len()
        invariant
            i <= sessions@.len(),
            profile_views(r@) == located_in_all(sessions@.take(i as int), key@),
        decreases sessions@.len() - i,
    {
        assert(sessions@.take(i + 1).drop_last() =~= sessions@.take(i as int));
        locate(&sessions[i], key, &mut r);
        i = i + 1;
    }
    assert(sessions@.take(i as int) =~= sessions@);
    r
}

} // verus!
