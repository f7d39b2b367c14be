use axus::error::ErrorKind;
use axus::model::{AssetKey, NodeProfile};
use axus::hash_model::{OmniHash, OmniHashAlgorithmType};
use axus::encoder_jobs::ActiveJobs;
use axus::node_connector::{ConnectingIds, TaskConnector, DIALED_NODE_EXCLUSION_SECS};
use axus::node_finder::AssetKeyLocation;
use axus::node_finder::find_node_profile;
use axus::session::SessionHandshakeType;
use axus::session::SessionHandshakeType::{Accepted, Connected};
use axus::session_registry::{SessionRegistry, SessionSlot, TaskCommunicator};

fn node_profile(public_key: &str) -> NodeProfile {
    NodeProfile::new(public_key.as_bytes().to_vec(), vec![])
}

#[test]
fn both_nodes_keep_the_session_dialed_by_the_smaller_id() {

    let small: &[u8] = &[1];
    let large: &[u8] = &[2];

    for (my_id, other_id, x, y) in [(small, large, Connected, Accepted), (large, small, Accepted, Connected)] {
        assert!(TaskCommunicator::keeps_existing_session(my_id, other_id, &x, &y));
        assert!(!TaskCommunicator::keeps_existing_session(my_id, other_id, &y, &x));
    }

    assert!(TaskCommunicator::keeps_existing_session(small, large, &Accepted, &Accepted));
    assert!(TaskCommunicator::keeps_existing_session(large, small, &Connected, &Connected));
}

#[test]
fn smaller_id_compares_bytes_in_order() {
    // [1, 9] < [2]: the first byte decides.
    assert!(TaskCommunicator::keeps_existing_session(&[1, 9], &[2], &Connected, &Accepted));
    // [1] < [1, 0]: a prefix is the smaller.
    assert!(TaskCommunicator::keeps_existing_session(&[1], &[1, 0], &Connected, &Accepted));
    assert!(!TaskCommunicator::keeps_existing_session(&[1, 0], &[1], &Connected, &Accepted));
}

#[test]
fn hello_versions_offer_v1() {
    assert_eq!(TaskCommunicator::hello_versions(), 1);
    assert_eq!(TaskCommunicator::read_versions(0b1011), 1);
    assert_eq!(TaskCommunicator::read_versions(0b1010), 0);
}

#[test]
fn handshake_succeeds_when_both_offer_v1() {
    assert!(TaskCommunicator::negotiate_version(1, 1).is_ok());
    assert!(TaskCommunicator::negotiate_version(1, 3).is_ok());
}

#[test]
fn handshake_refuses_a_peer_without_common_version() {
    let err = TaskCommunicator::negotiate_version(1, 0).unwrap_err();
    assert_eq!(err.kind(), &ErrorKind::UnsupportedType);
    assert_eq!(err.message(), Some("invalid version: 0"));
    let err = TaskCommunicator::negotiate_version(6, 14).unwrap_err();
    assert_eq!(err.message(), Some("invalid version: 6"));
}

#[test]
fn handshake_refuses_a_peer_with_own_id() {
    let me = node_profile("me");
    let err = TaskCommunicator::check_peer_profile(b"id-me", b"id-me", &me, b"me").unwrap_err();
    assert_eq!(err.kind(), &ErrorKind::Reject);
    assert_eq!(err.message(), Some("connected to self"));
}

#[test]
fn handshake_refuses_a_profile_that_does_not_match_the_certificate() {
    let other = node_profile("someone else");
    let err = TaskCommunicator::check_peer_profile(b"id-me", b"id-other", &other, b"peer key").unwrap_err();
    assert_eq!(err.kind(), &ErrorKind::Reject);
    assert_eq!(err.message(), Some("node profile does not match the session certificate"));
}

#[test]
fn handshake_accepts_the_certified_peer() {
    let peer = node_profile("peer key");
    assert!(TaskCommunicator::check_peer_profile(b"id-me", b"id-peer", &peer, b"peer key").is_ok());
}

#[test]
fn registry_refuses_a_session_that_the_rule_does_not_keep() {
    let mut reg = SessionRegistry::new();
    let me: &[u8] = &[1];
    let other: &[u8] = &[2];
    let x = SessionSlot { handshake_type: SessionHandshakeType::Connected, token: 10 };
    let y = SessionSlot { handshake_type: SessionHandshakeType::Accepted, token: 11 };
    assert_eq!(reg.register(me, other, x).unwrap(), None);
    let err = reg.register(me, other, y).unwrap_err();
    assert_eq!(err.kind(), &ErrorKind::AlreadyExists);
    assert_eq!(err.message(), Some("Session already exists"));
    assert_eq!(reg.get(other), Some(x));
    assert_eq!(reg.len(), 1);
}

#[test]
fn registry_replaces_a_session_with_the_preferred_one() {
    let mut reg = SessionRegistry::new();
    let me: &[u8] = &[1];
    let other: &[u8] = &[2];
    let y = SessionSlot { handshake_type: SessionHandshakeType::Accepted, token: 11 };
    let x = SessionSlot { handshake_type: SessionHandshakeType::Connected, token: 10 };
    assert_eq!(reg.register(me, other, y).unwrap(), None);
    assert_eq!(reg.register(me, other, x).unwrap(), Some(11));
    assert_eq!(reg.get(other), Some(x));
    // The replaced session's end does not remove the session that took its place.
    reg.unregister(other, 11);
    assert_eq!(reg.get(other), Some(x));
    reg.unregister(other, 10);
    assert_eq!(reg.get(other), None);
    assert_eq!(reg.len(), 0);
}

#[test]
fn nodes_dialing_each_other_keep_one_session() {
    // Node a (ID [1]) and node b (ID [2]) dial each other at once. The session
    // dialed by a has token 1, the one dialed by b token 2.
    let a: &[u8] = &[1];
    let b: &[u8] = &[2];
    let mut reg_a = SessionRegistry::new();
    let mut reg_b = SessionRegistry::new();
    // a registers its accepted session first, b its dialed one first.
    let _ = reg_a.register(a, b, SessionSlot { handshake_type: SessionHandshakeType::Accepted, token: 2 });
    let _ = reg_a.register(a, b, SessionSlot { handshake_type: SessionHandshakeType::Connected, token: 1 });
    let _ = reg_b.register(b, a, SessionSlot { handshake_type: SessionHandshakeType::Connected, token: 2 });
    let _ = reg_b.register(b, a, SessionSlot { handshake_type: SessionHandshakeType::Accepted, token: 1 });
    assert_eq!(reg_a.get(b).unwrap().token, 1);
    assert_eq!(reg_b.get(a).unwrap().token, 1);
}

#[test]
fn connected_count_counts_dialed_sessions() {
    let mut reg = SessionRegistry::new();
    let me: &[u8] = &[5];
    let _ = reg.register(me, &[1], SessionSlot { handshake_type: SessionHandshakeType::Connected, token: 1 });
    let _ = reg.register(me, &[2], SessionSlot { handshake_type: SessionHandshakeType::Accepted, token: 2 });
    let _ = reg.register(me, &[3], SessionSlot { handshake_type: SessionHandshakeType::Connected, token: 3 });
    assert_eq!(reg.connected_count(), 2);
    assert!(TaskConnector::wants_more_sessions(&reg, 3));
    assert!(!TaskConnector::wants_more_sessions(&reg, 2));
    let mut ids = reg.node_ids();
    ids.sort();
    assert_eq!(ids, vec![vec![1u8], vec![2u8], vec![3u8]]);
}

#[test]
fn connect_skips_own_node_profile() {
    let me = vec![7u8];
    let node_ids = vec![me.clone()];
    let mut connecting = ConnectingIds::new();
    let err = TaskConnector::reserve_target(&me, &vec![], &node_ids, &mut connecting).unwrap_err();
    assert_eq!(err.kind(), &ErrorKind::NotFound);
    assert_eq!(err.message(), Some("node profile is not found"));
    assert!(connecting.is_empty());
}

#[test]
fn concurrent_connects_do_not_target_the_same_node() {
    let me = vec![7u8];
    let node_ids = vec![me.clone(), b"other".to_vec()];
    let mut connecting = ConnectingIds::new();
    let first = TaskConnector::reserve_target(&me, &vec![], &node_ids, &mut connecting).unwrap();
    assert_eq!(first, 1);
    assert!(connecting.contains(b"other"));
    let second = TaskConnector::reserve_target(&me, &vec![], &node_ids, &mut connecting);
    assert!(second.is_err());
    TaskConnector::release_target(b"other", &mut connecting);
    assert!(connecting.is_empty());
    assert_eq!(TaskConnector::reserve_target(&me, &vec![], &node_ids, &mut connecting).unwrap(), 1);
}

#[test]
fn connect_skips_excluded_nodes_and_picks_among_the_rest() {
    let me = vec![0u8];
    let node_ids = vec![vec![1u8], vec![2u8], vec![3u8], vec![4u8]];
    let excluded = vec![vec![2u8], vec![4u8]];
    for _ in 0..20 {
        let mut connecting = ConnectingIds::new();
        let i = TaskConnector::reserve_target(&me, &excluded, &node_ids, &mut connecting).unwrap();
        assert!(i == 0 || i == 2);
        assert!(connecting.contains(&node_ids[i]));
    }
}

fn asset_key(hash_byte: u8) -> AssetKey {
    AssetKey { typ: "file".to_string(), hash: OmniHash::new(OmniHashAlgorithmType::Sha3_256, vec![hash_byte; 4]) }
}

#[test]
fn find_node_profile_collects_the_owners_from_every_session() {
    let owner_a = NodeProfile::new(b"a".to_vec(), vec!["tcp(ip4(127.0.0.1),1)".to_string()]);
    let owner_b = NodeProfile::new(b"b".to_vec(), vec![]);
    let sessions = vec![
        vec![
            AssetKeyLocation { asset_key: asset_key(9), node_profiles: vec![node_profile("x")] },
            AssetKeyLocation { asset_key: asset_key(1), node_profiles: vec![owner_a.duplicate()] },
        ],
        vec![],
        vec![AssetKeyLocation { asset_key: asset_key(1), node_profiles: vec![owner_b.duplicate()] }],
    ];
    let found = find_node_profile(&sessions, &asset_key(1));
    assert_eq!(found.len(), 2);
    assert!(found[0].equals(&owner_a));
    assert!(found[1].equals(&owner_b));
    assert!(find_node_profile(&sessions, &asset_key(5)).is_empty());
}

#[test]
fn only_the_first_pushed_profiles_are_stored() {
    let pushed: Vec<NodeProfile> = (0..40u8).map(|i| NodeProfile::new(vec![i], vec![])).collect();
    let stored = TaskCommunicator::profiles_to_store(&pushed);
    assert_eq!(stored.len(), 32);
    assert_eq!(stored[31].public_key(), &[31u8]);
    let few: Vec<NodeProfile> = (0..3u8).map(|i| NodeProfile::new(vec![i], vec![])).collect();
    assert_eq!(TaskCommunicator::profiles_to_store(&few).len(), 3);
}

#[test]
fn node_profile_equality_compares_key_and_addresses() {
    let a = NodeProfile::new(vec![1, 2, 3], vec!["x".to_string()]);
    let b = NodeProfile::new(vec![1, 2, 3], vec!["x".to_string()]);
    let c = NodeProfile::new(vec![1, 2, 3], vec!["y".to_string()]);
    assert!(a.equals(&b));
    assert!(!a.equals(&c));
    assert!(a.duplicate().equals(&a));
}

#[test]
fn excluded_ids_are_the_dialed_the_connected_and_this_node() {
    let mut reg = SessionRegistry::new();
    let me: &[u8] = &[0];
    let _ = reg.register(me, &[5], SessionSlot { handshake_type: SessionHandshakeType::Connected, token: 1 });
    let recent = vec![vec![3u8]];
    let mut ex = TaskConnector::excluded_ids(&recent, &reg, me);
    ex.sort();
    assert_eq!(ex, vec![vec![0u8], vec![3u8], vec![5u8]]);
    assert_eq!(DIALED_NODE_EXCLUSION_SECS, 180);
    let node_ids = vec![vec![0u8], vec![3u8], vec![5u8], vec![6u8]];
    let mut connecting = ConnectingIds::new();
    assert_eq!(TaskConnector::reserve_target(me, &ex, &node_ids, &mut connecting).unwrap(), 3);
}

#[test]
fn a_file_is_never_encoded_twice_at_once() {
    let mut jobs: ActiveJobs<u32> = ActiveJobs::new();
    assert!(jobs.begin_job("file-a", 1));
    assert!(!jobs.begin_job("file-a", 2));
    assert_eq!(jobs.job("file-a"), Some(&1));
    assert!(jobs.begin_job("file-b", 3));
    jobs.end_job("file-a");
    assert_eq!(jobs.job("file-a"), None);
    assert_eq!(jobs.job("file-b"), Some(&3));
    assert!(jobs.begin_job("file-a", 4));
    assert_eq!(jobs.job("file-a"), Some(&4));
    jobs.end_job("file-c");
    assert_eq!(jobs.job("file-b"), Some(&3));
}
