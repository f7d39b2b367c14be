use axus::api::{ApiError, ApiRequest, ApiRequestHeader, ApiResult, HealthOutput, HealthResult};
use axus::api_error_kind::ApiErrorKind;
use axus::codec::{field, DecodeError, PackEntry, PackValue, RocketPackStruct};
use axus::data_message::{AssetKeyLocations, DataMessage};
use axus::file_publish::MerkleLayer;
use axus::hash_model::{OmniHash, OmniHashAlgorithmType};
use axus::model::{AssetKey, FileRef};
use axus::model::NodeProfile;
use axus::node_finder_message::{HelloMessage as FinderHello, ProfileMessage};
use axus::session_message::{
    HelloMessage, SessionVersion, V1ChallengeMessage, V1RequestMessage, V1RequestType, V1ResultMessage, V1ResultType,
};

fn entries(es: Vec<PackEntry>) -> PackValue {
    PackValue::Entries(es)
}

#[test]
fn api_error_round_trips() {
    let e = ApiError::new(ApiErrorKind::NotFound).with_message("no such file".to_string());
    let back = ApiError::unpack(&e.pack()).unwrap();
    assert_eq!(back.kind, ApiErrorKind::NotFound);
    assert_eq!(back.message.as_deref(), Some("no such file"));

    let e = ApiError::new(ApiErrorKind::Internal);
    let back = ApiError::unpack(&e.pack()).unwrap();
    assert_eq!(back.kind, ApiErrorKind::Internal);
    assert_eq!(back.message, None);
}

#[test]
fn api_error_writes_the_kind_by_name() {
    let v = ApiError::new(ApiErrorKind::InvalidInput).pack();
    match v {
        PackValue::Entries(es) => {
            assert_eq!(es.len(), 1);
            match &es[0].value {
                PackValue::Str(s) => assert_eq!(s, "invalid_input"),
                _ => panic!("the kind is not a string"),
            }
        }
        _ => panic!("not a map"),
    }
}

#[test]
fn api_error_refuses_an_unknown_kind_name() {
    let v = entries(vec![field(0, PackValue::Str("no_such_kind".to_string()))]);
    assert_eq!(ApiError::unpack(&v).unwrap_err(), DecodeError::InvalidValue(0));
}

#[test]
fn api_error_needs_its_kind() {
    let v = entries(vec![field(1, PackValue::Str("text".to_string()))]);
    assert_eq!(ApiError::unpack(&v).unwrap_err(), DecodeError::MissingField(0));
    assert_eq!(ApiError::unpack(&PackValue::U32(1)).unwrap_err(), DecodeError::UnexpectedType);
}

#[test]
fn api_error_kind_names_round_trip() {
    for kind in [
        ApiErrorKind::Unknown,
        ApiErrorKind::InvalidInput,
        ApiErrorKind::DeadlineExceeded,
        ApiErrorKind::NotFound,
        ApiErrorKind::AlreadyExists,
        ApiErrorKind::OutOfRange,
        ApiErrorKind::Unimplemented,
        ApiErrorKind::Unauthenticated,
        ApiErrorKind::Internal,
    ] {
        assert_eq!(ApiErrorKind::from_name(kind.as_str()), Some(kind));
    }
    assert_eq!(ApiErrorKind::from_name("Internal"), None);
    assert_eq!(ApiErrorKind::default(), ApiErrorKind::Unknown);
}

#[test]
fn unknown_fields_are_skipped() {
    let v = entries(vec![
        field(7, PackValue::U64(3)),
        field(0, PackValue::Str("v1.2.3".to_string())),
        field(9, PackValue::Bytes(vec![1, 2])),
    ]);
    assert_eq!(HealthResult::unpack(&v).unwrap().git_tag, "v1.2.3");
}

#[test]
fn a_later_field_overrides_an_earlier_one() {
    let v = entries(vec![
        field(0, PackValue::Str("first".to_string())),
        field(0, PackValue::Str("second".to_string())),
    ]);
    assert_eq!(HealthResult::unpack(&v).unwrap().git_tag, "second");
}

#[test]
fn a_field_of_the_wrong_type_is_refused() {
    let v = entries(vec![field(0, PackValue::U32(5))]);
    assert_eq!(HealthResult::unpack(&v).unwrap_err(), DecodeError::UnexpectedType);
    let v = entries(vec![PackEntry { key: PackValue::Str("0".to_string()), value: PackValue::U32(5) }]);
    assert_eq!(HealthResult::unpack(&v).unwrap_err(), DecodeError::UnexpectedType);
}

#[test]
fn health_result_round_trips() {
    let r = HealthResult { git_tag: "v0.1.0".to_string() };
    assert_eq!(HealthResult::unpack(&r.pack()).unwrap().git_tag, "v0.1.0");
    assert_eq!(HealthResult::unpack(&entries(vec![])).unwrap_err(), DecodeError::MissingField(0));
}

#[test]
fn health_output_tag_limit() {
    assert_eq!(HealthOutput::MAX_GIH_TAG_LENGTH, 256);
    let o = HealthOutput { git_tag: "v1".to_string() };
    assert_eq!(o.git_tag, "v1");
}

#[test]
fn request_round_trips() {
    let req = ApiRequest { header: ApiRequestHeader::default(), body: HealthResult { git_tag: "t".to_string() } };
    let back = ApiRequest::<HealthResult>::unpack(&req.pack()).unwrap();
    assert_eq!(back.body.git_tag, "t");
}

#[test]
fn request_needs_header_and_body() {
    let header = ApiRequestHeader::default().pack();
    let v = entries(vec![field(0, header)]);
    assert_eq!(ApiRequest::<HealthResult>::unpack(&v).unwrap_err(), DecodeError::MissingField(1));
    let body = HealthResult { git_tag: "t".to_string() }.pack();
    let v = entries(vec![field(1, body)]);
    assert_eq!(ApiRequest::<HealthResult>::unpack(&v).unwrap_err(), DecodeError::MissingField(0));
}

#[test]
fn result_round_trips_both_cases() {
    let ok: ApiResult<HealthResult> = ApiResult::Success(HealthResult { git_tag: "v9".to_string() });
    match ApiResult::<HealthResult>::unpack(&ok.pack()).unwrap() {
        ApiResult::Success(h) => assert_eq!(h.git_tag, "v9"),
        ApiResult::Failure(_) => panic!("expected the success case"),
    }
    let err: ApiResult<HealthResult> = ApiResult::Failure(ApiError::new(ApiErrorKind::InvalidInput));
    match ApiResult::<HealthResult>::unpack(&err.pack()).unwrap() {
        ApiResult::Success(_) => panic!("expected the failure case"),
        ApiResult::Failure(e) => assert_eq!(e.kind, ApiErrorKind::InvalidInput),
    }
}

#[test]
fn result_without_either_case_is_an_unknown_error() {
    match ApiResult::<HealthResult>::unpack(&entries(vec![])).unwrap() {
        ApiResult::Success(_) => panic!("expected the failure case"),
        ApiResult::Failure(e) => {
            assert_eq!(e.kind, ApiErrorKind::Unknown);
            assert_eq!(e.message, None);
        }
    }
}

#[test]
fn session_hello_round_trips() {
    let m = HelloMessage { version: SessionVersion::V1 };
    assert_eq!(HelloMessage::unpack(&m.pack()).unwrap().version, SessionVersion::V1);
    let v = entries(vec![field(0, PackValue::U32(7))]);
    assert_eq!(HelloMessage::unpack(&v).unwrap_err(), DecodeError::InvalidValue(0));
}

#[test]
fn session_reprs() {
    assert_eq!(SessionVersion::V1.to_repr(), 1);
    assert_eq!(SessionVersion::from_repr(1), Some(SessionVersion::V1));
    assert_eq!(SessionVersion::from_repr(0), None);
    for t in [V1RequestType::Unknown, V1RequestType::NodeFinder, V1RequestType::FileExchanger] {
        assert_eq!(V1RequestType::from_repr(t.to_repr()), Some(t));
    }
    for t in [V1ResultType::Unknown, V1ResultType::Accept, V1ResultType::Reject] {
        assert_eq!(V1ResultType::from_repr(t.to_repr()), Some(t));
    }
}

#[test]
fn challenge_needs_a_32_byte_nonce() {
    let m = V1ChallengeMessage { nonce: [7u8; 32] };
    assert_eq!(V1ChallengeMessage::unpack(&m.pack()).unwrap().nonce, [7u8; 32]);
    let v = entries(vec![field(0, PackValue::Bytes(vec![1; 31]))]);
    assert_eq!(V1ChallengeMessage::unpack(&v).unwrap_err(), DecodeError::InvalidValue(0));
}

#[test]
fn request_and_result_messages_round_trip() {
    let q = V1RequestMessage { request_type: V1RequestType::FileExchanger };
    assert_eq!(V1RequestMessage::unpack(&q.pack()).unwrap().request_type, V1RequestType::FileExchanger);
    let r = V1ResultMessage { result_type: V1ResultType::Reject };
    assert_eq!(V1ResultMessage::unpack(&r.pack()).unwrap().result_type, V1ResultType::Reject);
}

#[test]
fn finder_hello_keeps_known_versions_only() {
    let m = FinderHello::new(0b111);
    assert_eq!(m.version(), 1);
    let back = FinderHello::unpack(&m.pack()).unwrap();
    assert_eq!(back.version(), 1);
}

#[test]
fn profile_message_round_trips() {
    let p = NodeProfile::new(vec![1, 2, 3], vec!["tcp(ip4(127.0.0.1),5051)".to_string()]);
    let m = ProfileMessage { node_profile: p.duplicate() };
    let back = ProfileMessage::unpack(&m.pack()).unwrap();
    assert!(back.node_profile.equals(&p));
}

#[test]
fn node_profile_needs_key_then_addresses() {
    let v = entries(vec![]);
    assert_eq!(NodeProfile::unpack(&v).unwrap_err(), DecodeError::MissingField(0));
    let v = entries(vec![field(0, PackValue::Bytes(vec![1]))]);
    assert_eq!(NodeProfile::unpack(&v).unwrap_err(), DecodeError::MissingField(1));
}

fn key(b: u8) -> AssetKey {
    AssetKey { typ: "file".to_string(), hash: OmniHash::new(OmniHashAlgorithmType::Sha3_256, vec![b; 32]) }
}

#[test]
fn data_message_round_trips_profiles_keys_and_locations() {
    let mut m = DataMessage::new();
    m.push_node_profiles.push(NodeProfile::new(vec![1], vec!["a".to_string()]));
    m.push_node_profiles.push(NodeProfile::new(vec![2], vec![]));
    m.want_asset_keys.push(key(7));
    m.want_asset_keys.push(key(8));
    m.give_asset_key_locations.insert(key(7), vec![NodeProfile::new(vec![3], vec![])]);
    m.push_asset_key_locations.insert(key(9), vec![NodeProfile::new(vec![4], vec![]), NodeProfile::new(vec![5], vec![])]);
    m.push_asset_key_locations.insert(key(1), vec![]);
    let back = DataMessage::unpack(&m.pack()).unwrap();
    assert_eq!(back.push_node_profiles.len(), 2);
    assert!(back.push_node_profiles[0].equals(&m.push_node_profiles[0]));
    assert!(back.push_node_profiles[1].equals(&m.push_node_profiles[1]));
    assert_eq!(back.want_asset_keys.len(), 2);
    assert!(back.want_asset_keys[0].equals(&key(7)));
    assert!(back.want_asset_keys[1].equals(&key(8)));
    let give = back.give_asset_key_locations.entries();
    assert_eq!(give.len(), 1);
    assert!(give[0].asset_key.equals(&key(7)));
    assert_eq!(give[0].node_profiles[0].public_key(), &[3u8]);
    let push = back.push_asset_key_locations.entries();
    assert_eq!(push.len(), 2);
    assert!(push[0].asset_key.equals(&key(9)));
    assert_eq!(push[0].node_profiles.len(), 2);
    assert!(push[1].asset_key.equals(&key(1)));
    assert!(push[1].node_profiles.is_empty());
}

#[test]
fn a_key_set_again_keeps_its_place_and_takes_the_new_profiles() {
    let mut l = AssetKeyLocations::new();
    l.insert(key(1), vec![NodeProfile::new(vec![1], vec![])]);
    l.insert(key(2), vec![]);
    l.insert(key(1), vec![NodeProfile::new(vec![9], vec![])]);
    let es = l.entries();
    assert_eq!(es.len(), 2);
    assert!(es[0].asset_key.equals(&key(1)));
    assert_eq!(es[0].node_profiles[0].public_key(), &[9u8]);
    // A map that names a key twice reads the same way.
    let v = entries(vec![
        field(0, PackValue::Array(vec![])),
        field(1, PackValue::Array(vec![])),
        field(2, PackValue::Entries(vec![
            PackEntry { key: key(1).pack(), value: PackValue::Array(vec![NodeProfile::new(vec![1], vec![]).pack()]) },
            PackEntry { key: key(2).pack(), value: PackValue::Array(vec![]) },
            PackEntry { key: key(1).pack(), value: PackValue::Array(vec![NodeProfile::new(vec![9], vec![]).pack()]) },
        ])),
        field(3, PackValue::Entries(vec![])),
    ]);
    let m = DataMessage::unpack(&v).unwrap();
    let give = m.give_asset_key_locations.entries();
    assert_eq!(give.len(), 2);
    assert!(give[0].asset_key.equals(&key(1)));
    assert_eq!(give[0].node_profiles[0].public_key(), &[9u8]);
}

#[test]
fn asset_key_file_ref_and_merkle_layer_round_trip() {
    let k = key(3);
    assert!(AssetKey::unpack(&k.pack()).unwrap().equals(&k));
    let f = FileRef { name: "a.txt".to_string(), hash: OmniHash::new(OmniHashAlgorithmType::Sha3_256, vec![5; 32]) };
    let back = FileRef::unpack(&f.pack()).unwrap();
    assert_eq!(back.name, "a.txt");
    assert!(back.hash.same_as(&f.hash));
    let l = MerkleLayer { rank: 2, hashes: vec![key(1).hash, key(2).hash] };
    let back = MerkleLayer::unpack(&l.pack()).unwrap();
    assert_eq!(back.rank, 2);
    assert_eq!(back.hashes.len(), 2);
    assert!(back.hashes[1].same_as(&key(2).hash));
}

#[test]
fn a_hash_of_an_unknown_algorithm_is_refused() {
    let v = entries(vec![field(0, PackValue::U32(9)), field(1, PackValue::Bytes(vec![1]))]);
    assert_eq!(OmniHash::unpack(&v).unwrap_err(), DecodeError::InvalidValue(0));
    let v = entries(vec![field(0, PackValue::U32(1))]);
    assert_eq!(OmniHash::unpack(&v).unwrap_err(), DecodeError::MissingField(1));
}

#[test]
fn data_message_needs_all_four_fields() {
    let v = entries(vec![
        field(0, PackValue::Array(vec![])),
        field(1, PackValue::Array(vec![])),
        field(2, PackValue::Entries(vec![])),
    ]);
    assert_eq!(DataMessage::unpack(&v).unwrap_err(), DecodeError::MissingField(3));
    let v = entries(vec![field(0, PackValue::Array(vec![PackValue::U32(1)]))]);
    assert_eq!(DataMessage::unpack(&v).unwrap_err(), DecodeError::UnexpectedType);
    let empty = DataMessage::default();
    assert!(empty.push_node_profiles.is_empty());
}
