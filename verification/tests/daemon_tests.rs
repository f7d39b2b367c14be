use std::path::PathBuf;
use std::time::Duration;

use axus::block_split::split_into_blocks;
use axus::config::{
    ApiConfigToml, CoreConfigToml, DaemonConfig, DaemonConfigToml, LoggingConfig, LoggingConfigToml, P2pConfigToml,
    CONFIG_FILE_NAME,
};
use axus::daemon_error;
use axus::daemon_error::DaemonErrorSource;
use axus::error_source::{ErrorSource, MigrationErrorKind, OmnikitErrorKind};
use axus::error::{Error, ErrorKind};
use axus::executor::Executor;
use axus::file_publish::{first_layer, next_step, plan_commit, uncommitted_blocks, CommitPlan, MerkleStep, PublishedCommittedFile};
use axus::file_subscribe::{mark_downloaded, progress_after_write, SubscribedBlock, SubscribedFile, SubscribedFileStatus};
use axus::hash_model::{OmniHash, OmniHashAlgorithmType};
use axus::node_finder_option::{NodeFinderIntervals, NodeFinderOption};
use axus::server::{Dispatch, FunctionId, RpcServer};
use axus::tcp_connector::{ConnectRoute, ConnectionTcpConnectorImpl, TcpProxyOption, TcpProxyType};
use axus::tcp_accepter::{IpAddress, TcpAccepterPlan};
use axus::text::{decimal, with_decimal};

fn toml(state_dir: &str) -> DaemonConfigToml {
    DaemonConfigToml {
        core: CoreConfigToml { state_dir: state_dir.to_string() },
        api: ApiConfigToml { listen_addr: "0.0.0.0:6051".to_string() },
        p2p: P2pConfigToml {
            listen_addr: "0.0.0.0:6052".to_string(),
            advertise_addrs: None,
            use_upnp: None,
            bootstrap_nodes: None,
        },
        logging: LoggingConfigToml { level: "info".to_string(), json: false },
    }
}

#[test]
fn config_from_toml_joins_the_state_dir() {
    let dir = PathBuf::from("/tmp/axus-config");
    let conf = DaemonConfig::from_toml(&dir, toml("./state"));
    assert_eq!(conf.core.state_dir, dir.join("./state"));
    assert_eq!(conf.api.listen_addr, "0.0.0.0:6051");
    assert_eq!(conf.p2p.listen_addr, "0.0.0.0:6052");
    assert_eq!(conf.logging.level, "info");
    assert!(!conf.logging.json);
    assert_eq!(CONFIG_FILE_NAME, "axus.toml");
}

#[test]
fn config_p2p_keys_default_when_left_out() {
    let dir = PathBuf::from("/tmp/axus-config");
    let conf = DaemonConfig::from_toml(&dir, toml("./state"));
    assert!(conf.p2p.advertise_addrs.is_empty());
    assert!(!conf.p2p.use_upnp);
    assert!(conf.p2p.bootstrap_nodes.is_empty());

    let mut t = toml("./state");
    t.p2p.advertise_addrs = Some(vec!["203.0.113.7:5051".to_string()]);
    t.p2p.use_upnp = Some(true);
    t.p2p.bootstrap_nodes = Some(vec!["axus:node/abc".to_string()]);
    let conf = DaemonConfig::from_toml(&dir, t);
    assert_eq!(conf.p2p.advertise_addrs, vec!["203.0.113.7:5051".to_string()]);
    assert!(conf.p2p.use_upnp);
    assert_eq!(conf.p2p.bootstrap_nodes, vec!["axus:node/abc".to_string()]);
}

#[test]
fn config_from_toml_keeps_an_absolute_state_dir() {
    let dir = PathBuf::from("/tmp/axus-config");
    let conf = DaemonConfig::from_toml(&dir, toml("/var/lib/axus"));
    assert_eq!(conf.core.state_dir, PathBuf::from("/var/lib/axus"));
}

#[test]
fn default_log_filter_switches_sqlx_off() {
    let conf = LoggingConfig { level: "debug".to_string(), json: true };
    assert_eq!(Executor::default_log_filter(&conf), "debug,sqlx=off");
}

#[test]
fn default_config_dir_prefers_the_environment_then_home() {
    let env = PathBuf::from("/etc/axus");
    let home = PathBuf::from("/home/me");
    assert_eq!(Executor::default_config_dir(Some(env.clone()), Some(home.clone())), env);
    assert_eq!(Executor::default_config_dir(None, Some(home)), PathBuf::from("/home/me/.config/axus"));
    assert_eq!(Executor::default_config_dir(None, None), PathBuf::from(".config/axus"));
}

#[test]
fn rpc_server_dispatches_by_function_id() {
    assert_eq!(RpcServer::dispatch(0), Dispatch::ServeHealth);
    assert_eq!(RpcServer::dispatch(1), Dispatch::NotSupported(FunctionId::Other));
    assert_eq!(RpcServer::dispatch(42), Dispatch::UnknownFunction(42));
    assert_eq!(FunctionId::from_repr(0), Some(FunctionId::Health));
    assert_eq!(FunctionId::from_repr(2), None);
}

#[test]
fn tcp_connector_routes_by_proxy_option() {
    let direct = ConnectionTcpConnectorImpl::new(TcpProxyOption { typ: TcpProxyType::NoProxy, addr: None }).unwrap();
    assert_eq!(direct.proxy_type(), TcpProxyType::NoProxy);
    match direct.route("tcp(ip4(127.0.0.1),1)", Ok::<(&str, u16), Error>(("127.0.0.1", 1))) {
        Ok(ConnectRoute::Direct(t)) => assert_eq!(t, ("127.0.0.1", 1)),
        _ => panic!("expected the direct route"),
    }

    let proxied = ConnectionTcpConnectorImpl::new(TcpProxyOption {
        typ: TcpProxyType::Socks5,
        addr: Some("127.0.0.1:1080".to_string()),
    })
    .unwrap();
    match proxied.route("tcp(ip4(10.0.0.1),2)", Ok::<(&str, u16), Error>(("10.0.0.1", 2))) {
        Ok(ConnectRoute::Socks5 { proxy_addr, target }) => {
            assert_eq!(proxy_addr, "127.0.0.1:1080");
            assert_eq!(target, ("10.0.0.1", 2));
        }
        _ => panic!("expected the proxy route"),
    }
}

#[test]
fn socks5_without_proxy_address_is_a_network_error() {
    let c = ConnectionTcpConnectorImpl::new(TcpProxyOption { typ: TcpProxyType::Socks5, addr: None }).unwrap();
    let err = c.route("tcp(ip4(10.0.0.1),2)", Ok::<(&str, u16), Error>(("10.0.0.1", 2))).unwrap_err();
    assert_eq!(err.kind(), &ErrorKind::NetworkError);
    assert_eq!(err.message(), Some("failed to connect by socks5: tcp(ip4(10.0.0.1),2)"));
}

#[test]
fn an_unreadable_address_fails_before_the_proxy_check() {
    let c = ConnectionTcpConnectorImpl::new(TcpProxyOption { typ: TcpProxyType::Socks5, addr: None }).unwrap();
    let parse_error = Error::new(ErrorKind::InvalidFormat).with_message("addr parse error".to_string());
    let err = c.route::<(&str, u16)>("nonsense", Err(parse_error)).unwrap_err();
    assert_eq!(err.kind(), &ErrorKind::InvalidFormat);
    assert_eq!(err.message(), Some("addr parse error"));
}

#[test]
fn node_finder_intervals_default() {
    let i = NodeFinderIntervals::default();
    assert_eq!(i.connect, Duration::from_secs(20));
    assert_eq!(i.compute, Duration::from_secs(60));
    assert_eq!(i.communicate, Duration::from_secs(20));
    let o = NodeFinderOption {
        state_dir: "s".to_string(),
        max_connected_session_count: 3,
        max_accepted_session_count: 4,
        intervals: i,
    };
    assert_eq!(o.max_connected_session_count, 3);
}

#[test]
fn error_kinds_display_their_text() {
    assert_eq!(ErrorKind::TimeError.to_string(), "time conversion error");
    assert_eq!(ErrorKind::NotConnected.to_string(), "not_connected");
    assert_eq!(ErrorKind::AlreadyExists.as_str(), "already exists");
    let e = Error::new(ErrorKind::Reject).with_message("m".to_string());
    assert_eq!(e.kind(), &ErrorKind::Reject);
    assert_eq!(e.message(), Some("m"));
    assert_eq!(Error::new(ErrorKind::Reject).message(), None);
}

#[test]
fn daemon_error_from_engine_error_keeps_kind_and_message() {
    let e = Error::new(ErrorKind::AlreadyExists).with_message("dup".to_string());
    let d = daemon_error::Error::from_engine_error(e);
    assert_eq!(d.kind(), &daemon_error::ErrorKind::AlreadyExists);
    assert_eq!(d.kind().as_str(), "already Exists");
    assert_eq!(d.message(), None);
    let d = daemon_error::Error::from_engine_error(Error::new(ErrorKind::IoError));
    assert_eq!(d.kind(), &daemon_error::ErrorKind::IoError);
    assert_eq!(d.message(), None);
}

#[test]
fn toml_parse_failure_is_a_serde_error() {
    let e = daemon_error::Error::from_source(&DaemonErrorSource::Toml);
    assert_eq!(e.kind(), &daemon_error::ErrorKind::SerdeError);
    assert_eq!(e.message(), Some("failed to parse toml file"));
}

#[test]
fn daemon_failures_map_to_kinds_and_messages() {
    let e = daemon_error::Error::from_source(&DaemonErrorSource::TryFromInt);
    assert_eq!(e.kind(), &daemon_error::ErrorKind::InvalidFormat);
    assert_eq!(e.message(), Some("integer conversion error"));
    let e = daemon_error::Error::from_source(&DaemonErrorSource::Omnikit(OmnikitErrorKind::EndOfStream));
    assert_eq!(e.kind(), &daemon_error::ErrorKind::EndOfStream);
    assert_eq!(e.message(), None);
    let e = daemon_error::Error::from_source(&DaemonErrorSource::Infallible);
    assert_eq!(e.kind(), &daemon_error::ErrorKind::Unknown);
}

#[test]
fn engine_failures_map_to_kinds_and_messages() {
    let e = Error::from_source(&ErrorSource::Io);
    assert_eq!(e.kind(), &ErrorKind::IoError);
    assert_eq!(e.message(), Some("io error"));
    let e = Error::from_source(&ErrorSource::TryFromInt);
    assert_eq!(e.message(), Some("Integer conversion error"));
    let e = Error::from_source(&ErrorSource::ParserError("Tag".to_string()));
    assert_eq!(e.kind(), &ErrorKind::InvalidFormat);
    assert_eq!(e.message(), Some("nom error: Tag"));
    let e = Error::from_source(&ErrorSource::Migration(MigrationErrorKind::DatabaseError));
    assert_eq!(e.kind(), &ErrorKind::TimeError);
    assert_eq!(e.message(), None);
    let e = Error::from_source(&ErrorSource::Join);
    assert_eq!(e.kind(), &ErrorKind::TaskError);
    assert_eq!(e.message(), Some("join failed"));
}

#[test]
fn decimal_writes_numbers() {
    assert_eq!(decimal(0), "0");
    assert_eq!(decimal(1234), "1234");
    assert_eq!(decimal(u32::MAX), "4294967295");
    assert_eq!(with_decimal("invalid version: ", 7), "invalid version: 7");
}

#[test]
fn split_into_blocks_cuts_at_the_block_size() {
    let data: Vec<u8> = (0..10u8).collect();
    let blocks = split_into_blocks(&data, 4);
    assert_eq!(blocks, vec![vec![0, 1, 2, 3], vec![4, 5, 6, 7], vec![8, 9]]);
    assert_eq!(blocks.concat(), data);
    assert!(split_into_blocks(&[], 4).is_empty());
    assert_eq!(split_into_blocks(&data, 10), vec![data.clone()]);
}

fn hash(b: u8) -> OmniHash {
    OmniHash::new(OmniHashAlgorithmType::Sha3_256, vec![b; 32])
}

#[test]
fn merkle_steps_end_at_a_single_block() {
    let layer = first_layer(vec![hash(1), hash(2)]);
    assert_eq!(layer.rank, 1);
    match next_step(1, vec![hash(3), hash(4)]) {
        MerkleStep::Next(l) => {
            assert_eq!(l.rank, 2);
            assert_eq!(l.hashes.len(), 2);
        }
        MerkleStep::Root(_) => panic!("two blocks make a further level"),
    }
    match next_step(2, vec![hash(5)]) {
        MerkleStep::Root(h) => assert!(h.same_as(&hash(5))),
        MerkleStep::Next(_) => panic!("one block is the root"),
    }
}

#[test]
fn uncommitted_blocks_are_numbered_in_order() {
    let blocks = uncommitted_blocks(&"f".to_string(), &vec![hash(1), hash(2), hash(3)], 2);
    assert_eq!(blocks.len(), 3);
    for (i, b) in blocks.iter().enumerate() {
        assert_eq!(b.index as usize, i);
        assert_eq!(b.rank, 2);
        assert_eq!(b.file_id, "f");
    }
    assert!(blocks[1].block_hash.same_as(&hash(2)));
}

fn committed(name: &str) -> PublishedCommittedFile {
    PublishedCommittedFile {
        root_hash: hash(9),
        file_name: name.to_string(),
        block_size: 1024,
        attrs: None,
        created_at: 5,
        updated_at: 6,
    }
}

#[test]
fn commit_plan_covers_the_three_cases() {
    let pending = uncommitted_blocks(&"f".to_string(), &vec![hash(1)], 0);
    let plan = plan_commit(Some(committed("a.txt")), &"a.txt".to_string(), 1024, &None, &hash(9), &pending, 100);
    assert!(matches!(plan, CommitPlan::AlreadyPublished));
    let plan = plan_commit(Some(committed("a.txt")), &"b.txt".to_string(), 1024, &None, &hash(9), &pending, 100);
    match plan {
        CommitPlan::Rename(f) => {
            assert_eq!(f.file_name, "b.txt");
            assert_eq!(f.created_at, 5);
        }
        _ => panic!("expected a rename"),
    }
    let plan = plan_commit(None, &"c.txt".to_string(), 512, &Some("x".to_string()), &hash(9), &pending, 100);
    match plan {
        CommitPlan::Publish(f, bs) => {
            assert_eq!(f.created_at, 100);
            assert_eq!(f.updated_at, 100);
            assert_eq!(f.block_size, 512);
            assert_eq!(bs.len(), 1);
            assert!(bs[0].root_hash.same_as(&hash(9)));
        }
        _ => panic!("expected a publish"),
    }
}

fn block(b: u8, downloaded: bool) -> SubscribedBlock {
    SubscribedBlock { root_hash: hash(9), block_hash: hash(b), rank: 1, index: b as u32, downloaded }
}

fn file(total: u32) -> SubscribedFile {
    SubscribedFile {
        id: "id".to_string(),
        root_hash: hash(9),
        file_path: "/tmp/out".to_string(),
        rank: 1,
        block_count_downloaded: 0,
        block_count_total: total,
        attrs: None,
        priority: 0,
        status: SubscribedFileStatus::Downloading,
        failed_reason: None,
        created_at: 1,
        updated_at: 1,
    }
}

#[test]
fn progress_counts_downloaded_blocks() {
    let blocks = vec![block(1, true), block(2, false), block(3, true)];
    let f = progress_after_write(file(3), &blocks, 50).unwrap();
    assert_eq!(f.block_count_downloaded, 2);
    assert_eq!(f.status, SubscribedFileStatus::Downloading);
    assert_eq!(f.updated_at, 50);
    let all = mark_downloaded(blocks);
    assert!(all.iter().all(|b| b.downloaded));
    let f = progress_after_write(f, &all, 60).unwrap();
    assert_eq!(f.block_count_downloaded, 3);
    assert_eq!(f.status, SubscribedFileStatus::Decoding);
    // A file that is no longer being downloaded does not move.
    assert!(progress_after_write(f, &all, 70).is_none());
}

#[test]
fn a_specific_listen_address_is_advertised_with_its_port() {
    let local = IpAddress::V4([127, 0, 0, 1]);
    let reachable = vec![IpAddress::V4([192, 168, 0, 2])];
    assert_eq!(TcpAccepterPlan::advertised_endpoints(&local, 5051, &reachable), vec![(local, 5051)]);
}

#[test]
fn the_unspecified_listen_address_advertises_the_reachable_ones() {
    let any = IpAddress::V4([0, 0, 0, 0]);
    assert!(any.is_unspecified());
    assert!(IpAddress::V6([0; 16]).is_unspecified());
    let mut v6 = [0u8; 16];
    v6[15] = 1;
    assert!(!IpAddress::V6(v6).is_unspecified());
    let reachable = vec![IpAddress::V4([203, 0, 113, 7]), IpAddress::V6(v6)];
    let ads = TcpAccepterPlan::advertised_endpoints(&any, 6000, &reachable);
    assert_eq!(ads, vec![(reachable[0], 6000), (reachable[1], 6000)]);
    for (ip, port) in ads {
        assert!(!ip.is_unspecified());
        assert_eq!(port, 6000);
    }
}

#[test]
fn port_mapping_only_for_the_unspecified_ipv4_address() {
    assert!(TcpAccepterPlan::wants_port_mapping(&IpAddress::V4([0, 0, 0, 0]), true));
    assert!(!TcpAccepterPlan::wants_port_mapping(&IpAddress::V4([0, 0, 0, 0]), false));
    assert!(!TcpAccepterPlan::wants_port_mapping(&IpAddress::V4([10, 0, 0, 1]), true));
    assert!(!TcpAccepterPlan::wants_port_mapping(&IpAddress::V6([0; 16]), true));
}
