use vstd::prelude::*;

use crate::model::string_views;
use std::path::PathBuf;

verus! {

/// The name of the daemon's configuration file inside its configuration directory.
pub const CONFIG_FILE_NAME: &'static str = "axus.toml";

#[verifier::external_type_specification]
#[verifier::external_body]
pub struct ExPathBuf(PathBuf);

/// The path that std's `Path::join` gives for `rel` joined onto `dir`.
pub uninterp spec fn joined_path(dir: PathBuf, rel: Seq<char>) -> PathBuf;

/// The path that std's `PathBuf::from` gives for the text `s`.
pub uninterp spec fn path_of_text(s: Seq<char>) -> PathBuf;

/// std's `PathBuf::from` on a string. Its result depends on the text alone and
/// is named `path_of_text`.
#[verifier::external_body]
pub(crate) fn path_from(s: &str) -> (r: PathBuf)
    ensures
        r == path_of_text(s@),
{
    PathBuf::from(s)
}

/// std's `Path::join`: `rel` joined onto `dir`. Its result depends on the two
/// arguments alone and is named `joined_path`; what that path is (an absolute
/// `rel` replaces `dir`) is std's and is not stated here.
#[verifier::external_body]
pub(crate) fn join_path(dir: &PathBuf, rel: &str) -> (r: PathBuf)
    ensures
        r == joined_path(*dir, rel@),
{
    dir.join(rel)
}

/// The `[core]` table of the configuration file.
#[derive(Debug, Clone, PartialEq, Eq)]
pub struct CoreConfigToml {
    pub state_dir: String,
}

/// The `[api]` table of the configuration file.
#[derive(Debug, Clone, PartialEq, Eq)]
pub struct ApiConfigToml {
    pub listen_addr: String,
}

/// The `[p2p]` table of the configuration file: `listen_addr` is required,
/// the other keys may be left out.
#[derive(Debug, Clone, PartialEq, Eq)]
pub struct P2pConfigToml {
    pub listen_addr: String,
    pub advertise_addrs: Option<Vec<String>>,
    pub use_upnp: Option<bool>,
    pub bootstrap_nodes: Option<Vec<String>>,
}

/// The `[logging]` table of the configuration file.
#[derive(Debug, Clone, PartialEq, Eq)]
pub struct LoggingConfigToml {
    pub level: String,
    pub json: bool,
}

/// The configuration file as read: each of its four tables is required.
#[derive(Debug, Clone, PartialEq, Eq)]
pub struct DaemonConfigToml {
    pub core: CoreConfigToml,
    pub api: ApiConfigToml,
    pub p2p: P2pConfigToml,
    pub logging: LoggingConfigToml,
}

/// The daemon's configuration.
#[derive(Debug, PartialEq, Eq)]
pub struct DaemonConfig {
    pub core: CoreConfig,
    pub api: ApiConfig,
    pub p2p: P2pConfig,
    pub logging: LoggingConfig,
}

/// Where the daemon keeps its state.
#[derive(Debug, PartialEq, Eq)]
pub struct CoreConfig {
    pub state_dir: PathBuf,
}

/// Listen address of the local API. Separate from [`P2pConfig`] so that the
/// API surface and the P2P transport never share a port.
#[derive(Debug, Clone, PartialEq, Eq)]
pub struct ApiConfig {
    pub listen_addr: String,
}

/// The P2P transport: the `host:port` it listens on, the `host:port` list
/// announced to other nodes (when empty, the listen address or the reachable
/// addresses are announced), whether the listen port is opened on the router
/// through UPnP, and the `axus:node/` URIs of the nodes to connect to first.
#[derive(Debug, Clone, PartialEq, Eq)]
pub struct P2pConfig {
    pub listen_addr: String,
    pub advertise_addrs: Vec<String>,
    pub use_upnp: bool,
    pub bootstrap_nodes: Vec<String>,
}

/// The strings of an optional list, none when it is left out.
pub open spec fn listed_or_none(v: Option<Vec<String>>) -> Seq<Seq<char>> {
    match v {
        Some(v) => string_views(v@),
        None => seq![],
    }
}

fn list_or_empty(v: Option<Vec<String>>) -> (r: Vec<String>)
    ensures
        string_views(r@) == listed_or_none(v),
{
    match v {
        Some(v) => v,
        None => {
            let r: Vec<String> = Vec::new();
            assert(string_views(r@) =~= seq![]);
            r
        },
    }
}

/// How the daemon logs: the level filter and whether lines are JSON.
#[derive(Debug, Clone, PartialEq, Eq)]
pub struct LoggingConfig {
    pub level: String,
    pub json: bool,
}

impl DaemonConfig {
    /// The configuration that a configuration file read from `dir` gives: the
    /// state directory is the file's one joined onto `dir`, everything else is
    /// taken as written.
    pub fn from_toml(dir: &PathBuf, toml: DaemonConfigToml) -> (r: DaemonConfig)
        ensures
            r.core.state_dir == joined_path(*dir, toml.core.state_dir@),
            r.api.listen_addr@ == toml.api.listen_addr@,
            r.p2p.listen_addr@ == toml.p2p.listen_addr@,
            string_views(r.p2p.advertise_addrs@) == listed_or_none(toml.p2p.advertise_addrs),
            r.p2p.use_upnp == (toml.p2p.use_upnp == Some(true)),
            string_views(r.p2p.bootstrap_nodes@) == listed_or_none(toml.p2p.bootstrap_nodes),
            r.logging.level@ == toml.logging.level@,
            r.logging.json == toml.logging.json,
    {
        DaemonConfig {
            core: CoreConfig { state_dir: join_path(dir, toml.core.state_dir.as_str()) },
            api: ApiConfig { listen_addr: toml.api.listen_addr },
            p2p: P2pConfig {
                listen_addr: toml.p2p.listen_addr,
                advertise_addrs: list_or_empty(toml.p2p.advertise_addrs),
                use_upnp: match toml.p2p.use_upnp {
                    Some(b) => b,
                    None => false,
                },
                bootstrap_nodes: list_or_empty(toml.p2p.bootstrap_nodes),
            },
            logging: LoggingConfig { level: toml.logging.level, json: toml.logging.json },
        }
    }
}

} // verus!
