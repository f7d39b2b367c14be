//! Verified core of the Axus peer-to-peer file exchanger: the decisions of the
//! node finder, the file publishing and subscribing bookkeeping, the message
//! field layouts and the error types of the engine and of the daemon.
pub mod byte_order;
pub mod error;
pub mod error_source;
pub mod daemon_error;
pub mod session;
pub mod session_registry;
pub mod node_connector;
mod rng;
pub mod block_split;
pub mod hash_model;
pub mod file_publish;
pub mod file_subscribe;
pub mod text;
pub mod model;
pub mod node_finder;
pub mod codec;
pub mod api_error_kind;
pub mod api;
pub mod session_message;
pub mod node_finder_message;
pub mod config;
pub mod executor;
pub mod server;
pub mod tcp_connector;
pub mod node_finder_option;
pub mod data_message;
pub mod tcp_accepter;
pub mod model_codec;
pub mod encoder_jobs;
