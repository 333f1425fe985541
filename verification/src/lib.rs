//! SkyChat core: an end-to-end-encrypted group-chat library built on MLS.
//!
//! The crate is split along the three concerns of the system:
//! the per-user cryptographic engine ([`manager::ConvoManager`]),
//! the server-side group ledger ([`server::ConvoServer`]), and
//! the client synchronizer ([`client::ConvoClient`]).

pub mod api;
pub mod client;
pub mod manager;
pub mod mls;
pub mod server;
pub mod settings;
pub mod types;
pub mod utils;
pub mod wire;
