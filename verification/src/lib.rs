//! Protocol core of a small message-passing runtime for distributed jobs.
//!
//! A fixed-size group of clients rendezvous through a coordinator, learn
//! each other's peer addresses, exchange tagged messages pairwise and
//! synchronise through barriers and named mutexes. This crate holds the
//! decisions of that protocol as verified state machines over plain values;
//! sockets, threads and serialisation live with the caller.

pub mod address;
pub mod networking;
pub mod pending;
pub mod coordinator;
pub mod text;
pub mod client;
pub mod mutex;
pub mod config;
pub mod distribution;

pub use crate::address::{IpAddress, SocketAddress};
pub use crate::client::{ClientOptions, HeimdallrClient};
pub use crate::config::DaemonConfig;
pub use crate::mutex::{HeimdallrMutex, HeimdallrMutexDataHandle};
