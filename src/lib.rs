//! Request handling and swarm state of a BitTorrent UDP tracker.
pub mod types;
pub mod config;
pub mod swarm;
pub mod entries;
pub mod peer_map;
pub mod random;
pub mod sampling;
pub mod handlers;
pub mod access_list;
pub mod cleaner;
pub mod laws;
pub mod batch;
pub mod statistics;
pub mod codec;
