//! Settings that the request handlers and the cleaner read.
use vstd::prelude::*;

verus! {

/// How the access list filters torrents.
#[derive(Clone, Copy, Debug, PartialEq, Eq, Structural)]
pub enum AccessListMode {
    /// Only listed info hashes are served.
    Allow,
    /// Listed info hashes are refused.
    Deny,
    /// No filtering.
    Ignore,
}

/// Times are in seconds of the tracker's clock.
#[derive(Clone, Copy, Debug)]
pub struct Config {
    pub max_requests_per_iter: usize,
    pub channel_recv_timeout_ms: u64,
    pub max_response_peers: usize,
    pub peer_announce_interval: i32,
    pub connection_ttl: u64,
    pub peer_ttl: u64,
    pub cleaning_interval: u64,
    pub statistics_interval: u64,
    pub access_list_mode: AccessListMode,
}

} // verus!
