use vstd::prelude::*;

verus! {

/// Opaque 64-bit cookie handed out on connect.
#[derive(Clone, Copy, Debug, PartialEq, Eq, Hash, Structural)]
pub struct ConnectionId(pub u64);

/// Client-chosen identifier echoed back in every response.
#[derive(Clone, Copy, Debug, PartialEq, Eq, Hash, Structural)]
pub struct TransactionId(pub i32);

/// 20-byte torrent identifier.
#[derive(Clone, Copy, Debug)]
pub struct InfoHash(pub [u8; 20]);

/// 20-byte client-chosen peer identifier.
#[derive(Clone, Copy, Debug)]
pub struct PeerId(pub [u8; 20]);

/// An IP address: IPv4 as its 32-bit value, IPv6 as its 128-bit value.
#[derive(Clone, Copy, Debug, PartialEq, Eq, Hash, Structural)]
pub enum IpAddr {
    V4(u32),
    V6(u128),
}

/// A source or destination endpoint.
#[derive(Clone, Copy, Debug, PartialEq, Eq, Hash, Structural)]
pub struct SocketAddr {
    pub ip: IpAddr,
    pub port: u16,
}

/// A cookie bound to the endpoint that received it.
#[derive(Clone, Copy, Debug, PartialEq, Eq, Hash, Structural)]
pub struct ConnectionKey {
    pub connection_id: ConnectionId,
    pub socket_addr: SocketAddr,
}

/// Identity of a peer within a swarm: source IP and peer id (not the port).
#[derive(Clone, Copy, Debug)]
pub struct PeerMapKey {
    pub ip: IpAddr,
    pub peer_id: PeerId,
}

#[derive(Clone, Copy, Debug, PartialEq, Eq, Hash, Structural)]
pub enum PeerStatus {
    Seeding,
    Leeching,
    Stopped,
}

/// A peer as stored in a swarm; `last_announce` is in ticks of the tracker's clock.
#[derive(Clone, Copy, Debug)]
pub struct Peer {
    pub ip_address: IpAddr,
    pub port: u16,
    pub status: PeerStatus,
    pub last_announce: u64,
}

/// A peer as listed in an announce response.
#[derive(Clone, Copy, Debug, PartialEq, Eq, Hash, Structural)]
pub struct ResponsePeer {
    pub ip_address: IpAddr,
    pub port: u16,
}

#[derive(Clone, Copy, Debug, PartialEq, Eq, Hash, Structural)]
pub enum AnnounceEvent {
    Started,
    Stopped,
    Completed,
    Unspecified,
}

#[derive(Clone, Copy, Debug)]
pub struct ConnectRequest {
    pub transaction_id: TransactionId,
}

#[derive(Clone, Copy, Debug)]
pub struct AnnounceRequest {
    pub connection_id: ConnectionId,
    pub transaction_id: TransactionId,
    pub info_hash: InfoHash,
    pub peer_id: PeerId,
    pub bytes_left: u64,
    pub event: AnnounceEvent,
    pub port: u16,
    pub peers_wanted: i32,
}

#[derive(Clone, Debug)]
pub struct ScrapeRequest {
    pub connection_id: ConnectionId,
    pub transaction_id: TransactionId,
    pub info_hashes: Vec<InfoHash>,
}

#[derive(Clone, Debug)]
pub enum Request {
    Connect(ConnectRequest),
    Announce(AnnounceRequest),
    Scrape(ScrapeRequest),
}

#[derive(Clone, Copy, Debug)]
pub struct ConnectResponse {
    pub connection_id: ConnectionId,
    pub transaction_id: TransactionId,
}

#[derive(Clone, Debug)]
pub struct AnnounceResponse {
    pub transaction_id: TransactionId,
    pub announce_interval: i32,
    pub leechers: i32,
    pub seeders: i32,
    pub peers: Vec<ResponsePeer>,
}

#[derive(Clone, Copy, Debug, PartialEq, Eq, Hash, Structural)]
pub struct TorrentScrapeStatistics {
    pub seeders: i32,
    pub completed: i32,
    pub leechers: i32,
}

#[derive(Clone, Debug)]
pub struct ScrapeResponse {
    pub transaction_id: TransactionId,
    pub torrent_stats: Vec<TorrentScrapeStatistics>,
}

#[derive(Clone, Debug)]
pub struct ErrorResponse {
    pub transaction_id: TransactionId,
    pub message: String,
}

#[derive(Clone, Debug)]
pub enum Response {
    Connect(ConnectResponse),
    Announce(AnnounceResponse),
    Scrape(ScrapeResponse),
    Error(ErrorResponse),
}

/// Byte-wise equality of two 20-byte identifiers.
pub fn bytes20_eq(a: &[u8; 20], b: &[u8; 20]) -> (r: bool)
    ensures
        r == (*a == *b),
{
    let mut i: usize = 0;
    while i < 20
        invariant
            0 <= i <= 20,
            forall|j: int| 0 <= j < i ==> a@[j] == b@[j],
        decreases 20 - i,
    {
        if a[i] != b[i] {
            return false;
        }
        i = i + 1;
    }
    proof {
        vstd::array::axiom_array_ext_equal(*a, *b);
        assert(*a =~= *b);
    }
    true
}

impl InfoHash {
    pub fn same(&self, other: &InfoHash) -> (r: bool)
        ensures
            r == (*self == *other),
    {
        bytes20_eq(&self.0, &other.0)
    }
}

impl PeerMapKey {
    pub fn same(&self, other: &PeerMapKey) -> (r: bool)
        ensures
            r == (*self == *other),
    {
        self.ip == other.ip && bytes20_eq(&self.peer_id.0, &other.peer_id.0)
    }
}

impl Peer {
    pub open spec fn response_view(self) -> ResponsePeer {
        ResponsePeer { ip_address: self.ip_address, port: self.port }
    }

    pub fn to_response_peer(&self) -> (r: ResponsePeer)
        ensures
            r == self.response_view(),
    {
        ResponsePeer { ip_address: self.ip_address, port: self.port }
    }
}

} // verus!
