//! Properties of the swarm state and of announce handling, stated over the models that the
//! handlers' contracts use.
use vstd::prelude::*;

use crate::cleaner::{alive, live_connections};
use crate::entries::{lemma_entries_dom, lemma_entries_index};
use crate::handlers::peers_to_take;
use crate::peer_map::{count_after_in, count_status, peers_after_in};
use crate::sampling::{
    lemma_sample_positions, lemma_without_peer_len, offsets_valid, sample_of, without_peer,
};
use crate::swarm::TorrentMap;
use crate::types::{
    ConnectionId, ConnectionKey, InfoHash, Peer, PeerMapKey, PeerStatus, ResponsePeer, SocketAddr,
};

verus! {

/// In every swarm of a well-formed torrent map, the seeder and leecher counters equal the
/// number of held peers of each status, and no held peer is stopped.
pub proof fn lemma_swarm_counters(m: TorrentMap, info_hash: InfoHash)
    requires
        m.wf(),
        m.map().contains_key(info_hash),
    ensures
        m.map()[info_hash].num_seeders == count_status(
            m.map()[info_hash].peers.entries@,
            PeerStatus::Seeding,
        ),
        m.map()[info_hash].num_leechers == count_status(
            m.map()[info_hash].peers.entries@,
            PeerStatus::Leeching,
        ),
        forall|k: PeerMapKey|
            #[trigger] m.map()[info_hash].peers.map().contains_key(k)
                ==> m.map()[info_hash].peers.map()[k].status != PeerStatus::Stopped,
{
    m.lemma_values_wf(info_hash);
    let t = m.map()[info_hash];
    assert forall|k: PeerMapKey| #[trigger]
        t.peers.map().contains_key(k) implies t.peers.map()[k].status != PeerStatus::Stopped by {
        lemma_entries_dom(t.peers.entries@, k);
        let i = choose|i: int| 0 <= i < t.peers.entries@.len() && t.peers.entries@[i].0 == k;
        lemma_entries_index(t.peers.entries@, i);
    }
}

/// After a cleaning pass every cookie left was issued less than the time-to-live ago.
pub proof fn lemma_cleaned_connections_alive(m: Map<ConnectionKey, u64>, ttl: u64, now: u64)
    ensures
        forall|k: ConnectionKey| #[trigger]
            live_connections(m, ttl, now).contains_key(k) ==> alive(
                live_connections(m, ttl, now)[k],
                ttl,
                now,
            ),
{
}

/// A cookie recorded by a connect from `src` makes the table accept an announce from `src`
/// that carries it.
pub proof fn lemma_connect_admits_announce(
    table: Map<ConnectionKey, u64>,
    connection_id: ConnectionId,
    src: SocketAddr,
    now: u64,
)
    ensures
        table.insert(ConnectionKey { connection_id, socket_addr: src }, now).contains_key(
            ConnectionKey { connection_id, socket_addr: src },
        ),
{
}

/// Announcing twice with the same status leaves both counters as the first announce left
/// them.
pub proof fn lemma_repeated_announce_keeps_counts(
    m: Map<PeerMapKey, Peer>,
    key: PeerMapKey,
    first: Peer,
    second: Peer,
    seeders: int,
    leechers: int,
)
    requires
        first.status == second.status,
    ensures
        count_after_in(
            seeders,
            peers_after_in(m, key, first),
            key,
            second,
            PeerStatus::Seeding,
        ) == seeders,
        count_after_in(
            leechers,
            peers_after_in(m, key, first),
            key,
            second,
            PeerStatus::Leeching,
        ) == leechers,
{
}

/// A leeching announce followed by a seeding one: one leecher less, one seeder more than
/// after the first.
pub proof fn lemma_leeching_then_seeding(
    m: Map<PeerMapKey, Peer>,
    key: PeerMapKey,
    first: Peer,
    second: Peer,
    seeders: int,
    leechers: int,
)
    requires
        first.status == PeerStatus::Leeching,
        second.status == PeerStatus::Seeding,
    ensures
        count_after_in(
            seeders,
            peers_after_in(m, key, first),
            key,
            second,
            PeerStatus::Seeding,
        ) == seeders + 1,
        count_after_in(
            leechers,
            peers_after_in(m, key, first),
            key,
            second,
            PeerStatus::Leeching,
        ) == leechers - 1,
{
}

/// A leeching announce followed by a stopped one, from a peer not held before: the peer is
/// gone and both counters are back where they were.
pub proof fn lemma_leeching_then_stopped(
    m: Map<PeerMapKey, Peer>,
    key: PeerMapKey,
    first: Peer,
    second: Peer,
    seeders: int,
    leechers: int,
)
    requires
        first.status == PeerStatus::Leeching,
        second.status == PeerStatus::Stopped,
        !m.contains_key(key),
    ensures
        !peers_after_in(peers_after_in(m, key, first), key, second).contains_key(key),
        count_after_in(
            count_after_in(seeders, m, key, first, PeerStatus::Seeding),
            peers_after_in(m, key, first),
            key,
            second,
            PeerStatus::Seeding,
        ) == seeders,
        count_after_in(
            count_after_in(leechers, m, key, first, PeerStatus::Leeching),
            peers_after_in(m, key, first),
            key,
            second,
            PeerStatus::Leeching,
        ) == leechers,
{
}

/// The number of peers in an announce response never exceeds `max_response_peers`, and
/// is zero where `peers_wanted` is zero or negative.
pub proof fn lemma_response_peer_count(
    s: Seq<(PeerMapKey, Peer)>,
    peers_wanted: i32,
    max_response_peers: usize,
    o1: int,
    o2: int,
    own: ResponsePeer,
)
    requires
        s.len() > peers_to_take(peers_wanted, max_response_peers) ==> offsets_valid(
            s.len() as int,
            peers_to_take(peers_wanted, max_response_peers),
            o1,
            o2,
        ),
    ensures
        without_peer(sample_of(s, peers_to_take(peers_wanted, max_response_peers), o1, o2), own).len()
            <= max_response_peers,
        peers_wanted <= 0 ==> without_peer(
            sample_of(s, peers_to_take(peers_wanted, max_response_peers), o1, o2),
            own,
        ).len() == 0,
{
    lemma_sample_positions(s, peers_to_take(peers_wanted, max_response_peers), o1, o2);
    lemma_without_peer_len(sample_of(s, peers_to_take(peers_wanted, max_response_peers), o1, o2), own);
}

} // verus!
