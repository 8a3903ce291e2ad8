//! Figures that the statistics report reads from a shard.
use vstd::prelude::*;

use crate::peer_map::lemma_count_seeders_leechers_le_len;
use crate::swarm::{HandlerData, TorrentMap};

verus! {

/// Peer count of each torrent of `m`, in map order.
fn push_peer_counts(m: &TorrentMap, counts: &mut Vec<u64>)
    requires
        m.wf(),
    ensures
        final(counts)@.len() == old(counts)@.len() + m.entries@.len(),
        final(counts)@.take(old(counts)@.len() as int) == old(counts)@,
        forall|j: int|
            0 <= j < m.entries@.len() ==> #[trigger] final(counts)@[old(counts)@.len() + j] as int
                == m.entries@[j].1.num_seeders + m.entries@[j].1.num_leechers,
{
    let ghost base = counts@.len();
    let mut i: usize = 0;
    while i < m.entries.len()
        invariant
            m.wf(),
            0 <= i <= m.entries@.len(),
            counts@.len() == base + i,
            counts@.take(base as int) == old(counts)@,
            forall|j: int|
                0 <= j < i ==> #[trigger] counts@[base + j] as int == m.entries@[j].1.num_seeders
                    + m.entries@[j].1.num_leechers,
        decreases m.entries@.len() - i,
    {
        let t = &m.entries[i].1;
        let num_peers = t.peers.len();
        proof {
            assert(m.entries@[i as int].1.wf());
            lemma_count_seeders_leechers_le_len(t.peers.entries@);
            assert(num_peers <= u64::MAX);
        }
        let n: u64 = t.num_seeders as u64 + t.num_leechers as u64;
        counts.push(n);
        assert(counts@.take(base as int) =~= old(counts)@);
        i = i + 1;
    }
}

/// The number of peers of every torrent of the shard: the IPv4 map's first, then the
/// IPv6 map's.
pub fn peers_per_torrent(data: &HandlerData) -> (r: Vec<u64>)
    requires
        data.wf(),
    ensures
        r@.len() == data.torrents.ipv4.entries@.len() + data.torrents.ipv6.entries@.len(),
        forall|j: int|
            0 <= j < data.torrents.ipv4.entries@.len() ==> #[trigger] r@[j] as int
                == data.torrents.ipv4.entries@[j].1.num_seeders
                + data.torrents.ipv4.entries@[j].1.num_leechers,
        forall|j: int|
            0 <= j < data.torrents.ipv6.entries@.len() ==> #[trigger] r@[
            data.torrents.ipv4.entries@.len() + j] as int == data.torrents.ipv6.entries@[j].1.num_seeders
                + data.torrents.ipv6.entries@[j].1.num_leechers,
{
    let mut counts: Vec<u64> = Vec::new();
    push_peer_counts(&data.torrents.ipv4, &mut counts);
    let ghost first = counts@;
    push_peer_counts(&data.torrents.ipv6, &mut counts);
    proof {
        assert forall|j: int| 0 <= j < first.len() implies #[trigger] counts@[j] as int
            == data.torrents.ipv4.entries@[j].1.num_seeders
            + data.torrents.ipv4.entries@[j].1.num_leechers by {
            assert(counts@.take(first.len() as int)[j] == first[j]);
            assert(first[0 + j] == first[j]);
        }
    }
    counts
}

} // verus!
