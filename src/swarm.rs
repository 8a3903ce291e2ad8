//! The state of one shard: connection cookies and the torrents of each address family.
use vstd::prelude::*;

use crate::entries::{
    entries_map, keys_unique, lemma_entries_dom, lemma_entries_index, lemma_entries_push,
    lemma_entries_update,
};
use crate::peer_map::{count_after_in, peers_after_in, TorrentData};
use crate::sampling::{extract_response_peers, offsets_valid, sample_of};
use crate::types::{PeerStatus, ConnectionKey, InfoHash, IpAddr, Peer, PeerMapKey, ResponsePeer, SocketAddr};

verus! {

/// Cookies handed out, each with the time it was issued.
pub struct ConnectionTable {
    pub entries: Vec<(ConnectionKey, u64)>,
}

impl ConnectionTable {
    pub open spec fn wf(&self) -> bool {
        keys_unique(self.entries@)
    }

    pub open spec fn map(&self) -> Map<ConnectionKey, u64> {
        entries_map(self.entries@)
    }

    pub fn new() -> (r: ConnectionTable)
        ensures
            r.wf(),
            r.map() == Map::<ConnectionKey, u64>::empty(),
    {
        ConnectionTable { entries: Vec::new() }
    }

    pub fn position(&self, key: &ConnectionKey) -> (r: Option<usize>)
        requires
            self.wf(),
        ensures
            match r {
                Some(i) => i < self.entries@.len() && self.entries@[i as int].0 == *key,
                None => !self.map().contains_key(*key),
            },
    {
        let mut i: usize = 0;
        while i < self.entries.len()
            invariant
                0 <= i <= self.entries@.len(),
                forall|j: int| 0 <= j < i ==> self.entries@[j].0 != *key,
            decreases self.entries@.len() - i,
        {
            if self.entries[i].0 == *key {
                return Some(i);
            }
            i = i + 1;
        }
        proof {
            lemma_entries_dom(self.entries@, *key);
        }
        None
    }

    pub fn contains_key(&self, key: &ConnectionKey) -> (r: bool)
        requires
            self.wf(),
        ensures
            r == self.map().contains_key(*key),
    {
        match self.position(key) {
            Some(i) => {
                proof {
                    lemma_entries_index(self.entries@, i as int);
                }
                true
            },
            None => false,
        }
    }

    pub fn insert(&mut self, key: ConnectionKey, issued_at: u64)
        requires
            old(self).wf(),
        ensures
            final(self).wf(),
            final(self).map() == old(self).map().insert(key, issued_at),
    {
        let ghost s = self.entries@;
        match self.position(&key) {
            Some(i) => {
                proof {
                    lemma_entries_update(s, i as int, (key, issued_at));
                    assert(entries_map(s).remove(key).insert(key, issued_at) =~= entries_map(
                        s,
                    ).insert(key, issued_at));
                }
                self.entries[i] = (key, issued_at);
            },
            None => {
                proof {
                    lemma_entries_dom(s, key);
                    lemma_entries_push(s, (key, issued_at));
                }
                self.entries.push((key, issued_at));
            },
        }
    }
}

/// The torrents of one address family, at most one entry per info hash.
pub struct TorrentMap {
    pub entries: Vec<(InfoHash, TorrentData)>,
}

impl TorrentMap {
    pub open spec fn wf(&self) -> bool {
        &&& keys_unique(self.entries@)
        &&& forall|i: int| 0 <= i < self.entries@.len() ==> (#[trigger] self.entries@[i]).1.wf()
    }

    pub open spec fn map(&self) -> Map<InfoHash, TorrentData> {
        entries_map(self.entries@)
    }

    pub fn new() -> (r: TorrentMap)
        ensures
            r.wf(),
            r.map() == Map::<InfoHash, TorrentData>::empty(),
    {
        TorrentMap { entries: Vec::new() }
    }

    pub proof fn lemma_values_wf(&self, h: InfoHash)
        requires
            self.wf(),
            self.map().contains_key(h),
        ensures
            self.map()[h].wf(),
    {
        lemma_entries_dom(self.entries@, h);
        let i = choose|i: int| 0 <= i < self.entries@.len() && self.entries@[i].0 == h;
        lemma_entries_index(self.entries@, i);
    }

    pub fn position(&self, info_hash: &InfoHash) -> (r: Option<usize>)
        requires
            self.wf(),
        ensures
            match r {
                Some(i) => i < self.entries@.len() && self.entries@[i as int].0 == *info_hash
                    && self.map().contains_key(*info_hash) && self.map()[*info_hash]
                    == self.entries@[i as int].1,
                None => !self.map().contains_key(*info_hash),
            },
    {
        let mut i: usize = 0;
        while i < self.entries.len()
            invariant
                0 <= i <= self.entries@.len(),
                self.wf(),
                forall|j: int| 0 <= j < i ==> self.entries@[j].0 != *info_hash,
            decreases self.entries@.len() - i,
        {
            if self.entries[i].0.same(info_hash) {
                proof {
                    lemma_entries_index(self.entries@, i as int);
                }
                return Some(i);
            }
            i = i + 1;
        }
        proof {
            lemma_entries_dom(self.entries@, *info_hash);
        }
        None
    }

    /// Position of the entry for `info_hash`, which is added, with no peers, if absent.
    pub fn position_or_insert(&mut self, info_hash: InfoHash) -> (r: usize)
        requires
            old(self).wf(),
        ensures
            final(self).wf(),
            r < final(self).entries@.len(),
            final(self).entries@[r as int].0 == info_hash,
            old(self).map().contains_key(info_hash) ==> final(self).map() == old(self).map(),
            old(self).map().contains_key(info_hash) ==> final(self).entries@ == old(self).entries@,
            !old(self).map().contains_key(info_hash) ==> final(self).map() == old(
                self,
            ).map().insert(info_hash, final(self).entries@[r as int].1),
            !old(self).map().contains_key(info_hash) ==> final(self).entries@[r as int].1.peers.map()
                == Map::<crate::types::PeerMapKey, crate::types::Peer>::empty(),
            !old(self).map().contains_key(info_hash) ==> final(self).entries@[r as int].1.num_seeders
                == 0,
            !old(self).map().contains_key(info_hash) ==> final(self).entries@[r as int].1.num_leechers
                == 0,
            !old(self).map().contains_key(info_hash) ==> final(self).entries@[r as int].1.peers.entries@.len()
                == 0,
    {
        match self.position(&info_hash) {
            Some(i) => i,
            None => {
                let ghost s = self.entries@;
                let t = TorrentData::new();
                proof {
                    lemma_entries_dom(s, info_hash);
                    lemma_entries_push(s, (info_hash, t));
                }
                self.entries.push((info_hash, t));
                self.entries.len() - 1
            },
        }
    }
}

impl TorrentMap {
    /// The peers of the swarm of `info_hash`; none where the map holds no such swarm.
    pub open spec fn peers_of(&self, info_hash: InfoHash) -> Map<PeerMapKey, Peer> {
        if self.map().contains_key(info_hash) {
            self.map()[info_hash].peers.map()
        } else {
            Map::empty()
        }
    }

    pub open spec fn seeders_of(&self, info_hash: InfoHash) -> int {
        if self.map().contains_key(info_hash) {
            self.map()[info_hash].num_seeders as int
        } else {
            0
        }
    }

    pub open spec fn leechers_of(&self, info_hash: InfoHash) -> int {
        if self.map().contains_key(info_hash) {
            self.map()[info_hash].num_leechers as int
        } else {
            0
        }
    }

    /// Records an announce of `peer` under `key` in the swarm of `info_hash` (created if
    /// absent) and samples up to `max_num_peers_to_take` of its peers. Returns the swarm's
    /// leecher and seeder counts after the change, and the sampled peers.
    pub fn announce(
        &mut self,
        rng: &mut rand::rngs::SmallRng,
        info_hash: InfoHash,
        key: PeerMapKey,
        peer: Peer,
        max_num_peers_to_take: usize,
    ) -> (r: (usize, usize, Vec<ResponsePeer>))
        requires
            old(self).wf(),
        ensures
            final(self).wf(),
            final(self).map().contains_key(info_hash),
            final(self).map() == old(self).map().insert(info_hash, final(self).map()[info_hash]),
            final(self).peers_of(info_hash) == peers_after_in(
                old(self).peers_of(info_hash),
                key,
                peer,
            ),
            final(self).seeders_of(info_hash) == count_after_in(
                old(self).seeders_of(info_hash),
                old(self).peers_of(info_hash),
                key,
                peer,
                PeerStatus::Seeding,
            ),
            final(self).leechers_of(info_hash) == count_after_in(
                old(self).leechers_of(info_hash),
                old(self).peers_of(info_hash),
                key,
                peer,
                PeerStatus::Leeching,
            ),
            r.0 == final(self).map()[info_hash].num_leechers,
            r.1 == final(self).map()[info_hash].num_seeders,
            exists|o1: int, o2: int|
                (final(self).map()[info_hash].peers.entries@.len() > max_num_peers_to_take
                    ==> offsets_valid(
                    final(self).map()[info_hash].peers.entries@.len() as int,
                    max_num_peers_to_take as int,
                    o1,
                    o2,
                )) && r.2@ == sample_of(
                    final(self).map()[info_hash].peers.entries@,
                    max_num_peers_to_take as int,
                    o1,
                    o2,
                ),
    {
        let i = self.position_or_insert(info_hash);
        let ghost mid = self.entries@;
        proof {
            lemma_entries_index(mid, i as int);
        }
        let entry = &mut self.entries[i];
        let _prev = entry.1.update_peer(key, peer);
        let ghost t = self.entries@[i as int].1;
        proof {
            lemma_entries_update(mid, i as int, (info_hash, t));
            assert(entries_map(mid).remove(info_hash).insert(info_hash, t) =~= entries_map(
                mid,
            ).insert(info_hash, t));
            lemma_entries_index(self.entries@, i as int);
            assert(old(self).map().insert(info_hash, t) =~= entries_map(mid).insert(info_hash, t));
        }
        let t_ref = &self.entries[i].1;
        let peers = extract_response_peers(rng, &t_ref.peers, max_num_peers_to_take);
        (t_ref.num_leechers, t_ref.num_seeders, peers)
    }
}

pub open spec fn is_ipv4(ip: IpAddr) -> bool {
    ip is V4
}

/// One torrent map per address family.
pub struct TorrentMaps {
    pub ipv4: TorrentMap,
    pub ipv6: TorrentMap,
}

impl TorrentMaps {
    pub open spec fn wf(&self) -> bool {
        self.ipv4.wf() && self.ipv6.wf()
    }

    /// The map that serves requests from `src`.
    pub open spec fn family(&self, src: SocketAddr) -> TorrentMap {
        if is_ipv4(src.ip) {
            self.ipv4
        } else {
            self.ipv6
        }
    }

    /// The map that does not serve requests from `src`.
    pub open spec fn other_family(&self, src: SocketAddr) -> TorrentMap {
        if is_ipv4(src.ip) {
            self.ipv6
        } else {
            self.ipv4
        }
    }
}

/// All the state of one shard.
pub struct HandlerData {
    pub connections: ConnectionTable,
    pub torrents: TorrentMaps,
}

impl HandlerData {
    pub open spec fn wf(&self) -> bool {
        self.connections.wf() && self.torrents.wf()
    }

    pub fn new() -> (r: HandlerData)
        ensures
            r.wf(),
            r.connections.map() == Map::<ConnectionKey, u64>::empty(),
            r.torrents.ipv4.map() == Map::<InfoHash, TorrentData>::empty(),
            r.torrents.ipv6.map() == Map::<InfoHash, TorrentData>::empty(),
    {
        HandlerData {
            connections: ConnectionTable::new(),
            torrents: TorrentMaps { ipv4: TorrentMap::new(), ipv6: TorrentMap::new() },
        }
    }
}

} // verus!
