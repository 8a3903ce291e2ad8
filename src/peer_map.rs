//! The peers of one swarm, in insertion order, and their seeder/leecher counters.
use vstd::prelude::*;

use crate::entries::{
    entries_map, keys_unique, lemma_entries_dom, lemma_entries_index, lemma_entries_push,
    lemma_entries_swap_remove, lemma_entries_update,
};
use crate::types::{AnnounceEvent, Peer, PeerMapKey, PeerStatus};

verus! {

/// Number of entries whose peer has status `st`.
pub open spec fn count_status(s: Seq<(PeerMapKey, Peer)>, st: PeerStatus) -> nat
    decreases s.len(),
{
    if s.len() == 0 {
        0
    } else {
        count_status(s.drop_last(), st) + if s.last().1.status == st { 1nat } else { 0nat }
    }
}

pub open spec fn is_status(p: Peer, st: PeerStatus) -> nat {
    if p.status == st { 1 } else { 0 }
}

/// 1 where an optional status is `st`, else 0.
pub open spec fn opt_is_status(s: Option<PeerStatus>, st: PeerStatus) -> int {
    if s == Some(st) { 1 } else { 0 }
}

/// Status of the peer that `m` holds under `key`, if any.
pub open spec fn prev_status_in(m: Map<PeerMapKey, Peer>, key: PeerMapKey) -> Option<PeerStatus> {
    if m.contains_key(key) {
        Some(m[key].status)
    } else {
        None
    }
}

/// The peers held after an announce of `peer` under `key`: a stopped peer leaves, any
/// other takes the place of the one held under `key`.
pub open spec fn peers_after_in(m: Map<PeerMapKey, Peer>, key: PeerMapKey, peer: Peer) -> Map<
    PeerMapKey,
    Peer,
> {
    if peer.status == PeerStatus::Stopped {
        m.remove(key)
    } else {
        m.insert(key, peer)
    }
}

/// A counter of status `st` after an announce of `peer` under `key`: one more where the
/// new status is `st`, one less where the replaced or removed peer had it.
pub open spec fn count_after_in(
    count: int,
    m: Map<PeerMapKey, Peer>,
    key: PeerMapKey,
    peer: Peer,
    st: PeerStatus,
) -> int {
    count + is_status(peer, st) - opt_is_status(prev_status_in(m, key), st)
}

/// The status that an announce with this event and this many bytes left gives a peer.
pub open spec fn status_of(event: AnnounceEvent, bytes_left: u64) -> PeerStatus {
    if event == AnnounceEvent::Stopped {
        PeerStatus::Stopped
    } else if event == AnnounceEvent::Completed || bytes_left == 0 {
        PeerStatus::Seeding
    } else {
        PeerStatus::Leeching
    }
}

pub fn peer_status_from_event(event: AnnounceEvent, bytes_left: u64) -> (r: PeerStatus)
    ensures
        r == status_of(event, bytes_left),
{
    if event == AnnounceEvent::Stopped {
        PeerStatus::Stopped
    } else if event == AnnounceEvent::Completed || bytes_left == 0 {
        PeerStatus::Seeding
    } else {
        PeerStatus::Leeching
    }
}

pub proof fn lemma_count_le_len(s: Seq<(PeerMapKey, Peer)>, st: PeerStatus)
    ensures
        count_status(s, st) <= s.len(),
    decreases s.len(),
{
    if s.len() > 0 {
        lemma_count_le_len(s.drop_last(), st);
    }
}

/// A peer has one status, so the seeders and the leechers together are at most all peers.
pub proof fn lemma_count_seeders_leechers_le_len(s: Seq<(PeerMapKey, Peer)>)
    ensures
        count_status(s, PeerStatus::Seeding) + count_status(s, PeerStatus::Leeching) <= s.len(),
    decreases s.len(),
{
    if s.len() > 0 {
        lemma_count_seeders_leechers_le_len(s.drop_last());
    }
}

pub proof fn lemma_count_index(s: Seq<(PeerMapKey, Peer)>, i: int, st: PeerStatus)
    requires
        0 <= i < s.len(),
    ensures
        count_status(s, st) >= is_status(s[i].1, st),
    decreases s.len(),
{
    if i < s.len() - 1 {
        lemma_count_index(s.drop_last(), i, st);
    }
}

pub proof fn lemma_count_push(s: Seq<(PeerMapKey, Peer)>, e: (PeerMapKey, Peer), st: PeerStatus)
    ensures
        count_status(s.push(e), st) == count_status(s, st) + is_status(e.1, st),
{
    assert(s.push(e).drop_last() =~= s);
}

pub proof fn lemma_count_update(
    s: Seq<(PeerMapKey, Peer)>,
    i: int,
    e: (PeerMapKey, Peer),
    st: PeerStatus,
)
    requires
        0 <= i < s.len(),
    ensures
        count_status(s.update(i, e), st) + is_status(s[i].1, st) == count_status(s, st) + is_status(
            e.1,
            st,
        ),
    decreases s.len(),
{
    if i < s.len() - 1 {
        assert(s.update(i, e).drop_last() =~= s.drop_last().update(i, e));
        lemma_count_update(s.drop_last(), i, e, st);
    } else {
        assert(s.update(i, e).drop_last() =~= s.drop_last());
    }
}

pub proof fn lemma_count_take_next(s: Seq<(PeerMapKey, Peer)>, i: int, st: PeerStatus)
    requires
        0 <= i < s.len(),
    ensures
        count_status(s.take(i + 1), st) == count_status(s.take(i), st) + is_status(s[i].1, st),
{
    assert(s.take(i + 1).drop_last() =~= s.take(i));
}

pub proof fn lemma_count_take_le(s: Seq<(PeerMapKey, Peer)>, i: int, st: PeerStatus)
    requires
        0 <= i <= s.len(),
    ensures
        count_status(s.take(i), st) <= count_status(s, st),
    decreases s.len(),
{
    if i == s.len() {
        assert(s.take(i) =~= s);
    } else {
        assert(s.drop_last().take(i) =~= s.take(i));
        lemma_count_take_le(s.drop_last(), i, st);
    }
}

/// The peers of a swarm in insertion order, at most one per `PeerMapKey`.
pub struct PeerMap {
    pub entries: Vec<(PeerMapKey, Peer)>,
}

impl PeerMap {
    pub open spec fn wf(&self) -> bool {
        keys_unique(self.entries@)
    }

    pub open spec fn map(&self) -> Map<PeerMapKey, Peer> {
        entries_map(self.entries@)
    }

    pub fn new() -> (r: PeerMap)
        ensures
            r.wf(),
            r.entries@.len() == 0,
            r.map() == Map::<PeerMapKey, Peer>::empty(),
    {
        PeerMap { entries: Vec::new() }
    }

    pub fn len(&self) -> (r: usize)
        ensures
            r == self.entries@.len(),
    {
        self.entries.len()
    }

    /// Position of the entry with key `key`, if any.
    pub fn position(&self, key: &PeerMapKey) -> (r: Option<usize>)
        requires
            self.wf(),
        ensures
            match r {
                Some(i) => i < self.entries@.len() && self.entries@[i as int].0 == *key,
                None => !self.map().contains_key(*key),
            },
    {
        let mut i: usize = 0;
        while i < self.entries.len()
            invariant
                0 <= i <= self.entries@.len(),
                forall|j: int| 0 <= j < i ==> self.entries@[j].0 != *key,
            decreases self.entries@.len() - i,
        {
            if self.entries[i].0.same(key) {
                return Some(i);
            }
            i = i + 1;
        }
        proof {
            lemma_entries_dom(self.entries@, *key);
        }
        None
    }
}

/// The state of one swarm.
pub struct TorrentData {
    pub peers: PeerMap,
    pub num_seeders: usize,
    pub num_leechers: usize,
}

impl TorrentData {
    /// Counters match the map, and no stopped peer is held.
    pub open spec fn wf(&self) -> bool {
        &&& self.peers.wf()
        &&& self.num_seeders == count_status(self.peers.entries@, PeerStatus::Seeding)
        &&& self.num_leechers == count_status(self.peers.entries@, PeerStatus::Leeching)
        &&& forall|i: int|
            0 <= i < self.peers.entries@.len() ==> #[trigger] self.peers.entries@[i].1.status
                != PeerStatus::Stopped
    }

    pub fn new() -> (r: TorrentData)
        ensures
            r.wf(),
            r.peers.map() == Map::<PeerMapKey, Peer>::empty(),
            r.num_seeders == 0,
            r.num_leechers == 0,
    {
        TorrentData { peers: PeerMap::new(), num_seeders: 0, num_leechers: 0 }
    }

    /// Status of the peer held under `key`, if any.
    pub open spec fn prev_status(&self, key: PeerMapKey) -> Option<PeerStatus> {
        prev_status_in(self.peers.map(), key)
    }

    /// The peers held after an announce of `peer` under `key`.
    pub open spec fn peers_after(&self, key: PeerMapKey, peer: Peer) -> Map<PeerMapKey, Peer> {
        peers_after_in(self.peers.map(), key, peer)
    }

    /// The seeder count after an announce of `peer` under `key`.
    pub open spec fn seeders_after(&self, key: PeerMapKey, peer: Peer) -> int {
        count_after_in(self.num_seeders as int, self.peers.map(), key, peer, PeerStatus::Seeding)
    }

    /// The leecher count after an announce of `peer` under `key`.
    pub open spec fn leechers_after(&self, key: PeerMapKey, peer: Peer) -> int {
        count_after_in(self.num_leechers as int, self.peers.map(), key, peer, PeerStatus::Leeching)
    }

    /// Records an announce of `peer` under `key`: a stopped peer leaves the map, any other
    /// takes the place of the one held under `key` (or joins at the end). The counters follow.
    /// Returns the status of the entry that was replaced or removed.
    pub fn update_peer(&mut self, key: PeerMapKey, peer: Peer) -> (prev: Option<PeerStatus>)
        requires
            old(self).wf(),
        ensures
            final(self).wf(),
            prev == old(self).prev_status(key),
            peer.status == PeerStatus::Stopped ==> final(self).peers.map() == old(
                self,
            ).peers.map().remove(key),
            peer.status != PeerStatus::Stopped ==> final(self).peers.map() == old(
                self,
            ).peers.map().insert(key, peer),
            final(self).peers.map() == old(self).peers_after(key, peer),
            final(self).num_seeders == old(self).seeders_after(key, peer),
            final(self).num_leechers == old(self).leechers_after(key, peer),
    {
        let ghost s = self.peers.entries@;
        let pos = self.peers.position(&key);
        let mut prev: Option<PeerStatus> = None;
        if peer.status == PeerStatus::Stopped {
            if let Some(i) = pos {
                proof {
                    lemma_entries_index(s, i as int);
                    lemma_count_index(s, i as int, PeerStatus::Seeding);
                    lemma_count_index(s, i as int, PeerStatus::Leeching);
                    lemma_entries_swap_remove(s, i as int);
                    lemma_count_update(s, i as int, s.last(), PeerStatus::Seeding);
                    lemma_count_update(s, i as int, s.last(), PeerStatus::Leeching);
                    let u = s.update(i as int, s.last());
                    assert(u.last() == s.last());
                    assert(count_status(u, PeerStatus::Seeding) == count_status(
                        u.drop_last(),
                        PeerStatus::Seeding,
                    ) + is_status(u.last().1, PeerStatus::Seeding));
                    assert(count_status(u, PeerStatus::Leeching) == count_status(
                        u.drop_last(),
                        PeerStatus::Leeching,
                    ) + is_status(u.last().1, PeerStatus::Leeching));
                }
                let removed = self.peers.entries.swap_remove(i);
                prev = Some(removed.1.status);
            } else {
                proof {
                    assert(self.peers.map().remove(key) =~= self.peers.map());
                }
            }
        } else {
            if let Some(i) = pos {
                proof {
                    lemma_entries_index(s, i as int);
                    lemma_count_index(s, i as int, PeerStatus::Seeding);
                    lemma_count_index(s, i as int, PeerStatus::Leeching);
                    lemma_entries_update(s, i as int, (key, peer));
                    assert(entries_map(s).remove(key).insert(key, peer) =~= entries_map(s).insert(
                        key,
                        peer,
                    ));
                    lemma_count_update(s, i as int, (key, peer), PeerStatus::Seeding);
                    lemma_count_update(s, i as int, (key, peer), PeerStatus::Leeching);
                }
                let replaced = self.peers.entries[i];
                self.peers.entries[i] = (key, peer);
                prev = Some(replaced.1.status);
            } else {
                proof {
                    lemma_entries_dom(s, key);
                    lemma_entries_push(s, (key, peer));
                    lemma_count_push(s, (key, peer), PeerStatus::Seeding);
                    lemma_count_push(s, (key, peer), PeerStatus::Leeching);
                }
                self.peers.entries.push((key, peer));
            }
        }
        let len_after = self.peers.len();
        proof {
            lemma_count_le_len(self.peers.entries@, PeerStatus::Seeding);
            lemma_count_le_len(self.peers.entries@, PeerStatus::Leeching);
        }
        match prev {
            Some(PeerStatus::Seeding) => {
                self.num_seeders = self.num_seeders - 1;
            },
            Some(PeerStatus::Leeching) => {
                self.num_leechers = self.num_leechers - 1;
            },
            _ => {},
        }
        match peer.status {
            PeerStatus::Seeding => {
                self.num_seeders = self.num_seeders + 1;
            },
            PeerStatus::Leeching => {
                self.num_leechers = self.num_leechers + 1;
            },
            PeerStatus::Stopped => {},
        }
        prev
    }
}

} // verus!
