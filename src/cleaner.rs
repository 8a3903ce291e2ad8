//! Periodic expiry of cookies and peers, and removal of empty or refused torrents.
use vstd::prelude::*;

use crate::access_list::{access_allows, AccessList};
use crate::config::Config;
use crate::entries::{
    entries_map, keys_unique, lemma_entries_dom, lemma_entries_index, lemma_entries_push,
    lemma_entries_take_next,
};
use crate::peer_map::{
    count_status, lemma_count_push, lemma_count_take_le, lemma_count_take_next,
    TorrentData,
};
use crate::swarm::{ConnectionTable, HandlerData, TorrentMap};
use crate::types::{ConnectionKey, InfoHash, Peer, PeerMapKey, PeerStatus};

verus! {

/// Whether a record stamped `stamp` is still alive at `now` under time-to-live `ttl`.
pub open spec fn alive(stamp: u64, ttl: u64, now: u64) -> bool {
    stamp + ttl > now
}

fn is_alive(stamp: u64, ttl: u64, now: u64) -> (r: bool)
    ensures
        r == alive(stamp, ttl, now),
{
    if now < stamp {
        true
    } else {
        now - stamp < ttl
    }
}

/// The peers of `m` still alive at `now`.
pub open spec fn live_peers(m: Map<PeerMapKey, Peer>, ttl: u64, now: u64) -> Map<PeerMapKey, Peer> {
    Map::new(|k: PeerMapKey| m.contains_key(k) && alive(m[k].last_announce, ttl, now), |k| m[k])
}

/// The cookies of `m` still alive at `now`.
pub open spec fn live_connections(m: Map<ConnectionKey, u64>, ttl: u64, now: u64) -> Map<
    ConnectionKey,
    u64,
> {
    Map::new(|k: ConnectionKey| m.contains_key(k) && alive(m[k], ttl, now), |k| m[k])
}

/// Drops the cookies issued `connection_ttl` or more before `now`.
pub fn clean_connections(table: &mut ConnectionTable, connection_ttl: u64, now: u64)
    requires
        old(table).wf(),
    ensures
        final(table).wf(),
        final(table).map() == live_connections(old(table).map(), connection_ttl, now),
{
    let ghost s = table.entries@;
    let mut kept: Vec<(ConnectionKey, u64)> = Vec::new();
    let mut i: usize = 0;
    while i < table.entries.len()
        invariant
            table.entries@ == s,
            keys_unique(s),
            0 <= i <= s.len(),
            keys_unique(kept@),
            forall|k: ConnectionKey|
                #[trigger] entries_map(kept@).contains_key(k) == (entries_map(
                    s.take(i as int),
                ).contains_key(k) && alive(entries_map(s.take(i as int))[k], connection_ttl, now)),
            forall|k: ConnectionKey|
                #[trigger] entries_map(kept@).contains_key(k) ==> entries_map(kept@)[k]
                    == entries_map(s.take(i as int))[k],
        decreases s.len() - i,
    {
        let e = table.entries[i];
        proof {
            lemma_entries_take_next(s, i as int);
            lemma_entries_dom(s.take(i as int), e.0);
            lemma_entries_dom(kept@, e.0);
        }
        if is_alive(e.1, connection_ttl, now) {
            proof {
                lemma_entries_push(kept@, e);
            }
            kept.push(e);
        }
        i = i + 1;
    }
    proof {
        assert(s.take(s.len() as int) =~= s);
        assert(entries_map(kept@) =~= live_connections(entries_map(s), connection_ttl, now));
    }
    table.entries = kept;
}

/// Drops the peers whose last announce is `peer_ttl` or more before `now`, lowering the
/// counters to match. Returns whether any peer is left.
pub fn clean_torrent_and_peers(now: u64, peer_ttl: u64, torrent: &mut TorrentData) -> (r: bool)
    requires
        old(torrent).wf(),
    ensures
        final(torrent).wf(),
        final(torrent).peers.map() == live_peers(old(torrent).peers.map(), peer_ttl, now),
        forall|i: int|
            0 <= i < final(torrent).peers.entries@.len() ==> alive(
                (#[trigger] final(torrent).peers.entries@[i]).1.last_announce,
                peer_ttl,
                now,
            ),
        r == (final(torrent).peers.entries@.len() > 0),
        r == (final(torrent).peers.map().dom() != Set::<PeerMapKey>::empty()),
{
    let ghost s = torrent.peers.entries@;
    let ghost ns0 = torrent.num_seeders as int;
    let ghost nl0 = torrent.num_leechers as int;
    let mut kept: Vec<(PeerMapKey, Peer)> = Vec::new();
    let mut i: usize = 0;
    while i < torrent.peers.entries.len()
        invariant
            torrent.peers.entries@ == s,
            keys_unique(s),
            ns0 == count_status(s, PeerStatus::Seeding),
            nl0 == count_status(s, PeerStatus::Leeching),
            forall|j: int| 0 <= j < s.len() ==> #[trigger] s[j].1.status != PeerStatus::Stopped,
            0 <= i <= s.len(),
            keys_unique(kept@),
            forall|j: int|
                0 <= j < kept@.len() ==> (#[trigger] kept@[j]).1.status != PeerStatus::Stopped
                    && alive(kept@[j].1.last_announce, peer_ttl, now),
            torrent.num_seeders == ns0 - count_status(s.take(i as int), PeerStatus::Seeding)
                + count_status(kept@, PeerStatus::Seeding),
            torrent.num_leechers == nl0 - count_status(s.take(i as int), PeerStatus::Leeching)
                + count_status(kept@, PeerStatus::Leeching),
            forall|k: PeerMapKey|
                #[trigger] entries_map(kept@).contains_key(k) == (entries_map(
                    s.take(i as int),
                ).contains_key(k) && alive(
                    entries_map(s.take(i as int))[k].last_announce,
                    peer_ttl,
                    now,
                )),
            forall|k: PeerMapKey|
                #[trigger] entries_map(kept@).contains_key(k) ==> entries_map(kept@)[k]
                    == entries_map(s.take(i as int))[k],
        decreases s.len() - i,
    {
        let e = torrent.peers.entries[i];
        proof {
            lemma_entries_take_next(s, i as int);
            lemma_entries_dom(s.take(i as int), e.0);
            lemma_entries_dom(kept@, e.0);
            lemma_count_take_next(s, i as int, PeerStatus::Seeding);
            lemma_count_take_next(s, i as int, PeerStatus::Leeching);
            lemma_count_take_le(s, i + 1, PeerStatus::Seeding);
            lemma_count_take_le(s, i + 1, PeerStatus::Leeching);
            lemma_count_push(kept@, e, PeerStatus::Seeding);
            lemma_count_push(kept@, e, PeerStatus::Leeching);
        }
        if is_alive(e.1.last_announce, peer_ttl, now) {
            proof {
                lemma_entries_push(kept@, e);
            }
            kept.push(e);
        } else {
            match e.1.status {
                PeerStatus::Seeding => {
                    torrent.num_seeders = torrent.num_seeders - 1;
                },
                PeerStatus::Leeching => {
                    torrent.num_leechers = torrent.num_leechers - 1;
                },
                PeerStatus::Stopped => {},
            }
        }
        i = i + 1;
    }
    proof {
        assert(s.take(s.len() as int) =~= s);
        assert(entries_map(kept@) =~= live_peers(entries_map(s), peer_ttl, now));
        if kept@.len() > 0 {
            lemma_entries_index(kept@, 0);
            assert(entries_map(kept@).dom().contains(kept@[0].0));
        } else {
            assert(entries_map(kept@).dom() =~= Set::<PeerMapKey>::empty());
        }
    }
    torrent.peers.entries = kept;
    torrent.peers.entries.len() > 0
}

/// Whether the torrent of `info_hash` in `m` outlives a cleaning pass: it is allowed by
/// the access list and keeps at least one live peer.
pub open spec fn torrent_kept(
    m: Map<InfoHash, TorrentData>,
    info_hash: InfoHash,
    mode: crate::config::AccessListMode,
    list: Seq<InfoHash>,
    peer_ttl: u64,
    now: u64,
) -> bool {
    &&& m.contains_key(info_hash)
    &&& access_allows(mode, list, info_hash)
    &&& live_peers(m[info_hash].peers.map(), peer_ttl, now).dom() != Set::<PeerMapKey>::empty()
}

/// Cleans every torrent of the map and drops those left without peers or refused by the
/// access list.
pub fn clean_torrent_map(
    map: &mut TorrentMap,
    access_list: &AccessList,
    mode: crate::config::AccessListMode,
    peer_ttl: u64,
    now: u64,
)
    requires
        old(map).wf(),
    ensures
        final(map).wf(),
        forall|h: InfoHash|
            #[trigger] final(map).map().contains_key(h) == torrent_kept(
                old(map).map(),
                h,
                mode,
                access_list.info_hashes@,
                peer_ttl,
                now,
            ),
        forall|h: InfoHash|
            #[trigger] final(map).map().contains_key(h) ==> final(map).map()[h].peers.map()
                == live_peers(old(map).map()[h].peers.map(), peer_ttl, now),
{
    let mut entries: Vec<(InfoHash, TorrentData)> = Vec::new();
    core::mem::swap(&mut map.entries, &mut entries);
    let ghost s = entries@;
    let mut kept: Vec<(InfoHash, TorrentData)> = Vec::new();
    let mut i: usize = 0;
    while i < entries.len()
        invariant
            entries@.len() == s.len(),
            keys_unique(s),
            forall|j: int| 0 <= j < s.len() ==> (#[trigger] s[j]).1.wf(),
            forall|j: int| i <= j < s.len() ==> #[trigger] entries@[j] == s[j],
            0 <= i <= s.len(),
            keys_unique(kept@),
            forall|j: int| 0 <= j < kept@.len() ==> (#[trigger] kept@[j]).1.wf(),
            forall|h: InfoHash|
                #[trigger] entries_map(kept@).contains_key(h) == torrent_kept(
                    entries_map(s.take(i as int)),
                    h,
                    mode,
                    access_list.info_hashes@,
                    peer_ttl,
                    now,
                ),
            forall|h: InfoHash|
                #[trigger] entries_map(kept@).contains_key(h) ==> entries_map(kept@)[h].peers.map()
                    == live_peers(entries_map(s.take(i as int))[h].peers.map(), peer_ttl, now),
        decreases s.len() - i,
    {
        let info_hash = entries[i].0;
        let mut torrent = TorrentData::new();
        core::mem::swap(&mut entries[i].1, &mut torrent);
        proof {
            assert(torrent == s[i as int].1);
            lemma_entries_take_next(s, i as int);
            lemma_entries_dom(s.take(i as int), info_hash);
            lemma_entries_dom(kept@, info_hash);
        }
        let allowed = access_list.allows(mode, &info_hash);
        if allowed {
            let ghost before = torrent;
            let any_left = clean_torrent_and_peers(now, peer_ttl, &mut torrent);
            if any_left {
                proof {
                    lemma_entries_push(kept@, (info_hash, torrent));
                }
                kept.push((info_hash, torrent));
            }
        }
        i = i + 1;
    }
    proof {
        assert(s.take(s.len() as int) =~= s);
    }
    map.entries = kept;
}

/// One cleaning pass over a shard: expired cookies go, then each torrent map is cleaned.
pub fn clean_connections_and_torrents(
    config: &Config,
    data: &mut HandlerData,
    access_list: &AccessList,
    now: u64,
)
    requires
        old(data).wf(),
    ensures
        final(data).wf(),
        final(data).connections.map() == live_connections(
            old(data).connections.map(),
            config.connection_ttl,
            now,
        ),
        forall|h: InfoHash|
            #[trigger] final(data).torrents.ipv4.map().contains_key(h) == torrent_kept(
                old(data).torrents.ipv4.map(),
                h,
                config.access_list_mode,
                access_list.info_hashes@,
                config.peer_ttl,
                now,
            ),
        forall|h: InfoHash|
            #[trigger] final(data).torrents.ipv4.map().contains_key(h)
                ==> final(data).torrents.ipv4.map()[h].peers.map() == live_peers(
                old(data).torrents.ipv4.map()[h].peers.map(),
                config.peer_ttl,
                now,
            ),
        forall|h: InfoHash|
            #[trigger] final(data).torrents.ipv6.map().contains_key(h) == torrent_kept(
                old(data).torrents.ipv6.map(),
                h,
                config.access_list_mode,
                access_list.info_hashes@,
                config.peer_ttl,
                now,
            ),
        forall|h: InfoHash|
            #[trigger] final(data).torrents.ipv6.map().contains_key(h)
                ==> final(data).torrents.ipv6.map()[h].peers.map() == live_peers(
                old(data).torrents.ipv6.map()[h].peers.map(),
                config.peer_ttl,
                now,
            ),
{
    clean_connections(&mut data.connections, config.connection_ttl, now);
    clean_torrent_map(
        &mut data.torrents.ipv4,
        access_list,
        config.access_list_mode,
        config.peer_ttl,
        now,
    );
    clean_torrent_map(
        &mut data.torrents.ipv6,
        access_list,
        config.access_list_mode,
        config.peer_ttl,
        now,
    );
}

} // verus!
