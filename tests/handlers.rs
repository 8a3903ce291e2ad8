use std::collections::HashSet;

use quickcheck::{quickcheck, TestResult};
use rand::rngs::{SmallRng, StdRng};
use rand::SeedableRng;

use aquatic_udp::access_list::{parse_info_hash_hex, AccessList};
use aquatic_udp::codec::{decode_request, encode_response};
use aquatic_udp::batch::{
    handle_request_batch, next_collect_action, CollectAction, CollectEvent, RequestBatch,
};
use aquatic_udp::cleaner::{clean_connections_and_torrents, clean_torrent_and_peers};
use aquatic_udp::config::{AccessListMode, Config};
use aquatic_udp::handlers::{
    create_torrent_scrape_statistics, handle_announce_request, handle_connect_request,
    handle_connect_requests, handle_scrape_request,
};
use aquatic_udp::peer_map::{PeerMap, TorrentData};
use aquatic_udp::sampling::{extract_response_peers, extract_response_peers_at};
use aquatic_udp::statistics::peers_per_torrent;
use aquatic_udp::swarm::HandlerData;
use aquatic_udp::types::{
    AnnounceEvent, AnnounceRequest, AnnounceResponse, ConnectRequest, ConnectResponse, ConnectionId, ErrorResponse, InfoHash, IpAddr, Peer, PeerId,
    PeerMapKey, PeerStatus, Request, Response, ResponsePeer, ScrapeRequest, SocketAddr,
    TorrentScrapeStatistics, TransactionId,
};

fn gen_peer_map_key_and_value(i: u32) -> (PeerMapKey, Peer) {
    let ip_address = IpAddr::V4(i);
    let peer_id = PeerId([0; 20]);

    let key = PeerMapKey { ip: ip_address, peer_id };
    let value = Peer { ip_address, port: 1, status: PeerStatus::Leeching, last_announce: 0 };

    (key, value)
}

fn peer_map_of(n: u32) -> PeerMap {
    let mut peer_map = PeerMap::new();
    for i in 0..n {
        peer_map.entries.push(gen_peer_map_key_and_value(i));
    }
    peer_map
}

#[test]
fn test_extract_response_peers() {
    fn prop(data: (u32, u16)) -> TestResult {
        let gen_num_peers = data.0;
        let req_num_peers = data.1 as usize;

        let peer_map = peer_map_of(gen_num_peers);

        let mut rng = SmallRng::from_entropy();

        let peers = extract_response_peers(&mut rng, &peer_map, req_num_peers);

        // Check that number of returned peers is correct

        let mut success = peers.len() <= req_num_peers;

        if req_num_peers >= gen_num_peers as usize {
            success &= peers.len() == gen_num_peers as usize;
        }

        // Check that returned peers are unique (no overlap)

        let mut ip_addresses = HashSet::new();

        for peer in peers {
            if ip_addresses.contains(&peer.ip_address) {
                success = false;

                break;
            }

            ip_addresses.insert(peer.ip_address);
        }

        TestResult::from_bool(success)
    }

    quickcheck(prop as fn((u32, u16)) -> TestResult);
}

fn config() -> Config {
    Config {
        max_requests_per_iter: 10000,
        channel_recv_timeout_ms: 200,
        max_response_peers: 50,
        peer_announce_interval: 120,
        connection_ttl: 300,
        peer_ttl: 1200,
        cleaning_interval: 30,
        statistics_interval: 5,
        access_list_mode: AccessListMode::Ignore,
    }
}

fn v4(a: u8, b: u8, c: u8, d: u8, port: u16) -> SocketAddr {
    SocketAddr { ip: IpAddr::V4(u32::from_be_bytes([a, b, c, d])), port }
}

fn announce(
    connection_id: ConnectionId,
    info_hash: InfoHash,
    peer_id: PeerId,
    event: AnnounceEvent,
    bytes_left: u64,
    peers_wanted: i32,
) -> AnnounceRequest {
    AnnounceRequest {
        connection_id,
        transaction_id: TransactionId(7),
        info_hash,
        peer_id,
        bytes_left,
        event,
        port: 6881,
        peers_wanted,
    }
}

fn connect(data: &mut HandlerData, src: SocketAddr, id: u64) -> ConnectionId {
    let request = ConnectRequest { transaction_id: TransactionId(1) };
    handle_connect_request(data, &request, src, ConnectionId(id), 0);
    ConnectionId(id)
}

fn announce_counts(r: &Response) -> (i32, i32, Vec<ResponsePeer>) {
    match r {
        Response::Announce(a) => (a.leechers, a.seeders, a.peers.clone()),
        other => panic!("expected an announce response, got {:?}", other),
    }
}

#[test]
fn connect_records_cookie_for_source() {
    let mut data = HandlerData::new();
    let src = v4(10, 0, 0, 1, 6881);
    let request = ConnectRequest { transaction_id: TransactionId(42) };
    let (response, dst) = handle_connect_request(&mut data, &request, src, ConnectionId(99), 5);
    assert_eq!(dst, src);
    match response {
        Response::Connect(c) => {
            assert_eq!(c.transaction_id, TransactionId(42));
            assert_eq!(c.connection_id, ConnectionId(99));
        }
        other => panic!("unexpected {:?}", other),
    }
    assert_eq!(data.connections.entries.len(), 1);
    assert_eq!(data.connections.entries[0].0.connection_id, ConnectionId(99));
    assert_eq!(data.connections.entries[0].0.socket_addr, src);
    assert_eq!(data.connections.entries[0].1, 5);
}

#[test]
fn connect_batch_draws_fresh_cookies() {
    let mut data = HandlerData::new();
    let mut rng = StdRng::seed_from_u64(1);
    let src = v4(10, 0, 0, 1, 6881);
    let mut requests = vec![
        (ConnectRequest { transaction_id: TransactionId(42) }, src),
        (ConnectRequest { transaction_id: TransactionId(43) }, src),
    ];
    let mut responses = Vec::new();
    handle_connect_requests(&mut data, &mut rng, 0, &mut requests, &mut responses);
    assert!(requests.is_empty());
    assert_eq!(responses.len(), 2);
    let ids: Vec<ConnectionId> = responses
        .iter()
        .map(|(r, _)| match r {
            Response::Connect(c) => c.connection_id,
            other => panic!("unexpected {:?}", other),
        })
        .collect();
    assert_ne!(ids[0], ids[1]);
    assert_eq!(data.connections.entries.len(), 2);
}

#[test]
fn swarm_scenario() {
    let config = config();
    let mut data = HandlerData::new();
    let mut rng = SmallRng::seed_from_u64(3);
    let a = v4(10, 0, 0, 1, 6881);
    let b = v4(10, 0, 0, 2, 6881);
    let h = InfoHash([1; 20]);
    let h2 = InfoHash([2; 20]);
    let c = connect(&mut data, a, 11);
    let c2 = connect(&mut data, b, 22);

    let req = announce(c, h, PeerId([5; 20]), AnnounceEvent::Started, 100, 50);
    let (r, _) = handle_announce_request(&mut data, &config, &mut rng, &req, a, 1);
    let (leechers, seeders, peers) = announce_counts(&r);
    assert_eq!((leechers, seeders), (1, 0));
    assert!(peers.is_empty());

    let req = announce(c2, h, PeerId([6; 20]), AnnounceEvent::Started, 0, 50);
    let (r, _) = handle_announce_request(&mut data, &config, &mut rng, &req, b, 2);
    let (leechers, seeders, peers) = announce_counts(&r);
    assert_eq!((leechers, seeders), (1, 1));
    assert_eq!(peers, vec![ResponsePeer { ip_address: a.ip, port: 6881 }]);

    let req = announce(c, h, PeerId([5; 20]), AnnounceEvent::Stopped, 100, 50);
    let (r, _) = handle_announce_request(&mut data, &config, &mut rng, &req, a, 3);
    let (leechers, seeders, peers) = announce_counts(&r);
    assert_eq!((leechers, seeders), (0, 1));
    assert_eq!(peers, vec![ResponsePeer { ip_address: b.ip, port: 6881 }]);
    assert_eq!(data.torrents.ipv4.entries[0].1.peers.entries.len(), 1);

    let scrape = ScrapeRequest { connection_id: c2, transaction_id: TransactionId(9), info_hashes: vec![h, h2] };
    let (r, _) = handle_scrape_request(&data, &scrape, b);
    match r {
        Response::Scrape(s) => {
            assert_eq!(s.transaction_id, TransactionId(9));
            assert_eq!(
                s.torrent_stats,
                vec![
                    TorrentScrapeStatistics { seeders: 1, completed: 0, leechers: 0 },
                    TorrentScrapeStatistics { seeders: 0, completed: 0, leechers: 0 },
                ]
            );
        }
        other => panic!("unexpected {:?}", other),
    }
}

#[test]
fn announce_with_unknown_cookie_is_refused() {
    let config = config();
    let mut data = HandlerData::new();
    let mut rng = SmallRng::seed_from_u64(3);
    let a = v4(10, 0, 0, 1, 6881);
    connect(&mut data, a, 11);
    let req = announce(ConnectionId(12345), InfoHash([1; 20]), PeerId([5; 20]), AnnounceEvent::Started, 100, 50);
    let (r, dst) = handle_announce_request(&mut data, &config, &mut rng, &req, a, 1);
    assert_eq!(dst, a);
    match r {
        Response::Error(e) => {
            assert_eq!(e.message, "Connection invalid or expired");
            assert_eq!(e.transaction_id, TransactionId(7));
        }
        other => panic!("unexpected {:?}", other),
    }
    assert!(data.torrents.ipv4.entries.is_empty());
    assert!(data.torrents.ipv6.entries.is_empty());
}

#[test]
fn cookie_from_another_address_is_refused() {
    let config = config();
    let mut data = HandlerData::new();
    let mut rng = SmallRng::seed_from_u64(3);
    let c = connect(&mut data, v4(10, 0, 0, 1, 6881), 11);
    let req = announce(c, InfoHash([1; 20]), PeerId([5; 20]), AnnounceEvent::Started, 100, 50);
    let (r, _) = handle_announce_request(&mut data, &config, &mut rng, &req, v4(10, 0, 0, 1, 6882), 1);
    assert!(matches!(r, Response::Error(_)));
    let scrape = ScrapeRequest { connection_id: c, transaction_id: TransactionId(9), info_hashes: vec![] };
    let (r, _) = handle_scrape_request(&data, &scrape, v4(10, 0, 0, 9, 6881));
    assert!(matches!(r, Response::Error(_)));
}

#[test]
fn repeated_announce_keeps_counts() {
    let config = config();
    let mut data = HandlerData::new();
    let mut rng = SmallRng::seed_from_u64(3);
    let a = v4(10, 0, 0, 1, 6881);
    let c = connect(&mut data, a, 11);
    let req = announce(c, InfoHash([1; 20]), PeerId([5; 20]), AnnounceEvent::Unspecified, 10, 50);
    let (r1, _) = handle_announce_request(&mut data, &config, &mut rng, &req, a, 1);
    let (r2, _) = handle_announce_request(&mut data, &config, &mut rng, &req, a, 2);
    assert_eq!(announce_counts(&r1).0, 1);
    assert_eq!(announce_counts(&r2).0, 1);
    assert_eq!(announce_counts(&r2).1, 0);
}

#[test]
fn leeching_then_seeding_moves_one_peer() {
    let config = config();
    let mut data = HandlerData::new();
    let mut rng = SmallRng::seed_from_u64(3);
    let a = v4(10, 0, 0, 1, 6881);
    let c = connect(&mut data, a, 11);
    let h = InfoHash([1; 20]);
    let req = announce(c, h, PeerId([5; 20]), AnnounceEvent::Started, 10, 50);
    let (r1, _) = handle_announce_request(&mut data, &config, &mut rng, &req, a, 1);
    assert_eq!((announce_counts(&r1).0, announce_counts(&r1).1), (1, 0));
    let req = announce(c, h, PeerId([5; 20]), AnnounceEvent::Completed, 10, 50);
    let (r2, _) = handle_announce_request(&mut data, &config, &mut rng, &req, a, 2);
    assert_eq!((announce_counts(&r2).0, announce_counts(&r2).1), (0, 1));
}

#[test]
fn leeching_then_stopped_removes_peer() {
    let config = config();
    let mut data = HandlerData::new();
    let mut rng = SmallRng::seed_from_u64(3);
    let a = v4(10, 0, 0, 1, 6881);
    let c = connect(&mut data, a, 11);
    let h = InfoHash([1; 20]);
    let req = announce(c, h, PeerId([5; 20]), AnnounceEvent::Started, 10, 50);
    handle_announce_request(&mut data, &config, &mut rng, &req, a, 1);
    let req = announce(c, h, PeerId([5; 20]), AnnounceEvent::Stopped, 10, 50);
    let (r, _) = handle_announce_request(&mut data, &config, &mut rng, &req, a, 2);
    assert_eq!((announce_counts(&r).0, announce_counts(&r).1), (0, 0));
    assert!(data.torrents.ipv4.entries[0].1.peers.entries.is_empty());
}

#[test]
fn same_ip_other_peer_id_is_new_peer() {
    let config = config();
    let mut data = HandlerData::new();
    let mut rng = SmallRng::seed_from_u64(3);
    let a = v4(10, 0, 0, 1, 6881);
    let c = connect(&mut data, a, 11);
    let h = InfoHash([1; 20]);
    handle_announce_request(&mut data, &config, &mut rng, &announce(c, h, PeerId([5; 20]), AnnounceEvent::Started, 10, 50), a, 1);
    let (r, _) = handle_announce_request(&mut data, &config, &mut rng, &announce(c, h, PeerId([6; 20]), AnnounceEvent::Started, 10, 50), a, 1);
    assert_eq!(announce_counts(&r).0, 2);
}

#[test]
fn non_positive_peers_wanted_gives_no_peers() {
    let config = config();
    let mut data = HandlerData::new();
    let mut rng = SmallRng::seed_from_u64(3);
    let a = v4(10, 0, 0, 1, 6881);
    let c = connect(&mut data, a, 11);
    let h = InfoHash([1; 20]);
    for (i, wanted) in [0, -1, -50].iter().enumerate() {
        let req = announce(c, h, PeerId([i as u8; 20]), AnnounceEvent::Started, 10, *wanted);
        let (r, _) = handle_announce_request(&mut data, &config, &mut rng, &req, a, 1);
        assert!(announce_counts(&r).2.is_empty());
    }
}

#[test]
fn peers_wanted_is_capped() {
    let mut config = config();
    config.max_response_peers = 3;
    let mut data = HandlerData::new();
    let mut rng = SmallRng::seed_from_u64(3);
    let h = InfoHash([1; 20]);
    let mut last = None;
    for i in 0..10u8 {
        let src = v4(10, 0, 0, i, 6881);
        let c = connect(&mut data, src, i as u64);
        let req = announce(c, h, PeerId([i; 20]), AnnounceEvent::Started, 10, 200);
        last = Some(handle_announce_request(&mut data, &config, &mut rng, &req, src, 1).0);
    }
    let peers = announce_counts(&last.unwrap()).2;
    assert!(peers.len() == 3 || peers.len() == 2);
    assert!(!peers.contains(&ResponsePeer { ip_address: v4(10, 0, 0, 9, 6881).ip, port: 6881 }));
}

#[test]
fn ipv4_and_ipv6_swarms_are_separate() {
    let config = config();
    let mut data = HandlerData::new();
    let mut rng = SmallRng::seed_from_u64(3);
    let h = InfoHash([1; 20]);
    let a = v4(10, 0, 0, 1, 6881);
    let b = SocketAddr { ip: IpAddr::V6(1), port: 6881 };
    let ca = connect(&mut data, a, 1);
    let cb = connect(&mut data, b, 2);
    handle_announce_request(&mut data, &config, &mut rng, &announce(ca, h, PeerId([1; 20]), AnnounceEvent::Started, 10, 50), a, 1);
    assert_eq!(data.torrents.ipv4.entries.len(), 1);
    assert!(data.torrents.ipv6.entries.is_empty());
    let (r, _) = handle_announce_request(&mut data, &config, &mut rng, &announce(cb, h, PeerId([2; 20]), AnnounceEvent::Started, 10, 50), b, 1);
    assert_eq!(data.torrents.ipv6.entries.len(), 1);
    assert_eq!(data.torrents.ipv4.entries[0].1.peers.entries.len(), 1);
    assert!(announce_counts(&r).2.is_empty());
}

#[test]
fn sampling_windows_are_exact() {
    let peer_map = peer_map_of(10);
    // first window: 2 peers from offset 1; second window: 3 peers from offset 6
    let peers = extract_response_peers_at(&peer_map, 5, 1, 6);
    let ips: Vec<IpAddr> = peers.iter().map(|p| p.ip_address).collect();
    assert_eq!(ips, vec![IpAddr::V4(1), IpAddr::V4(2), IpAddr::V4(6), IpAddr::V4(7), IpAddr::V4(8)]);
    let all = extract_response_peers_at(&peer_map, 10, 0, 0);
    assert_eq!(all.len(), 10);
    assert_eq!(all[9].ip_address, IpAddr::V4(9));
}

#[test]
fn sampling_at_and_just_above_size() {
    let mut rng = SmallRng::seed_from_u64(5);
    for k in 0..20usize {
        let exact = peer_map_of(k as u32);
        assert_eq!(extract_response_peers(&mut rng, &exact, k).len(), k);
        let one_more = peer_map_of(k as u32 + 1);
        let peers = extract_response_peers(&mut rng, &one_more, k);
        assert_eq!(peers.len(), k);
        let distinct: HashSet<IpAddr> = peers.iter().map(|p| p.ip_address).collect();
        assert_eq!(distinct.len(), k);
    }
}

#[test]
fn sampling_offsets_vary() {
    let mut rng = SmallRng::seed_from_u64(5);
    let peer_map = peer_map_of(100);
    let mut firsts = HashSet::new();
    for _ in 0..50 {
        let peers = extract_response_peers(&mut rng, &peer_map, 4);
        assert_eq!(peers.len(), 4);
        firsts.insert(peers[0].ip_address);
    }
    assert!(firsts.len() > 1);
}

#[test]
fn scrape_statistics_have_zero_completed() {
    assert_eq!(
        create_torrent_scrape_statistics(3, 4),
        TorrentScrapeStatistics { seeders: 3, completed: 0, leechers: 4 }
    );
}

#[test]
fn cleaner_drops_expired_peers_and_counts() {
    let mut torrent = TorrentData::new();
    let a = PeerMapKey { ip: IpAddr::V4(1), peer_id: PeerId([1; 20]) };
    let b = PeerMapKey { ip: IpAddr::V4(2), peer_id: PeerId([2; 20]) };
    torrent.update_peer(a, Peer { ip_address: IpAddr::V4(1), port: 1, status: PeerStatus::Seeding, last_announce: 0 });
    torrent.update_peer(b, Peer { ip_address: IpAddr::V4(2), port: 1, status: PeerStatus::Leeching, last_announce: 50 });
    assert_eq!((torrent.num_seeders, torrent.num_leechers), (1, 1));
    assert!(clean_torrent_and_peers(100, 100, &mut torrent));
    assert_eq!((torrent.num_seeders, torrent.num_leechers), (0, 1));
    assert_eq!(torrent.peers.entries.len(), 1);
    assert!(!clean_torrent_and_peers(150, 100, &mut torrent));
    assert_eq!((torrent.num_seeders, torrent.num_leechers), (0, 0));
}

#[test]
fn cleaner_expires_cookies_and_applies_access_list() {
    let mut config = config();
    let mut rng = SmallRng::seed_from_u64(3);
    let mut data = HandlerData::new();
    let a = v4(10, 0, 0, 1, 6881);
    let h1 = InfoHash([1; 20]);
    let h2 = InfoHash([2; 20]);
    let c = connect(&mut data, a, 11);
    handle_announce_request(&mut data, &config, &mut rng, &announce(c, h1, PeerId([1; 20]), AnnounceEvent::Started, 10, 50), a, 0);
    handle_announce_request(&mut data, &config, &mut rng, &announce(c, h2, PeerId([1; 20]), AnnounceEvent::Started, 10, 50), a, 0);
    let mut list = AccessList::new();
    list.info_hashes.push(h1);

    config.access_list_mode = AccessListMode::Deny;
    let mut deny_data = HandlerData::new();
    let c2 = connect(&mut deny_data, a, 12);
    handle_announce_request(&mut deny_data, &config, &mut rng, &announce(c2, h1, PeerId([1; 20]), AnnounceEvent::Started, 10, 50), a, 0);
    handle_announce_request(&mut deny_data, &config, &mut rng, &announce(c2, h2, PeerId([1; 20]), AnnounceEvent::Started, 10, 50), a, 0);
    clean_connections_and_torrents(&config, &mut deny_data, &list, 10);
    assert_eq!(deny_data.torrents.ipv4.entries.len(), 1);
    assert!(!deny_data.torrents.ipv4.entries[0].0.same(&h1));

    config.access_list_mode = AccessListMode::Allow;
    clean_connections_and_torrents(&config, &mut data, &list, 299);
    assert_eq!(data.connections.entries.len(), 1);
    assert_eq!(data.torrents.ipv4.entries.len(), 1);
    assert!(data.torrents.ipv4.entries[0].0.same(&h1));

    clean_connections_and_torrents(&config, &mut data, &list, 300);
    assert!(data.connections.entries.is_empty());
    assert_eq!(data.torrents.ipv4.entries.len(), 1);

    clean_connections_and_torrents(&config, &mut data, &list, 1200);
    assert!(data.torrents.ipv4.entries.is_empty());
}

#[test]
fn batch_handles_connect_before_announce() {
    let config = config();
    let mut data = HandlerData::new();
    let mut std_rng = StdRng::seed_from_u64(1);
    let mut small_rng = SmallRng::seed_from_u64(2);
    let a = v4(10, 0, 0, 1, 6881);
    let known = connect(&mut data, a, 77);
    let mut batch = RequestBatch::new();
    batch.push(Request::Announce(announce(known, InfoHash([1; 20]), PeerId([1; 20]), AnnounceEvent::Started, 10, 50)), a);
    batch.push(Request::Connect(ConnectRequest { transaction_id: TransactionId(42) }), a);
    batch.push(Request::Scrape(ScrapeRequest { connection_id: known, transaction_id: TransactionId(8), info_hashes: vec![InfoHash([1; 20])] }), a);
    let mut responses = Vec::new();
    handle_request_batch(&mut data, &config, &mut std_rng, &mut small_rng, 0, &mut batch, &mut responses);
    assert_eq!(responses.len(), 3);
    assert!(matches!(responses[0].0, Response::Connect(_)));
    assert!(matches!(responses[1].0, Response::Announce(_)));
    match &responses[2].0 {
        Response::Scrape(s) => assert_eq!(s.torrent_stats[0].leechers, 1),
        other => panic!("unexpected {:?}", other),
    }
    assert!(batch.connect_requests.is_empty() && batch.announce_requests.is_empty() && batch.scrape_requests.is_empty());
}

#[test]
fn peers_per_torrent_sums_counts() {
    let config = config();
    let mut data = HandlerData::new();
    let mut rng = SmallRng::seed_from_u64(3);
    let a = v4(10, 0, 0, 1, 6881);
    let b = v4(10, 0, 0, 2, 6881);
    let ca = connect(&mut data, a, 1);
    let cb = connect(&mut data, b, 2);
    let h = InfoHash([1; 20]);
    handle_announce_request(&mut data, &config, &mut rng, &announce(ca, h, PeerId([1; 20]), AnnounceEvent::Started, 10, 50), a, 0);
    handle_announce_request(&mut data, &config, &mut rng, &announce(cb, h, PeerId([2; 20]), AnnounceEvent::Started, 0, 50), b, 0);
    assert_eq!(peers_per_torrent(&data), vec![2]);
}

#[test]
fn codec_reads_connect_and_writes_response() {
    let mut bytes = 0x41727101980u64.to_be_bytes().to_vec();
    bytes.extend_from_slice(&0u32.to_be_bytes());
    bytes.extend_from_slice(&42i32.to_be_bytes());
    match decode_request(&bytes) {
        Some(Request::Connect(c)) => assert_eq!(c.transaction_id, TransactionId(42)),
        other => panic!("unexpected {:?}", other),
    }
    bytes[0] = 1;
    assert!(decode_request(&bytes).is_none());

    let mut out = Vec::new();
    encode_response(&Response::Connect(ConnectResponse { connection_id: ConnectionId(0x0102030405060708), transaction_id: TransactionId(42) }), &mut out);
    assert_eq!(out, vec![0, 0, 0, 0, 0, 0, 0, 42, 1, 2, 3, 4, 5, 6, 7, 8]);
}

#[test]
fn codec_reads_announce_and_scrape() {
    let mut bytes = 77u64.to_be_bytes().to_vec();
    bytes.extend_from_slice(&1u32.to_be_bytes());
    bytes.extend_from_slice(&5i32.to_be_bytes());
    bytes.extend_from_slice(&[9; 20]);
    bytes.extend_from_slice(&[8; 20]);
    bytes.extend_from_slice(&0u64.to_be_bytes());
    bytes.extend_from_slice(&100u64.to_be_bytes());
    bytes.extend_from_slice(&0u64.to_be_bytes());
    bytes.extend_from_slice(&2u32.to_be_bytes());
    bytes.extend_from_slice(&0u32.to_be_bytes());
    bytes.extend_from_slice(&0u32.to_be_bytes());
    bytes.extend_from_slice(&(-1i32).to_be_bytes());
    bytes.extend_from_slice(&6881u16.to_be_bytes());
    assert_eq!(bytes.len(), 98);
    match decode_request(&bytes) {
        Some(Request::Announce(a)) => {
            assert_eq!(a.connection_id, ConnectionId(77));
            assert_eq!(a.transaction_id, TransactionId(5));
            assert_eq!(a.info_hash.0, [9; 20]);
            assert_eq!(a.peer_id.0, [8; 20]);
            assert_eq!(a.bytes_left, 100);
            assert_eq!(a.event, AnnounceEvent::Started);
            assert_eq!(a.peers_wanted, -1);
            assert_eq!(a.port, 6881);
        }
        other => panic!("unexpected {:?}", other),
    }
    assert!(decode_request(&bytes[..97].to_vec()).is_none());

    let mut scrape = 77u64.to_be_bytes().to_vec();
    scrape.extend_from_slice(&2u32.to_be_bytes());
    scrape.extend_from_slice(&6i32.to_be_bytes());
    scrape.extend_from_slice(&[1; 20]);
    scrape.extend_from_slice(&[2; 20]);
    match decode_request(&scrape) {
        Some(Request::Scrape(s)) => {
            assert_eq!(s.info_hashes.len(), 2);
            assert_eq!(s.info_hashes[1].0, [2; 20]);
        }
        other => panic!("unexpected {:?}", other),
    }
    scrape.push(0);
    assert!(decode_request(&scrape).is_none());
}

#[test]
fn codec_writes_announce_and_error() {
    let mut out = Vec::new();
    let response = Response::Announce(AnnounceResponse {
        transaction_id: TransactionId(1),
        announce_interval: 900,
        leechers: 2,
        seeders: 3,
        peers: vec![ResponsePeer { ip_address: IpAddr::V4(0x0A000001), port: 6881 }],
    });
    encode_response(&response, &mut out);
    assert_eq!(
        out,
        vec![0, 0, 0, 1, 0, 0, 0, 1, 0, 0, 3, 132, 0, 0, 0, 2, 0, 0, 0, 3, 10, 0, 0, 1, 0x1a, 0xe1]
    );
    let mut out = Vec::new();
    encode_response(&Response::Error(ErrorResponse { transaction_id: TransactionId(-1), message: "no".to_string() }), &mut out);
    assert_eq!(out, vec![0, 0, 0, 3, 255, 255, 255, 255, b'n', b'o']);
}

#[test]
fn hex_info_hash_lines() {
    let line = b"0102030405060708090a0B0c0d0e0f1011121314".to_vec();
    let h = parse_info_hash_hex(&line).unwrap();
    assert_eq!(h.0, [1, 2, 3, 4, 5, 6, 7, 8, 9, 10, 11, 12, 13, 14, 15, 16, 17, 18, 19, 20]);
    assert!(parse_info_hash_hex(&b"0102".to_vec()).is_none());
    assert!(parse_info_hash_hex(&b"g102030405060708090a0b0c0d0e0f1011121314".to_vec()).is_none());
}

#[test]
fn collecting_stops_on_free_shard_or_full_batch() {
    assert_eq!(next_collect_action(0, 3, CollectEvent::Received), CollectAction::Continue);
    assert_eq!(next_collect_action(2, 3, CollectEvent::Received), CollectAction::Process);
    assert_eq!(next_collect_action(1, 3, CollectEvent::TimedOut { shard_free: true }), CollectAction::Process);
    assert_eq!(next_collect_action(1, 3, CollectEvent::TimedOut { shard_free: false }), CollectAction::Continue);
    assert_eq!(next_collect_action(0, 3, CollectEvent::Closed), CollectAction::Shutdown);
    assert_eq!(next_collect_action(0, 0, CollectEvent::Received), CollectAction::Process);
}
