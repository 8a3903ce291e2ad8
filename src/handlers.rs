//! Turning connect, announce and scrape requests into responses.
use vstd::prelude::*;

use crate::config::Config;
use crate::peer_map::{count_after_in, peer_status_from_event, peers_after_in, status_of};
use crate::random::gen_u64;
use crate::sampling::{exclude_peer, offsets_valid, sample_of, without_peer};
use crate::swarm::{HandlerData, TorrentMap};
use crate::types::{
    AnnounceRequest, AnnounceResponse, ConnectRequest, ConnectResponse, ConnectionId,
    ConnectionKey, ErrorResponse, IpAddr, Peer, PeerMapKey, PeerStatus, Response, ResponsePeer,
    ScrapeRequest,
    ScrapeResponse, SocketAddr, TorrentScrapeStatistics, TransactionId,
};

verus! {

pub open spec fn connection_error_message() -> Seq<char> {
    "Connection invalid or expired"@
}

/// The error sent for a request whose cookie is not held for its source.
pub open spec fn is_connection_error(r: Response, transaction_id: TransactionId) -> bool {
    match r {
        Response::Error(e) => e.transaction_id == transaction_id && e.message@
            == connection_error_message(),
        _ => false,
    }
}

/// Number of peers to sample: `peers_wanted`, at least zero, at most `max_response_peers`.
pub open spec fn peers_to_take(peers_wanted: i32, max_response_peers: usize) -> int {
    if peers_wanted <= 0 {
        0
    } else if peers_wanted as int > max_response_peers as int {
        max_response_peers as int
    } else {
        peers_wanted as int
    }
}

/// The peer record that an announce from `src` at time `now` stores.
pub open spec fn announced_peer(request: AnnounceRequest, src: SocketAddr, now: u64) -> Peer {
    Peer {
        ip_address: src.ip,
        port: request.port,
        status: status_of(request.event, request.bytes_left),
        last_announce: now,
    }
}

pub open spec fn announce_key(request: AnnounceRequest, src: SocketAddr) -> PeerMapKey {
    PeerMapKey { ip: src.ip, peer_id: request.peer_id }
}

fn connection_error(transaction_id: TransactionId) -> (r: Response)
    ensures
        is_connection_error(r, transaction_id),
{
    Response::Error(
        ErrorResponse {
            transaction_id,
            message: "Connection invalid or expired".to_owned(),
        },
    )
}

/// Handles one connect request with the cookie `connection_id`: the cookie is recorded
/// for `src` as issued at `now`.
pub fn handle_connect_request(
    data: &mut HandlerData,
    request: &ConnectRequest,
    src: SocketAddr,
    connection_id: ConnectionId,
    now: u64,
) -> (r: (Response, SocketAddr))
    requires
        old(data).wf(),
    ensures
        final(data).wf(),
        final(data).connections.map() == old(data).connections.map().insert(
            (ConnectionKey { connection_id, socket_addr: src }),
            now,
        ),
        final(data).torrents == old(data).torrents,
        r.1 == src,
        r.0 == Response::Connect(
            (ConnectResponse { connection_id, transaction_id: request.transaction_id }),
        ),
{
    let key = ConnectionKey { connection_id, socket_addr: src };
    data.connections.insert(key, now);
    (Response::Connect(ConnectResponse { connection_id, transaction_id: request.transaction_id }), src)
}

/// The cookie that a connect response hands to its destination.
pub open spec fn issued_key(r: (Response, SocketAddr)) -> ConnectionKey {
    ConnectionKey { connection_id: r.0->Connect_0.connection_id, socket_addr: r.1 }
}

/// The cookie table `m` after recording, in order, the cookies of the connect responses
/// `resps`, each as issued at `now`.
pub open spec fn with_issued(m: Map<ConnectionKey, u64>, resps: Seq<(Response, SocketAddr)>, now: u64) -> Map<
    ConnectionKey,
    u64,
>
    decreases resps.len(),
{
    if resps.len() == 0 {
        m
    } else {
        with_issued(m, resps.drop_last(), now).insert(issued_key(resps.last()), now)
    }
}

/// Handles the connect requests in order, each with a fresh random cookie, and appends one
/// response per request. `requests` is left empty.
pub fn handle_connect_requests(
    data: &mut HandlerData,
    rng: &mut rand::rngs::StdRng,
    now: u64,
    requests: &mut Vec<(ConnectRequest, SocketAddr)>,
    responses: &mut Vec<(Response, SocketAddr)>,
)
    requires
        old(data).wf(),
    ensures
        final(data).wf(),
        final(data).torrents == old(data).torrents,
        final(requests)@.len() == 0,
        final(responses)@.len() == old(responses)@.len() + old(requests)@.len(),
        final(responses)@.take(old(responses)@.len() as int) == old(responses)@,
        final(data).connections.map() == with_issued(
            old(data).connections.map(),
            final(responses)@.skip(old(responses)@.len() as int),
            now,
        ),
        forall|k: ConnectionKey|
            old(data).connections.map().contains_key(k)
                ==> final(data).connections.map().contains_key(k),
        forall|k: int|
            old(responses)@.len() <= k < final(responses)@.len() ==> {
                let (req, src) = old(requests)@[k - old(responses)@.len()];
                let (resp, dst) = #[trigger] final(responses)@[k];
                &&& dst == src
                &&& resp is Connect
                &&& resp->Connect_0.transaction_id == req.transaction_id
                &&& final(data).connections.map().contains_key(
                    (ConnectionKey { connection_id: resp->Connect_0.connection_id, socket_addr: src }),
                )
                &&& final(data).connections.map()[(ConnectionKey {
                    connection_id: resp->Connect_0.connection_id,
                    socket_addr: src,
                })] == now
            },
{
    let ghost reqs = requests@;
    let ghost base = responses@.len();
    let mut i: usize = 0;
    while i < requests.len()
        invariant
            data.wf(),
            data.torrents == old(data).torrents,
            requests@ == reqs,
            0 <= i <= reqs.len(),
            responses@.len() == base + i,
            responses@.take(base as int) == old(responses)@,
            data.connections.map() == with_issued(
                old(data).connections.map(),
                responses@.skip(base as int),
                now,
            ),
            forall|k: ConnectionKey|
                old(data).connections.map().contains_key(k) ==> data.connections.map().contains_key(
                    k,
                ),
            forall|j: int|
                0 <= j < i ==> {
                    let (req, src) = reqs[j];
                    let (resp, dst) = #[trigger] responses@[base + j];
                    &&& dst == src
                    &&& resp is Connect
                    &&& resp->Connect_0.transaction_id == req.transaction_id
                    &&& data.connections.map().contains_key(
                        (ConnectionKey {
                            connection_id: resp->Connect_0.connection_id,
                            socket_addr: src,
                        }),
                    )
                    &&& data.connections.map()[(ConnectionKey {
                        connection_id: resp->Connect_0.connection_id,
                        socket_addr: src,
                    })] == now
                },
        decreases reqs.len() - i,
    {
        let (request, src) = requests[i];
        let connection_id = ConnectionId(gen_u64(rng));
        let ghost prev_resps = responses@.skip(base as int);
        let r = handle_connect_request(data, &request, src, connection_id, now);
        responses.push(r);
        assert(responses@.take(base as int) =~= old(responses)@);
        assert(responses@.skip(base as int).drop_last() =~= prev_resps);
        i = i + 1;
    }
    assert forall|k: int| base <= k < responses@.len() implies #[trigger] responses@[k]
        == responses@[base + (k - base)] by {}
    requests.clear();
}

/// What handling one announce from `src` at `now` does: `before` is the shard before,
/// `after_data` after, `r` the response. Where the cookie is not held for `src`, nothing
/// changes and the response is the connection error. Otherwise the peer is recorded in the
/// swarm of its address family (the other family's map is untouched) and the response
/// carries the swarm's counts after the change and a sample of `peers_to_take` of its
/// peers, less the requester's own endpoint.
pub open spec fn announce_step(
    before: HandlerData,
    after_data: HandlerData,
    config: Config,
    request: AnnounceRequest,
    src: SocketAddr,
    now: u64,
    r: (Response, SocketAddr),
) -> bool {
    &&& after_data.wf()
    &&& r.1 == src
    &&& after_data.connections == before.connections
    &&& !before.connections.map().contains_key(
        ConnectionKey { connection_id: request.connection_id, socket_addr: src },
    ) ==> after_data == before && is_connection_error(r.0, request.transaction_id)
    &&& before.connections.map().contains_key(
        ConnectionKey { connection_id: request.connection_id, socket_addr: src },
    ) ==> {
            let h = request.info_hash;
            let key = announce_key(request, src);
            let peer = announced_peer(request, src, now);
            let fam_before = before.torrents.family(src);
            let fam_after = after_data.torrents.family(src);
            let t = fam_after.map()[h];
            let k = peers_to_take(request.peers_wanted, config.max_response_peers);
            &&& after_data.torrents.other_family(src) == before.torrents.other_family(src)
            &&& fam_after.map() == fam_before.map().insert(h, t)
            &&& t.peers.map() == peers_after_in(fam_before.peers_of(h), key, peer)
            &&& t.num_seeders == count_after_in(
                fam_before.seeders_of(h),
                fam_before.peers_of(h),
                key,
                peer,
                PeerStatus::Seeding,
            )
            &&& t.num_leechers == count_after_in(
                fam_before.leechers_of(h),
                fam_before.peers_of(h),
                key,
                peer,
                PeerStatus::Leeching,
            )
            &&& r.0 is Announce
            &&& r.0->Announce_0.transaction_id == request.transaction_id
            &&& r.0->Announce_0.announce_interval == config.peer_announce_interval
            &&& r.0->Announce_0.leechers == #[verifier::truncate] (t.num_leechers as i32)
            &&& r.0->Announce_0.seeders == #[verifier::truncate] (t.num_seeders as i32)
            &&& exists|o1: int, o2: int|
                (t.peers.entries@.len() > k ==> offsets_valid(
                    t.peers.entries@.len() as int,
                    k,
                    o1,
                    o2,
                )) && r.0->Announce_0.peers@ == without_peer(
                    #[trigger] sample_of(t.peers.entries@, k, o1, o2),
                    ResponsePeer { ip_address: src.ip, port: request.port },
                )
        }
}

/// Handles one announce request from `src` at time `now`.
///
/// Where the cookie is not held for `src`, nothing changes and the response is the
/// connection error. Otherwise the peer is recorded in the swarm of its address family
/// (the other family's map is untouched) and the response carries the swarm's counts after
/// the change and a sample of `peers_to_take` of its peers, less the requester's own
/// endpoint.
pub fn handle_announce_request(
    data: &mut HandlerData,
    config: &Config,
    rng: &mut rand::rngs::SmallRng,
    request: &AnnounceRequest,
    src: SocketAddr,
    now: u64,
) -> (r: (Response, SocketAddr))
    requires
        old(data).wf(),
    ensures
        final(data).wf(),
        announce_step(*old(data), *final(data), *config, *request, src, now, r),
{
    let connection_key = ConnectionKey { connection_id: request.connection_id, socket_addr: src };
    if !data.connections.contains_key(&connection_key) {
        return (connection_error(request.transaction_id), src);
    }
    let peer_key = PeerMapKey { ip: src.ip, peer_id: request.peer_id };
    let peer = Peer {
        ip_address: src.ip,
        port: request.port,
        status: peer_status_from_event(request.event, request.bytes_left),
        last_announce: now,
    };
    let wanted: usize = if request.peers_wanted <= 0 {
        0
    } else {
        request.peers_wanted as usize
    };
    let max_num_peers_to_take = if wanted > config.max_response_peers {
        config.max_response_peers
    } else {
        wanted
    };
    assert(max_num_peers_to_take == peers_to_take(request.peers_wanted, config.max_response_peers));
    let (leechers, seeders, peers) = match src.ip {
        IpAddr::V4(_) => data.torrents.ipv4.announce(
            rng,
            request.info_hash,
            peer_key,
            peer,
            max_num_peers_to_take,
        ),
        IpAddr::V6(_) => data.torrents.ipv6.announce(
            rng,
            request.info_hash,
            peer_key,
            peer,
            max_num_peers_to_take,
        ),
    };
    proof {
        let t = data.torrents.family(src).map()[request.info_hash];
        let k = peers_to_take(request.peers_wanted, config.max_response_peers);
        assert(exists|o1: int, o2: int|
            (t.peers.entries@.len() > k ==> offsets_valid(t.peers.entries@.len() as int, k, o1, o2))
                && peers@ == sample_of(t.peers.entries@, k, o1, o2));
    }
    let own = ResponsePeer { ip_address: src.ip, port: request.port };
    let others = exclude_peer(&peers, own);
    proof {
        let t = data.torrents.family(src).map()[request.info_hash];
        let k = peers_to_take(request.peers_wanted, config.max_response_peers);
        let (o1, o2) = choose|o1: int, o2: int|
            (t.peers.entries@.len() > k ==> offsets_valid(t.peers.entries@.len() as int, k, o1, o2))
                && peers@ == sample_of(t.peers.entries@, k, o1, o2);
        assert(others@ == without_peer(sample_of(t.peers.entries@, k, o1, o2), own));
        assert(exists|a: int, b: int|
            (t.peers.entries@.len() > k ==> offsets_valid(t.peers.entries@.len() as int, k, a, b))
                && others@ == without_peer(#[trigger] sample_of(t.peers.entries@, k, a, b), own));
    }
    let response = Response::Announce(
        AnnounceResponse {
            transaction_id: request.transaction_id,
            announce_interval: config.peer_announce_interval,
            leechers: #[verifier::truncate] (leechers as i32),
            seeders: #[verifier::truncate] (seeders as i32),
            peers: others,
        },
    );
    (response, src)
}

/// The transaction id that a response carries.
pub open spec fn response_transaction_id(r: Response) -> TransactionId {
    match r {
        Response::Connect(c) => c.transaction_id,
        Response::Announce(a) => a.transaction_id,
        Response::Scrape(sc) => sc.transaction_id,
        Response::Error(e) => e.transaction_id,
    }
}

pub open spec fn scrape_statistics(seeders: i32, leechers: i32) -> TorrentScrapeStatistics {
    TorrentScrapeStatistics { seeders, completed: 0, leechers }
}

/// The scrape record of `info_hash` in `map`: its counts, all zero where it is absent.
pub open spec fn scrape_statistics_in(map: TorrentMap, info_hash: crate::types::InfoHash) -> TorrentScrapeStatistics {
    if map.map().contains_key(info_hash) {
        scrape_statistics(
            #[verifier::truncate] (map.map()[info_hash].num_seeders as i32),
            #[verifier::truncate] (map.map()[info_hash].num_leechers as i32),
        )
    } else {
        scrape_statistics(0, 0)
    }
}

/// A scrape record; the completed count is always zero.
pub fn create_torrent_scrape_statistics(seeders: i32, leechers: i32) -> (r: TorrentScrapeStatistics)
    ensures
        r == scrape_statistics(seeders, leechers),
{
    TorrentScrapeStatistics { seeders, completed: 0, leechers }
}

/// What answering one scrape from `src` on the shard `data` gives: the connection error
/// where the cookie is not held for `src`, else one record per requested info hash, in
/// order, from the torrent map of `src`'s address family.
pub open spec fn scrape_step(
    data: HandlerData,
    request: ScrapeRequest,
    src: SocketAddr,
    r: (Response, SocketAddr),
) -> bool {
    &&& r.1 == src
    &&& !data.connections.map().contains_key(
        ConnectionKey { connection_id: request.connection_id, socket_addr: src },
    ) ==> is_connection_error(r.0, request.transaction_id)
    &&& data.connections.map().contains_key(
        ConnectionKey { connection_id: request.connection_id, socket_addr: src },
    ) ==> {
        &&& r.0 is Scrape
        &&& r.0->Scrape_0.transaction_id == request.transaction_id
        &&& r.0->Scrape_0.torrent_stats@.len() == request.info_hashes@.len()
        &&& forall|j: int|
            0 <= j < request.info_hashes@.len() ==> #[trigger] r.0->Scrape_0.torrent_stats@[j]
                == scrape_statistics_in(data.torrents.family(src), request.info_hashes@[j])
    }
}

/// Handles one scrape request from `src`: the connection error where the cookie is not
/// held for `src`, else one record per requested info hash, in order, from the torrent map
/// of `src`'s address family.
pub fn handle_scrape_request(data: &HandlerData, request: &ScrapeRequest, src: SocketAddr) -> (r: (
    Response,
    SocketAddr,
))
    requires
        data.wf(),
    ensures
        scrape_step(*data, *request, src, r),
{
    let connection_key = ConnectionKey { connection_id: request.connection_id, socket_addr: src };
    if !data.connections.contains_key(&connection_key) {
        return (connection_error(request.transaction_id), src);
    }
    let map = match src.ip {
        IpAddr::V4(_) => &data.torrents.ipv4,
        IpAddr::V6(_) => &data.torrents.ipv6,
    };
    let empty_stats = create_torrent_scrape_statistics(0, 0);
    let mut stats: Vec<TorrentScrapeStatistics> = Vec::new();
    let mut i: usize = 0;
    while i < request.info_hashes.len()
        invariant
            *map == data.torrents.family(src),
            map.wf(),
            empty_stats == scrape_statistics(0, 0),
            0 <= i <= request.info_hashes@.len(),
            stats@.len() == i,
            forall|j: int|
                0 <= j < i ==> #[trigger] stats@[j] == scrape_statistics_in(
                    *map,
                    request.info_hashes@[j],
                ),
        decreases request.info_hashes@.len() - i,
    {
        let info_hash = request.info_hashes[i];
        match map.position(&info_hash) {
            Some(p) => {
                let t = &map.entries[p].1;
                stats.push(
                    create_torrent_scrape_statistics(
                        #[verifier::truncate] (t.num_seeders as i32),
                        #[verifier::truncate] (t.num_leechers as i32),
                    ),
                );
            },
            None => {
                stats.push(empty_stats);
            },
        }
        assert(stats@[i as int] == scrape_statistics_in(*map, info_hash));
        i = i + 1;
    }
    (Response::Scrape(ScrapeResponse { transaction_id: request.transaction_id, torrent_stats: stats }), src)
}

/// `states` runs through the shard as the announces `reqs` are handled one after another,
/// each as `announce_step` says, giving the responses `resps`.
pub open spec fn announce_run(
    states: Seq<HandlerData>,
    config: Config,
    reqs: Seq<(AnnounceRequest, SocketAddr)>,
    now: u64,
    resps: Seq<(Response, SocketAddr)>,
) -> bool {
    &&& states.len() == reqs.len() + 1
    &&& resps.len() == reqs.len()
    &&& forall|j: int|
        #![trigger states[j]]
        0 <= j < reqs.len() ==> announce_step(
            states[j],
            states[j + 1],
            config,
            reqs[j].0,
            reqs[j].1,
            now,
            resps[j],
        )
}

/// Handles the announce requests in order, each as `handle_announce_request` does, and
/// appends one response per request. `requests` is left empty.
pub fn handle_announce_requests(
    data: &mut HandlerData,
    config: &Config,
    rng: &mut rand::rngs::SmallRng,
    now: u64,
    requests: &mut Vec<(AnnounceRequest, SocketAddr)>,
    responses: &mut Vec<(Response, SocketAddr)>,
)
    requires
        old(data).wf(),
    ensures
        final(data).wf(),
        final(data).connections == old(data).connections,
        final(requests)@.len() == 0,
        final(responses)@.len() == old(responses)@.len() + old(requests)@.len(),
        final(responses)@.take(old(responses)@.len() as int) == old(responses)@,
        forall|k: int|
            old(responses)@.len() <= k < final(responses)@.len() ==> {
                let (req, src) = old(requests)@[k - old(responses)@.len()];
                let (resp, dst) = #[trigger] final(responses)@[k];
                &&& dst == src
                &&& response_transaction_id(resp) == req.transaction_id
                &&& (resp is Error) == !old(data).connections.map().contains_key(
                    (ConnectionKey { connection_id: req.connection_id, socket_addr: src }),
                )
            },
        exists|states: Seq<HandlerData>|
            states[0] == *old(data) && states.last() == *final(data) && #[trigger] announce_run(
                states,
                *config,
                old(requests)@,
                now,
                final(responses)@.skip(old(responses)@.len() as int),
            ),
{
    let ghost reqs = requests@;
    let ghost base = responses@.len();
    let ghost mut states: Seq<HandlerData> = seq![*data];
    let mut i: usize = 0;
    while i < requests.len()
        invariant
            states[0] == *old(data),
            states.last() == *data,
            announce_run(states, *config, reqs.take(i as int), now, responses@.skip(base as int)),
            data.wf(),
            data.connections == old(data).connections,
            requests@ == reqs,
            0 <= i <= reqs.len(),
            responses@.len() == base + i,
            responses@.take(base as int) == old(responses)@,
            forall|j: int|
                0 <= j < i ==> {
                    let (req, src) = reqs[j];
                    let (resp, dst) = #[trigger] responses@[base + j];
                    &&& dst == src
                    &&& response_transaction_id(resp) == req.transaction_id
                    &&& (resp is Error) == !old(data).connections.map().contains_key(
                        (ConnectionKey { connection_id: req.connection_id, socket_addr: src }),
                    )
                },
        decreases reqs.len() - i,
    {
        let (request, src) = requests[i];
        let ghost prev = states;
        let ghost prev_resps = responses@.skip(base as int);
        let ghost before = *data;
        let r = handle_announce_request(data, config, rng, &request, src, now);
        responses.push(r);
        proof {
            states = prev.push(*data);
            let resps = responses@.skip(base as int);
            let taken = reqs.take(i + 1);
            assert forall|j: int| 0 <= j < taken.len() implies #[trigger] announce_step(
                states[j],
                states[j + 1],
                *config,
                taken[j].0,
                taken[j].1,
                now,
                resps[j],
            ) by {
                if j < i {
                    assert(reqs.take(i as int)[j] == taken[j]);
                    assert(resps[j] == prev_resps[j]);
                    assert(states[j] == prev[j] && states[j + 1] == prev[j + 1]);
                } else {
                    assert(states[j] == before);
                    assert(resps[j] == r);
                }
            }
        }
        assert(responses@.take(base as int) =~= old(responses)@);
        i = i + 1;
    }
    assert(reqs.take(reqs.len() as int) =~= reqs);
    assert forall|k: int| base <= k < responses@.len() implies #[trigger] responses@[k]
        == responses@[base + (k - base)] by {}
    requests.clear();
}

/// Handles the scrape requests in order and appends one response per request, as
/// `handle_scrape_request` gives it. `requests` is left empty.
pub fn handle_scrape_requests(
    data: &HandlerData,
    requests: &mut Vec<(ScrapeRequest, SocketAddr)>,
    responses: &mut Vec<(Response, SocketAddr)>,
)
    requires
        data.wf(),
    ensures
        final(requests)@.len() == 0,
        final(responses)@.len() == old(responses)@.len() + old(requests)@.len(),
        final(responses)@.take(old(responses)@.len() as int) == old(responses)@,
        forall|k: int|
            old(responses)@.len() <= k < final(responses)@.len() ==> {
                let (req, src) = old(requests)@[k - old(responses)@.len()];
                let (resp, dst) = #[trigger] final(responses)@[k];
                &&& dst == src
                &&& response_transaction_id(resp) == req.transaction_id
                &&& (resp is Error) == !data.connections.map().contains_key(
                    (ConnectionKey { connection_id: req.connection_id, socket_addr: src }),
                )
                &&& scrape_step(*data, req, src, (resp, dst))
            },
{
    let ghost base = responses@.len();
    let mut i: usize = 0;
    while i < requests.len()
        invariant
            data.wf(),
            requests@ == old(requests)@,
            0 <= i <= requests@.len(),
            responses@.len() == base + i,
            responses@.take(base as int) == old(responses)@,
            forall|j: int|
                0 <= j < i ==> {
                    let (req, src) = old(requests)@[j];
                    let (resp, dst) = #[trigger] responses@[base + j];
                    &&& dst == src
                    &&& response_transaction_id(resp) == req.transaction_id
                    &&& (resp is Error) == !data.connections.map().contains_key(
                        (ConnectionKey { connection_id: req.connection_id, socket_addr: src }),
                    )
                    &&& scrape_step(*data, req, src, (resp, dst))
                },
        decreases requests@.len() - i,
    {
        let r = handle_scrape_request(data, &requests[i].0, requests[i].1);
        responses.push(r);
        assert(responses@.take(base as int) =~= old(responses)@);
        i = i + 1;
    }
    assert forall|k: int| base <= k < responses@.len() implies #[trigger] responses@[k]
        == responses@[base + (k - base)] by {}
    requests.clear();
}

} // verus!
