//! Choosing the peers listed in an announce response.
use vstd::prelude::*;

use crate::peer_map::PeerMap;
use crate::random::gen_range_usize;
use crate::types::{Peer, PeerMapKey, ResponsePeer};

verus! {

/// The peers of a map as listed in a response, in map order.
pub open spec fn response_peers(s: Seq<(PeerMapKey, Peer)>) -> Seq<ResponsePeer> {
    s.map_values(|e: (PeerMapKey, Peer)| e.1.response_view())
}

/// Window offsets allowed when `n` peers are held and `k < n` are wanted: the first window
/// of `k / 2` peers lies in the first half, the second of `k - k / 2` in the second.
pub open spec fn offsets_valid(n: int, k: int, o1: int, o2: int) -> bool {
    &&& 0 <= o1 < n / 2 + n % 2 - k / 2
    &&& n / 2 <= o2 < n - k / 2
}

/// The response list for `k` wanted peers: all of them where `k` covers the map, else the
/// two windows at `o1` and `o2`, concatenated.
pub open spec fn sample_of(s: Seq<(PeerMapKey, Peer)>, k: int, o1: int, o2: int) -> Seq<
    ResponsePeer,
> {
    let rp = response_peers(s);
    if s.len() <= k {
        rp
    } else {
        rp.subrange(o1, o1 + k / 2) + rp.subrange(o2, o2 + k / 2 + k % 2)
    }
}

/// Map position of the `j`-th sampled peer.
pub open spec fn sample_position(n: int, k: int, o1: int, o2: int, j: int) -> int {
    if n <= k {
        j
    } else if j < k / 2 {
        o1 + j
    } else {
        o2 + (j - k / 2)
    }
}

/// Sampling returns `min(k, n)` peers, each of them the peer at a distinct position of
/// the map.
pub proof fn lemma_sample_positions(s: Seq<(PeerMapKey, Peer)>, k: int, o1: int, o2: int)
    requires
        k >= 0,
        s.len() > k ==> offsets_valid(s.len() as int, k, o1, o2),
    ensures
        sample_of(s, k, o1, o2).len() == if s.len() <= k { s.len() as int } else { k },
        sample_of(s, k, o1, o2).len() <= k,
        forall|j: int|
            0 <= j < sample_of(s, k, o1, o2).len() ==> {
                let p = sample_position(s.len() as int, k, o1, o2, j);
                &&& 0 <= p < s.len()
                &&& #[trigger] sample_of(s, k, o1, o2)[j] == s[p].1.response_view()
            },
        forall|j1: int, j2: int|
            0 <= j1 < sample_of(s, k, o1, o2).len() && 0 <= j2 < sample_of(s, k, o1, o2).len()
                && j1 != j2 ==> sample_position(s.len() as int, k, o1, o2, j1) != sample_position(
                s.len() as int,
                k,
                o1,
                o2,
                j2,
            ),
{
}

/// The response list for `max_num_peers_to_take` wanted peers, with the window offsets
/// given.
pub fn extract_response_peers_at(
    peer_map: &PeerMap,
    max_num_peers_to_take: usize,
    offset_first_half: usize,
    offset_second_half: usize,
) -> (r: Vec<ResponsePeer>)
    requires
        peer_map.entries@.len() > max_num_peers_to_take ==> offsets_valid(
            peer_map.entries@.len() as int,
            max_num_peers_to_take as int,
            offset_first_half as int,
            offset_second_half as int,
        ),
    ensures
        r@ == sample_of(
            peer_map.entries@,
            max_num_peers_to_take as int,
            offset_first_half as int,
            offset_second_half as int,
        ),
{
    let ghost s = peer_map.entries@;
    let ghost rp = response_peers(s);
    let n = peer_map.len();
    let mut peers: Vec<ResponsePeer> = Vec::new();
    if n <= max_num_peers_to_take {
        let mut i: usize = 0;
        while i < n
            invariant
                n == s.len(),
                s == peer_map.entries@,
                rp == response_peers(s),
                0 <= i <= n,
                peers@ == rp.subrange(0, i as int),
            decreases n - i,
        {
            peers.push(peer_map.entries[i].1.to_response_peer());
            assert(peers@ =~= rp.subrange(0, i + 1));
            i = i + 1;
        }
        assert(peers@ =~= rp);
    } else {
        let half_num_to_take = max_num_peers_to_take / 2;
        let end_first_half = offset_first_half + half_num_to_take;
        let end_second_half = offset_second_half + half_num_to_take + (max_num_peers_to_take % 2);
        let mut i: usize = offset_first_half;
        while i < end_first_half
            invariant
                n == s.len(),
                s == peer_map.entries@,
                rp == response_peers(s),
                offset_first_half <= i <= end_first_half,
                end_first_half <= n,
                peers@ == rp.subrange(offset_first_half as int, i as int),
            decreases end_first_half - i,
        {
            peers.push(peer_map.entries[i].1.to_response_peer());
            assert(peers@ =~= rp.subrange(offset_first_half as int, i + 1));
            i = i + 1;
        }
        let ghost first = peers@;
        let mut j: usize = offset_second_half;
        while j < end_second_half
            invariant
                n == s.len(),
                s == peer_map.entries@,
                rp == response_peers(s),
                offset_second_half <= j <= end_second_half,
                end_second_half <= n,
                peers@ == first + rp.subrange(offset_second_half as int, j as int),
            decreases end_second_half - j,
        {
            peers.push(peer_map.entries[j].1.to_response_peer());
            assert(peers@ =~= first + rp.subrange(offset_second_half as int, j + 1));
            j = j + 1;
        }
    }
    peers
}

/// Samples up to `max_num_peers_to_take` peers of the map, drawing the two window offsets
/// at random.
pub fn extract_response_peers(
    rng: &mut rand::rngs::SmallRng,
    peer_map: &PeerMap,
    max_num_peers_to_take: usize,
) -> (r: Vec<ResponsePeer>)
    ensures
        exists|o1: int, o2: int|
            (peer_map.entries@.len() > max_num_peers_to_take ==> offsets_valid(
                peer_map.entries@.len() as int,
                max_num_peers_to_take as int,
                o1,
                o2,
            )) && r@ == sample_of(peer_map.entries@, max_num_peers_to_take as int, o1, o2),
        peer_map.entries@.len() <= max_num_peers_to_take ==> *final(rng) == *old(rng),
{
    let n = peer_map.len();
    if n <= max_num_peers_to_take {
        let r = extract_response_peers_at(peer_map, max_num_peers_to_take, 0, 0);
        assert(r@ == sample_of(peer_map.entries@, max_num_peers_to_take as int, 0, 0));
        r
    } else {
        let half_num_to_take = max_num_peers_to_take / 2;
        let half_peer_map_len = n / 2;
        let offset_first_half = gen_range_usize(
            rng,
            0,
            (half_peer_map_len + (n % 2)) - half_num_to_take,
        );
        let offset_second_half = gen_range_usize(rng, half_peer_map_len, n - half_num_to_take);
        let r = extract_response_peers_at(
            peer_map,
            max_num_peers_to_take,
            offset_first_half,
            offset_second_half,
        );
        assert(offsets_valid(
            n as int,
            max_num_peers_to_take as int,
            offset_first_half as int,
            offset_second_half as int,
        ));
        r
    }
}

/// `s` without the entries equal to `p`, order kept.
pub open spec fn without_peer(s: Seq<ResponsePeer>, p: ResponsePeer) -> Seq<ResponsePeer>
    decreases s.len(),
{
    if s.len() == 0 {
        Seq::empty()
    } else {
        without_peer(s.drop_last(), p) + if s.last() == p {
            Seq::empty()
        } else {
            seq![s.last()]
        }
    }
}

pub proof fn lemma_without_peer_len(s: Seq<ResponsePeer>, p: ResponsePeer)
    ensures
        without_peer(s, p).len() <= s.len(),
    decreases s.len(),
{
    if s.len() > 0 {
        lemma_without_peer_len(s.drop_last(), p);
    }
}

/// Drops the entries equal to `own` (the requesting peer's own endpoint) from `peers`.
pub fn exclude_peer(peers: &Vec<ResponsePeer>, own: ResponsePeer) -> (r: Vec<ResponsePeer>)
    ensures
        r@ == without_peer(peers@, own),
{
    let mut kept: Vec<ResponsePeer> = Vec::new();
    let mut i: usize = 0;
    while i < peers.len()
        invariant
            0 <= i <= peers@.len(),
            kept@ == without_peer(peers@.take(i as int), own),
        decreases peers@.len() - i,
    {
        let p = peers[i];
        proof {
            assert(peers@.take(i + 1).drop_last() =~= peers@.take(i as int));
        }
        if p != own {
            kept.push(p);
            assert(kept@ =~= without_peer(peers@.take(i + 1), own));
        } else {
            assert(kept@ =~= without_peer(peers@.take(i + 1), own));
        }
        i = i + 1;
    }
    assert(peers@.take(peers@.len() as int) =~= peers@);
    kept
}

} // verus!
