//! The BitTorrent UDP tracker wire format: requests from bytes, responses to bytes. All
//! integers are big-endian.
use vstd::prelude::*;
use vstd::array::ArrayAdditionalExecFns;

use crate::types::{
    AnnounceEvent, AnnounceRequest, ConnectRequest, ConnectionId, InfoHash, IpAddr, PeerId,
    Request, Response, ResponsePeer, ScrapeRequest, TransactionId,
};

verus! {

/// The magic number that opens a connect request.
pub const PROTOCOL_ID: u64 = 0x41727101980;

pub const ACTION_CONNECT: u32 = 0;

pub const ACTION_ANNOUNCE: u32 = 1;

pub const ACTION_SCRAPE: u32 = 2;

pub const ACTION_ERROR: u32 = 3;

/// Length of an announce request.
pub const ANNOUNCE_REQUEST_LEN: usize = 98;

pub open spec fn be_u16_at(s: Seq<u8>, at: int) -> u16 {
    (s[at] * 256 + s[at + 1]) as u16
}

pub open spec fn be_u32_at(s: Seq<u8>, at: int) -> u32 {
    (s[at] * 16777216 + s[at + 1] * 65536 + s[at + 2] * 256 + s[at + 3]) as u32
}

pub open spec fn be_u64_at(s: Seq<u8>, at: int) -> u64 {
    (be_u32_at(s, at) * 4294967296 + be_u32_at(s, at + 4)) as u64
}

fn read_u16(b: &Vec<u8>, at: usize) -> (r: u16)
    requires
        at + 2 <= b@.len(),
        b@.len() <= usize::MAX,
    ensures
        r == be_u16_at(b@, at as int),
{
    (b[at] as u16) * 256 + (b[at + 1] as u16)
}

fn read_u32(b: &Vec<u8>, at: usize) -> (r: u32)
    requires
        at + 4 <= b@.len(),
        b@.len() <= usize::MAX,
    ensures
        r == be_u32_at(b@, at as int),
{
    (b[at] as u32) * 16777216 + (b[at + 1] as u32) * 65536 + (b[at + 2] as u32) * 256 + (b[at
        + 3] as u32)
}

fn read_u64(b: &Vec<u8>, at: usize) -> (r: u64)
    requires
        at + 8 <= b@.len(),
        b@.len() <= usize::MAX,
    ensures
        r == be_u64_at(b@, at as int),
{
    (read_u32(b, at) as u64) * 4294967296 + (read_u32(b, at + 4) as u64)
}

fn read_20(b: &Vec<u8>, at: usize) -> (r: [u8; 20])
    requires
        at + 20 <= b@.len(),
        b@.len() <= usize::MAX,
    ensures
        r@ == b@.subrange(at as int, at + 20),
{
    let len = b.len();
    let mut a = [0u8; 20];
    let mut i: usize = 0;
    while i < 20
        invariant
            0 <= i <= 20,
            len == b@.len(),
            at + 20 <= b@.len(),
            a@.len() == 20,
            forall|j: int| 0 <= j < i ==> a@[j] == b@[at + j],
        decreases 20 - i,
    {
        a.set(i, b[at + i]);
        i = i + 1;
    }
    assert(a@ =~= b@.subrange(at as int, at + 20));
    a
}

pub open spec fn event_of(code: u32) -> AnnounceEvent {
    if code == 1 {
        AnnounceEvent::Completed
    } else if code == 2 {
        AnnounceEvent::Started
    } else if code == 3 {
        AnnounceEvent::Stopped
    } else {
        AnnounceEvent::Unspecified
    }
}

/// Whether `s` is a request this tracker reads: a connect with the protocol id, an
/// announce of full length, or a scrape followed by whole info hashes.
pub open spec fn request_well_formed(s: Seq<u8>) -> bool {
    &&& s.len() >= 16
    &&& {
        let action = be_u32_at(s, 8);
        if action == ACTION_CONNECT {
            be_u64_at(s, 0) == PROTOCOL_ID
        } else if action == ACTION_ANNOUNCE {
            s.len() >= ANNOUNCE_REQUEST_LEN
        } else if action == ACTION_SCRAPE {
            (s.len() - 16) % 20 == 0
        } else {
            false
        }
    }
}

/// The fields of `r` are those that `s` encodes.
pub open spec fn request_decoded_from(s: Seq<u8>, r: Request) -> bool {
    match r {
        Request::Connect(c) => {
            &&& be_u32_at(s, 8) == ACTION_CONNECT
            &&& c.transaction_id == TransactionId(#[verifier::truncate] (be_u32_at(s, 12) as i32))
        },
        Request::Announce(a) => {
            &&& be_u32_at(s, 8) == ACTION_ANNOUNCE
            &&& a.connection_id == ConnectionId(be_u64_at(s, 0))
            &&& a.transaction_id == TransactionId(#[verifier::truncate] (be_u32_at(s, 12) as i32))
            &&& a.info_hash.0@ == s.subrange(16, 36)
            &&& a.peer_id.0@ == s.subrange(36, 56)
            &&& a.bytes_left == be_u64_at(s, 64)
            &&& a.event == event_of(be_u32_at(s, 80))
            &&& a.peers_wanted == #[verifier::truncate] (be_u32_at(s, 92) as i32)
            &&& a.port == be_u16_at(s, 96)
        },
        Request::Scrape(sc) => {
            &&& be_u32_at(s, 8) == ACTION_SCRAPE
            &&& sc.connection_id == ConnectionId(be_u64_at(s, 0))
            &&& sc.transaction_id == TransactionId(#[verifier::truncate] (be_u32_at(s, 12) as i32))
            &&& sc.info_hashes@.len() == (s.len() - 16) / 20
            &&& forall|i: int|
                0 <= i < sc.info_hashes@.len() ==> (#[trigger] sc.info_hashes@[i]).0@ == s.subrange(
                    16 + 20 * i,
                    36 + 20 * i,
                )
        },
    }
}

fn event_from_code(code: u32) -> (r: AnnounceEvent)
    ensures
        r == event_of(code),
{
    if code == 1 {
        AnnounceEvent::Completed
    } else if code == 2 {
        AnnounceEvent::Started
    } else if code == 3 {
        AnnounceEvent::Stopped
    } else {
        AnnounceEvent::Unspecified
    }
}

/// Reads a request; `None` where the bytes are not one.
pub fn decode_request(bytes: &Vec<u8>) -> (r: Option<Request>)
    ensures
        r is Some <==> request_well_formed(bytes@),
        r is Some ==> request_decoded_from(bytes@, r->Some_0),
{
    if bytes.len() < 16 {
        return None;
    }
    let action = read_u32(bytes, 8);
    let transaction_id = TransactionId(#[verifier::truncate] (read_u32(bytes, 12) as i32));
    if action == ACTION_CONNECT {
        if read_u64(bytes, 0) != PROTOCOL_ID {
            return None;
        }
        Some(Request::Connect(ConnectRequest { transaction_id }))
    } else if action == ACTION_ANNOUNCE {
        if bytes.len() < ANNOUNCE_REQUEST_LEN {
            return None;
        }
        Some(
            Request::Announce(
                AnnounceRequest {
                    connection_id: ConnectionId(read_u64(bytes, 0)),
                    transaction_id,
                    info_hash: InfoHash(read_20(bytes, 16)),
                    peer_id: PeerId(read_20(bytes, 36)),
                    bytes_left: read_u64(bytes, 64),
                    event: event_from_code(read_u32(bytes, 80)),
                    port: read_u16(bytes, 96),
                    peers_wanted: #[verifier::truncate] (read_u32(bytes, 92) as i32),
                },
            ),
        )
    } else if action == ACTION_SCRAPE {
        if (bytes.len() - 16) % 20 != 0 {
            return None;
        }
        let len = bytes.len();
        let n = (len - 16) / 20;
        let mut info_hashes: Vec<InfoHash> = Vec::new();
        let mut i: usize = 0;
        while i < n
            invariant
                len == bytes@.len(),
                n == (bytes@.len() - 16) / 20,
                (bytes@.len() - 16) % 20 == 0,
                bytes@.len() >= 16,
                0 <= i <= n,
                info_hashes@.len() == i,
                forall|j: int|
                    0 <= j < i ==> (#[trigger] info_hashes@[j]).0@ == bytes@.subrange(
                        16 + 20 * j,
                        36 + 20 * j,
                    ),
            decreases n - i,
        {
            info_hashes.push(InfoHash(read_20(bytes, 16 + 20 * i)));
            i = i + 1;
        }
        Some(
            Request::Scrape(
                ScrapeRequest {
                    connection_id: ConnectionId(read_u64(bytes, 0)),
                    transaction_id,
                    info_hashes,
                },
            ),
        )
    } else {
        None
    }
}

pub open spec fn u16_bytes(v: u16) -> Seq<u8> {
    seq![(v / 256) as u8, (v % 256) as u8]
}

pub open spec fn u32_bytes(v: u32) -> Seq<u8> {
    seq![(v / 16777216) as u8, (v / 65536 % 256) as u8, (v / 256 % 256) as u8, (v % 256) as u8]
}

pub open spec fn u64_bytes(v: u64) -> Seq<u8> {
    u32_bytes((v / 4294967296) as u32) + u32_bytes((v % 4294967296) as u32)
}

pub open spec fn u128_bytes(v: u128) -> Seq<u8> {
    u64_bytes((v / 18446744073709551616) as u64) + u64_bytes((v % 18446744073709551616) as u64)
}

/// The two's complement bits of a signed field.
pub open spec fn bits_of(v: i32) -> u32 {
    #[verifier::truncate] (v as u32)
}

/// A listed peer: its address (4 or 16 bytes) and port.
pub open spec fn peer_bytes(p: ResponsePeer) -> Seq<u8> {
    match p.ip_address {
        IpAddr::V4(a) => u32_bytes(a) + u16_bytes(p.port),
        IpAddr::V6(a) => u128_bytes(a) + u16_bytes(p.port),
    }
}

pub open spec fn peers_bytes(s: Seq<ResponsePeer>) -> Seq<u8>
    decreases s.len(),
{
    if s.len() == 0 {
        Seq::empty()
    } else {
        peers_bytes(s.drop_last()) + peer_bytes(s.last())
    }
}

pub open spec fn stats_bytes(s: Seq<crate::types::TorrentScrapeStatistics>) -> Seq<u8>
    decreases s.len(),
{
    if s.len() == 0 {
        Seq::empty()
    } else {
        stats_bytes(s.drop_last()) + u32_bytes(bits_of(s.last().seeders)) + u32_bytes(bits_of(s.last().completed)) + u32_bytes(bits_of(s.last().leechers))
    }
}

/// The bytes of a response.
pub open spec fn response_bytes(r: Response) -> Seq<u8> {
    match r {
        Response::Connect(c) => u32_bytes(ACTION_CONNECT) + u32_bytes(bits_of(c.transaction_id.0))
            + u64_bytes(c.connection_id.0),
        Response::Announce(a) => u32_bytes(ACTION_ANNOUNCE) + u32_bytes(bits_of(a.transaction_id.0))
            + u32_bytes(bits_of(a.announce_interval)) + u32_bytes(bits_of(a.leechers)) + u32_bytes(bits_of(a.seeders)) + peers_bytes(a.peers@),
        Response::Scrape(sc) => u32_bytes(ACTION_SCRAPE) + u32_bytes(bits_of(sc.transaction_id.0))
            + stats_bytes(sc.torrent_stats@),
        Response::Error(e) => u32_bytes(ACTION_ERROR) + u32_bytes(bits_of(e.transaction_id.0))
            + vstd::utf8::encode_utf8(e.message@),
    }
}

fn push_u16(out: &mut Vec<u8>, v: u16)
    ensures
        final(out)@ == old(out)@ + u16_bytes(v),
{
    out.push((v / 256) as u8);
    out.push((v % 256) as u8);
    assert(out@ =~= old(out)@ + u16_bytes(v));
}

fn push_u32(out: &mut Vec<u8>, v: u32)
    ensures
        final(out)@ == old(out)@ + u32_bytes(v),
{
    out.push((v / 16777216) as u8);
    out.push((v / 65536 % 256) as u8);
    out.push((v / 256 % 256) as u8);
    out.push((v % 256) as u8);
    assert(out@ =~= old(out)@ + u32_bytes(v));
}

fn push_u64(out: &mut Vec<u8>, v: u64)
    ensures
        final(out)@ == old(out)@ + u64_bytes(v),
{
    push_u32(out, (v / 4294967296) as u32);
    push_u32(out, (v % 4294967296) as u32);
    assert(out@ =~= old(out)@ + u64_bytes(v));
}

fn push_u128(out: &mut Vec<u8>, v: u128)
    ensures
        final(out)@ == old(out)@ + u128_bytes(v),
{
    push_u64(out, (v / 18446744073709551616) as u64);
    push_u64(out, (v % 18446744073709551616) as u64);
    assert(out@ =~= old(out)@ + u128_bytes(v));
}

/// Appends the bytes of `response` to `out`.
pub fn encode_response(response: &Response, out: &mut Vec<u8>)
    ensures
        final(out)@ == old(out)@ + response_bytes(*response),
{
    match response {
        Response::Connect(c) => {
            push_u32(out, ACTION_CONNECT);
            push_u32(out, #[verifier::truncate] (c.transaction_id.0 as u32));
            push_u64(out, c.connection_id.0);
        },
        Response::Announce(a) => {
            push_u32(out, ACTION_ANNOUNCE);
            push_u32(out, #[verifier::truncate] (a.transaction_id.0 as u32));
            push_u32(out, #[verifier::truncate] (a.announce_interval as u32));
            push_u32(out, #[verifier::truncate] (a.leechers as u32));
            push_u32(out, #[verifier::truncate] (a.seeders as u32));
            let ghost head = out@;
            let mut i: usize = 0;
            while i < a.peers.len()
                invariant
                    0 <= i <= a.peers@.len(),
                    out@ == head + peers_bytes(a.peers@.take(i as int)),
                decreases a.peers@.len() - i,
            {
                let p = a.peers[i];
                match p.ip_address {
                    IpAddr::V4(ip) => push_u32(out, ip),
                    IpAddr::V6(ip) => push_u128(out, ip),
                }
                push_u16(out, p.port);
                proof {
                    assert(a.peers@.take(i + 1).drop_last() =~= a.peers@.take(i as int));
                }
                i = i + 1;
            }
            assert(a.peers@.take(a.peers@.len() as int) =~= a.peers@);
        },
        Response::Scrape(sc) => {
            push_u32(out, ACTION_SCRAPE);
            push_u32(out, #[verifier::truncate] (sc.transaction_id.0 as u32));
            let ghost head = out@;
            let mut i: usize = 0;
            while i < sc.torrent_stats.len()
                invariant
                    0 <= i <= sc.torrent_stats@.len(),
                    out@ == head + stats_bytes(sc.torrent_stats@.take(i as int)),
                decreases sc.torrent_stats@.len() - i,
            {
                let st = sc.torrent_stats[i];
                push_u32(out, #[verifier::truncate] (st.seeders as u32));
                push_u32(out, #[verifier::truncate] (st.completed as u32));
                push_u32(out, #[verifier::truncate] (st.leechers as u32));
                proof {
                    assert(sc.torrent_stats@.take(i + 1).drop_last() =~= sc.torrent_stats@.take(
                        i as int,
                    ));
                }
                i = i + 1;
            }
            assert(sc.torrent_stats@.take(sc.torrent_stats@.len() as int) =~= sc.torrent_stats@);
        },
        Response::Error(e) => {
            push_u32(out, ACTION_ERROR);
            push_u32(out, #[verifier::truncate] (e.transaction_id.0 as u32));
            let message = e.message.as_str().as_bytes();
            let ghost head = out@;
            let mut i: usize = 0;
            while i < message.len()
                invariant
                    0 <= i <= message@.len(),
                    out@ == head + message@.take(i as int),
                decreases message@.len() - i,
            {
                out.push(message[i]);
                assert(out@ =~= head + message@.take(i + 1));
                i = i + 1;
            }
            assert(message@.take(message@.len() as int) =~= message@);
        },
    }
}

} // verus!
