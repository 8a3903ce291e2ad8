//! A batch of requests collected by a worker, split by kind, and its processing.
use vstd::prelude::*;

use crate::config::Config;
use crate::handlers::{
    announce_run, handle_announce_requests, handle_connect_requests, handle_scrape_requests,
    response_transaction_id, scrape_step, with_issued,
};
use crate::swarm::HandlerData;
use crate::types::{
    AnnounceRequest, ConnectRequest, ConnectionKey, Request, Response, ScrapeRequest, SocketAddr,
};

verus! {

/// What one receive attempt of a worker collecting a batch came to.
#[derive(Clone, Copy, Debug, PartialEq, Eq, Structural)]
pub enum CollectEvent {
    /// A request arrived and was filed.
    Received,
    /// The wait timed out; `shard_free` tells whether the shard's lock was then taken.
    TimedOut { shard_free: bool },
    /// The inbound channel is closed.
    Closed,
}

#[derive(Clone, Copy, Debug, PartialEq, Eq, Structural)]
pub enum CollectAction {
    /// Make another receive attempt.
    Continue,
    /// Stop collecting and handle the batch.
    Process,
    /// Handle what was collected, then stop the worker.
    Shutdown,
}

/// The step after receive attempt number `attempts` (counted from zero) of at most
/// `max_requests_per_iter`: a closed channel ends the worker; a timeout with the shard
/// free ends collecting; otherwise collecting goes on until the attempts are used up.
pub open spec fn collect_action(attempts: nat, max_requests_per_iter: nat, event: CollectEvent) -> CollectAction {
    match event {
        CollectEvent::Closed => CollectAction::Shutdown,
        CollectEvent::TimedOut { shard_free: true } => CollectAction::Process,
        _ => if attempts + 1 >= max_requests_per_iter {
            CollectAction::Process
        } else {
            CollectAction::Continue
        },
    }
}

pub fn next_collect_action(attempts: usize, max_requests_per_iter: usize, event: CollectEvent) -> (r:
    CollectAction)
    ensures
        r == collect_action(attempts as nat, max_requests_per_iter as nat, event),
{
    match event {
        CollectEvent::Closed => CollectAction::Shutdown,
        CollectEvent::TimedOut { shard_free: true } => CollectAction::Process,
        _ => if attempts >= max_requests_per_iter || max_requests_per_iter - attempts <= 1 {
            CollectAction::Process
        } else {
            CollectAction::Continue
        },
    }
}

pub struct RequestBatch {
    pub connect_requests: Vec<(ConnectRequest, SocketAddr)>,
    pub announce_requests: Vec<(AnnounceRequest, SocketAddr)>,
    pub scrape_requests: Vec<(ScrapeRequest, SocketAddr)>,
}

impl RequestBatch {
    pub open spec fn size(&self) -> int {
        self.connect_requests@.len() + self.announce_requests@.len() + self.scrape_requests@.len() as int
    }

    pub fn new() -> (r: RequestBatch)
        ensures
            r.connect_requests@.len() == 0,
            r.announce_requests@.len() == 0,
            r.scrape_requests@.len() == 0,
    {
        RequestBatch {
            connect_requests: Vec::new(),
            announce_requests: Vec::new(),
            scrape_requests: Vec::new(),
        }
    }

    /// Files a request under its kind, after those of that kind already collected.
    pub fn push(&mut self, request: Request, src: SocketAddr)
        ensures
            match request {
                Request::Connect(r) => {
                    &&& final(self).connect_requests@ == old(self).connect_requests@.push((r, src))
                    &&& final(self).announce_requests@ == old(self).announce_requests@
                    &&& final(self).scrape_requests@ == old(self).scrape_requests@
                },
                Request::Announce(r) => {
                    &&& final(self).connect_requests@ == old(self).connect_requests@
                    &&& final(self).announce_requests@ == old(self).announce_requests@.push((r, src))
                    &&& final(self).scrape_requests@ == old(self).scrape_requests@
                },
                Request::Scrape(r) => {
                    &&& final(self).connect_requests@ == old(self).connect_requests@
                    &&& final(self).announce_requests@ == old(self).announce_requests@
                    &&& final(self).scrape_requests@ == old(self).scrape_requests@.push((r, src))
                },
            },
    {
        match request {
            Request::Connect(r) => self.connect_requests.push((r, src)),
            Request::Announce(r) => self.announce_requests.push((r, src)),
            Request::Scrape(r) => self.scrape_requests.push((r, src)),
        }
    }
}

/// Handles a batch: all connects, then all announces, then all scrapes, each kind in the
/// order received, as the three handlers of `handlers` do. Appends one response per
/// request in that order and empties the batch. The connects' cookies are recorded first,
/// so an announce of the batch whose cookie was issued to its source by a connect of the
/// same batch is accepted.
#[verifier::rlimit(50)]
pub fn handle_request_batch(
    data: &mut HandlerData,
    config: &Config,
    std_rng: &mut rand::rngs::StdRng,
    small_rng: &mut rand::rngs::SmallRng,
    now: u64,
    batch: &mut RequestBatch,
    responses: &mut Vec<(Response, SocketAddr)>,
)
    requires
        old(data).wf(),
    ensures
        final(data).wf(),
        final(batch).size() == 0,
        final(responses)@.len() == old(responses)@.len() + old(batch).size(),
        final(responses)@.take(old(responses)@.len() as int) == old(responses)@,
        forall|k: int|
            old(responses)@.len() <= k < old(responses)@.len() + old(batch).connect_requests@.len()
                ==> {
                let (req, src) = old(batch).connect_requests@[k - old(responses)@.len()];
                let (resp, dst) = #[trigger] final(responses)@[k];
                &&& dst == src
                &&& resp is Connect
                &&& resp->Connect_0.transaction_id == req.transaction_id
            },
        forall|k: int|
            old(responses)@.len() + old(batch).connect_requests@.len() <= k < old(responses)@.len()
                + old(batch).connect_requests@.len() + old(batch).announce_requests@.len() ==> {
                let (req, src) = old(batch).announce_requests@[k - old(responses)@.len()
                    - old(batch).connect_requests@.len()];
                let (resp, dst) = #[trigger] final(responses)@[k];
                &&& dst == src
                &&& response_transaction_id(resp) == req.transaction_id
                &&& old(data).connections.map().contains_key(
                    (ConnectionKey { connection_id: req.connection_id, socket_addr: src }),
                ) ==> !(resp is Error)
                &&& (exists|i: int|
                    old(responses)@.len() <= i < old(responses)@.len()
                        + old(batch).connect_requests@.len() && {
                        let (c, d) = #[trigger] final(responses)@[i];
                        &&& d == src
                        &&& c is Connect
                        &&& c->Connect_0.connection_id == req.connection_id
                    }) ==> !(resp is Error)
            },
        forall|k: int|
            old(responses)@.len() + old(batch).connect_requests@.len()
                + old(batch).announce_requests@.len() <= k < final(responses)@.len() ==> {
                let (req, src) = old(batch).scrape_requests@[k - old(responses)@.len()
                    - old(batch).connect_requests@.len() - old(batch).announce_requests@.len()];
                let (resp, dst) = #[trigger] final(responses)@[k];
                &&& dst == src
                &&& response_transaction_id(resp) == req.transaction_id
                &&& scrape_step(*final(data), req, src, (resp, dst))
            },
        final(data).connections.map() == with_issued(
            old(data).connections.map(),
            final(responses)@.subrange(
                old(responses)@.len() as int,
                (old(responses)@.len() + old(batch).connect_requests@.len()) as int,
            ),
            now,
        ),
        exists|states: Seq<HandlerData>|
            states[0].connections.map() == with_issued(
                old(data).connections.map(),
                final(responses)@.subrange(
                    old(responses)@.len() as int,
                    (old(responses)@.len() + old(batch).connect_requests@.len()) as int,
                ),
                now,
            ) && states[0].torrents == old(data).torrents && states.last() == *final(data)
                && #[trigger] announce_run(
                states,
                *config,
                old(batch).announce_requests@,
                now,
                final(responses)@.subrange(
                    (old(responses)@.len() + old(batch).connect_requests@.len()) as int,
                    (old(responses)@.len() + old(batch).connect_requests@.len()
                        + old(batch).announce_requests@.len()) as int,
                ),
            ),
{
    let ghost r0 = responses@;
    let ghost b = *batch;
    handle_connect_requests(data, std_rng, now, &mut batch.connect_requests, responses);
    let ghost r1 = responses@;
    let ghost d1 = *data;
    handle_announce_requests(data, config, small_rng, now, &mut batch.announce_requests, responses);
    let ghost r2 = responses@;
    let ghost d2 = *data;
    handle_scrape_requests(data, &mut batch.scrape_requests, responses);
    proof {
        let states = choose|states: Seq<HandlerData>|
            states[0] == d1 && states.last() == d2 && #[trigger] announce_run(
                states,
                *config,
                b.announce_requests@,
                now,
                r2.skip(r1.len() as int),
            );
        let nc = b.connect_requests@.len();
        let na = b.announce_requests@.len();
        assert(r2.take(r1.len() as int) == r1);
        assert(responses@.take(r2.len() as int) == r2);
        assert forall|k: int| 0 <= k < r2.len() implies #[trigger] responses@[k] == r2[k] by {
            assert(responses@.take(r2.len() as int)[k] == r2[k]);
        }
        assert forall|k: int| 0 <= k < r1.len() implies #[trigger] r2[k] == r1[k] by {
            assert(r2.take(r1.len() as int)[k] == r1[k]);
        }
        assert forall|k: int| 0 <= k < r0.len() implies #[trigger] r1[k] == r0[k] by {
            assert(r1.take(r0.len() as int)[k] == r0[k]);
        }
        assert(responses@.take(r0.len() as int) =~= r0);
        assert(responses@.subrange(r0.len() as int, (r0.len() + nc) as int) =~= r1.skip(r0.len() as int));
        assert(responses@.subrange((r0.len() + nc) as int, (r0.len() + nc + na) as int) =~= r2.skip(r1.len() as int));
        assert(announce_run(
            states,
            *config,
            b.announce_requests@,
            now,
            responses@.subrange((r0.len() + nc) as int, (r0.len() + nc + na) as int),
        ));
    }
}

} // verus!
