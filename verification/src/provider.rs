use vstd::prelude::*;

use crate::asset::Asset;
use crate::asset::AssetPriceEvent;
use crate::channel::Broadcaster;
use crate::channel::Cursor;
use crate::channel::RecvResult;
use crate::fetch::request_params;
use crate::fetch::spec_identifiers;
use crate::fetch::spec_join;
use crate::poll::FetchOutcome;
use crate::poll::PollState;
use crate::poll::TickAction;
use crate::table::AssetTable;

verus! {

/// The feed's base URL; one batched request appends the comma-joined
/// identifier list to it.
pub const DEFILLAMA_PRICE_FETCHER_URL: &'static str = "https://coins.llama.fi/prices/current";

/// How many events a backend's broadcast channel buffers for a subscriber.
pub const BROADCAST_CAPACITY: usize = 100;

/// One concrete polling backend: it owns an asset table, the state of a
/// periodic fetch task, and a lossy broadcast channel of price events.
///
/// The backend itself holds no socket and no timer: the surrounding
/// process drives it — take `snapshot`, build `fetch_request`, make the
/// one network call, parse, hand the entries back, `publish_all` — and
/// every decision along that path is made and proved here.
pub struct DefiLlamaProvider {
    table: AssetTable,
    channel: Broadcaster,
    poll: PollState,
    fetch_interval: u64,
}

impl DefiLlamaProvider {
    pub closed spec fn spec_table(self) -> AssetTable {
        self.table
    }

    pub closed spec fn spec_channel(self) -> Broadcaster {
        self.channel
    }

    pub closed spec fn spec_poll(self) -> PollState {
        self.poll
    }

    pub closed spec fn spec_interval(self) -> u64 {
        self.fetch_interval
    }

    /// Every price event this backend ever published, in publish order.
    pub open spec fn history(self) -> Seq<AssetPriceEvent> {
        self.spec_channel().history()
    }

    pub open spec fn wf(self) -> bool {
        &&& self.spec_table().wf()
        &&& self.spec_channel().wf()
        &&& self.spec_poll().wf()
        &&& self.spec_channel().capacity() == BROADCAST_CAPACITY
    }

    /// A fresh backend: empty table, empty bounded channel, loop not
    /// running, with the externally configured fetch interval in seconds.
    pub fn new(fetch_interval: u64) -> (r: DefiLlamaProvider)
        ensures
            r.wf(),
            r.spec_interval() == fetch_interval,
            r.spec_table().spec_assets().len() == 0,
            r.history() == Seq::<AssetPriceEvent>::empty(),
            !r.spec_poll().running,
            r.spec_poll().cycles == 0,
    {
        DefiLlamaProvider {
            table: AssetTable::new(),
            channel: Broadcaster::new(BROADCAST_CAPACITY),
            poll: PollState::new(),
            fetch_interval,
        }
    }

    pub fn fetch_interval(&self) -> (r: u64)
        ensures
            r == self.spec_interval(),
    {
        self.fetch_interval
    }

    /// Registers an asset in this backend's table; on a duplicate address
    /// the last write wins. Always succeeds.
    pub fn add_asset(&mut self, asset: Asset)
        requires
            old(self).wf(),
        ensures
            final(self).wf(),
            final(self).spec_table().spec_lookup(asset.address@) == Some(asset),
            forall|a: Seq<char>|
                a != asset.address@ ==> final(self).spec_table().spec_lookup(a) == old(self).spec_table().spec_lookup(a),
            final(self).spec_channel() == old(self).spec_channel(),
            final(self).spec_poll() == old(self).spec_poll(),
            final(self).spec_interval() == old(self).spec_interval(),
    {
        self.table.add_asset(asset);
    }

    /// Removes the asset registered under `asset_address`, if any.
    pub fn remove_asset(&mut self, asset_address: &str)
        requires
            old(self).wf(),
        ensures
            final(self).wf(),
            final(self).spec_table().spec_lookup(asset_address@) is None,
            forall|a: Seq<char>|
                a != asset_address@ ==> final(self).spec_table().spec_lookup(a) == old(self).spec_table().spec_lookup(a),
            final(self).spec_channel() == old(self).spec_channel(),
            final(self).spec_poll() == old(self).spec_poll(),
            final(self).spec_interval() == old(self).spec_interval(),
    {
        self.table.remove_asset(asset_address);
    }

    /// The read-consistent snapshot a fetch cycle works from: the table as
    /// it stands now, unaffected by later registration or removal.
    pub fn snapshot(&self) -> (r: AssetTable)
        requires
            self.wf(),
        ensures
            r.spec_assets() == self.spec_table().spec_assets(),
            r.wf(),
    {
        self.table.snapshot()
    }

    /// The query parameter of this cycle's one batched outbound request,
    /// or `None` on an empty table: then no network call is made at all
    /// and the cycle's result is empty.
    pub fn fetch_request(&self) -> (r: Option<String>)
        requires
            self.wf(),
        ensures
            (r is None) == (self.spec_table().spec_assets().len() == 0),
            r is Some ==> r.unwrap()@ == spec_join(
                spec_identifiers(self.spec_table().spec_assets()),
            ),
    {
        request_params(&self.table)
    }

    /// Publishes a fetch cycle's events onto this backend's channel, in
    /// order. Publishing never blocks and is a no-op for subscribers that
    /// do not exist.
    pub fn publish_all(&mut self, events: Vec<AssetPriceEvent>)
        requires
            old(self).wf(),
        ensures
            final(self).wf(),
            old(self).history().len() + events@.len() < u64::MAX ==> final(self).history() == old(self).history() + events@,
            final(self).spec_table() == old(self).spec_table(),
            final(self).spec_poll() == old(self).spec_poll(),
            final(self).spec_interval() == old(self).spec_interval(),
            final(self).spec_channel().capacity() == old(self).spec_channel().capacity(),
    {
        let ghost old_hist = self.history();
        let n = events.len();
        let mut i: usize = 0;
        proof {
            assert(old_hist + events@.take(0) =~= old_hist);
        }
        while i < n
            invariant
                i <= n,
                n == events@.len(),
                self.wf(),
                self.spec_table() == old(self).spec_table(),
                self.spec_poll() == old(self).spec_poll(),
                self.spec_interval() == old(self).spec_interval(),
                self.spec_channel().capacity() == old(self).spec_channel().capacity(),
                old_hist.len() + n < u64::MAX ==> self.history() == old_hist + events@.take(
                    i as int,
                ),
            decreases n - i,
        {
            let e = events[i].clone();
            self.channel.publish(e);
            proof {
                if old_hist.len() + n < u64::MAX {
                    assert(old_hist + events@.take(i + 1) =~= (old_hist + events@.take(
                        i as int,
                    )).push(events@[i as int]));
                }
            }
            i = i + 1;
        }
        proof {
            assert(events@.take(n as int) =~= events@);
        }
    }

    /// A new independent subscription leg, positioned at the live end of
    /// this backend's channel.
    pub fn subscribe(&self) -> (c: Cursor)
        requires
            self.wf(),
        ensures
            c.spec_pos() == self.history().len(),
    {
        self.channel.subscribe()
    }

    /// Polls one pending event for a subscription leg; a leg that fell
    /// behind the bounded buffer loses the evicted events (lossy delivery).
    pub fn recv(&self, c: &mut Cursor) -> (r: RecvResult)
        requires
            self.wf(),
            0 <= old(c).spec_pos() <= self.history().len(),
        ensures
            final(c).spec_pos() <= self.history().len(),
            old(c).spec_pos() == self.history().len() ==> r is Empty && final(c).spec_pos() == old(
                c,
            ).spec_pos(),
            old(c).spec_pos() < self.history().len() ==> {
                let p = if old(c).spec_pos() < self.spec_channel().spec_first_buffered() {
                    self.spec_channel().spec_first_buffered()
                } else {
                    old(c).spec_pos()
                };
                &&& r matches RecvResult::Received { event, skipped } ==> event == self.history()[p]
                    && skipped == p - old(c).spec_pos()
                &&& r is Received
                &&& final(c).spec_pos() == p + 1
            },
    {
        self.channel.recv(c)
    }

    /// Consumes every event still available to a subscription leg.
    pub fn drain(&self, c: &mut Cursor) -> (r: Vec<AssetPriceEvent>)
        requires
            self.wf(),
            0 <= old(c).spec_pos() <= self.history().len(),
        ensures
            r@ == self.spec_channel().spec_available(old(c).spec_pos()),
            final(c).spec_pos() == self.history().len(),
    {
        self.channel.drain(c)
    }

    /// This backend with its loop marked running and nothing else changed.
    pub closed spec fn spec_started(self) -> DefiLlamaProvider {
        DefiLlamaProvider {
            poll: PollState { running: true, ..self.poll },
            ..self
        }
    }

    /// What `spec_started` moves and what it leaves alone.
    pub proof fn lemma_started_frame(p: DefiLlamaProvider)
        ensures
            p.spec_started().spec_table() == p.spec_table(),
            p.spec_started().spec_channel() == p.spec_channel(),
            p.spec_started().spec_interval() == p.spec_interval(),
            p.spec_started().spec_poll() == (PollState {
                running: true,
                cycles: p.spec_poll().cycles,
                consecutive_failures: p.spec_poll().consecutive_failures,
            }),
            p.wf() ==> p.spec_started().wf(),
    {
    }

    /// Marks this backend's polling loop as running; returns whether a
    /// background task is newly spawned.
    pub fn start(&mut self) -> (spawned: bool)
        requires
            old(self).wf(),
        ensures
            final(self).wf(),
            spawned == !old(self).spec_poll().running,
            *final(self) == old(self).spec_started(),
            final(self).spec_poll().running,
            final(self).spec_table() == old(self).spec_table(),
            final(self).spec_channel() == old(self).spec_channel(),
            final(self).spec_interval() == old(self).spec_interval(),
    {
        self.poll.start()
    }

    /// Cancels this backend's polling loop: its task exits at the next
    /// tick instead of fetching.
    pub fn stop(&mut self)
        requires
            old(self).wf(),
        ensures
            final(self).wf(),
            !final(self).spec_poll().running,
            final(self).spec_poll().cycles == old(self).spec_poll().cycles,
            final(self).spec_table() == old(self).spec_table(),
            final(self).spec_channel() == old(self).spec_channel(),
            final(self).spec_interval() == old(self).spec_interval(),
    {
        self.poll.stop()
    }

    /// Begins a fetch cycle: the operational fetch counter rises.
    pub fn begin_cycle(&mut self)
        requires
            old(self).wf(),
        ensures
            final(self).wf(),
            final(self).spec_poll().running == old(self).spec_poll().running,
            final(self).spec_poll().consecutive_failures == old(self).spec_poll().consecutive_failures,
            final(self).spec_poll().cycles >= old(self).spec_poll().cycles,
            old(self).spec_poll().cycles < u64::MAX ==> final(self).spec_poll().cycles == old(self).spec_poll().cycles + 1,
            final(self).spec_table() == old(self).spec_table(),
            final(self).spec_channel() == old(self).spec_channel(),
            final(self).spec_interval() == old(self).spec_interval(),
    {
        self.poll.begin_cycle()
    }

    /// Decides what this backend's loop does after a fetch cycle: publish
    /// on success, retry with exponential backoff on a retryable failure,
    /// stop only after the bounded run of failures.
    pub fn on_fetch_outcome(&mut self, outcome: FetchOutcome) -> (a: TickAction)
        requires
            old(self).wf(),
            old(self).spec_poll().running,
        ensures
            final(self).wf(),
            final(self).spec_poll().running == !(a is Escalate),
            final(self).spec_poll().cycles == old(self).spec_poll().cycles,
            outcome is Fetched ==> a is Publish && final(self).spec_poll().consecutive_failures
                == 0,
            !(outcome is Fetched) && old(self).spec_poll().consecutive_failures + 1
                < crate::poll::MAX_CONSECUTIVE_FAILURES ==> final(self).spec_poll().consecutive_failures
                == old(self).spec_poll().consecutive_failures + 1 && a == TickAction::RetryAfter(
                crate::poll::spec_backoff((old(self).spec_poll().consecutive_failures + 1) as nat) as u64,
            ),
            !(outcome is Fetched) && old(self).spec_poll().consecutive_failures + 1
                >= crate::poll::MAX_CONSECUTIVE_FAILURES ==> a is Escalate && final(self).spec_poll().consecutive_failures
                == 0,
            final(self).spec_table() == old(self).spec_table(),
            final(self).spec_channel() == old(self).spec_channel(),
            final(self).spec_interval() == old(self).spec_interval(),
    {
        self.poll.on_fetch_outcome(outcome)
    }

    /// Whether this backend's polling loop is marked running.
    pub fn is_running(&self) -> (r: bool)
        ensures
            r == self.spec_poll().running,
    {
        self.poll.running
    }
}

} // verus!
