use vstd::multiset::Multiset;
use vstd::prelude::*;

use crate::asset::Asset;
use crate::asset::AssetPriceEvent;
use crate::channel::Cursor;
use crate::provider::DefiLlamaProvider;

verus! {

/// One merged subscription surface over a distributor's backends: an
/// independent receiver leg per backend.
pub struct Subscription {
    cursors: Vec<Cursor>,
}

impl Subscription {
    /// Each leg's position in its backend's publish history.
    pub closed spec fn spec_positions(self) -> Seq<int> {
        self.cursors@.map_values(|c: Cursor| c.spec_pos())
    }
}

/// The events one merged poll yields: every backend's available events,
/// each backend's own events in publish order, backends in registration
/// order. (Which interleaving a live merge produces is unspecified; this
/// one is a valid one, and `lemma_merge_complete` states what any caller
/// may rely on: nothing is lost.)
pub open spec fn spec_merged(
    providers: Seq<DefiLlamaProvider>,
    positions: Seq<int>,
) -> Seq<AssetPriceEvent>
    decreases providers.len(),
{
    if providers.len() == 0 {
        Seq::empty()
    } else {
        spec_merged(providers.drop_last(), positions.drop_last())
            + providers.last().spec_channel().spec_available(positions.last())
    }
}

/// Merge correctness: every event any backend had available appears in the
/// merged sequence.
pub proof fn lemma_merge_complete(
    providers: Seq<DefiLlamaProvider>,
    positions: Seq<int>,
    i: int,
    k: int,
)
    requires
        providers.len() == positions.len(),
        0 <= i < providers.len(),
        0 <= k < providers[i].spec_channel().spec_available(positions[i]).len(),
    ensures
        exists|m: int|
            0 <= m < spec_merged(providers, positions).len() && spec_merged(providers, positions)[m]
                == providers[i].spec_channel().spec_available(positions[i])[k],
    decreases providers.len(),
{
    let merged = spec_merged(providers, positions);
    let prefix = spec_merged(providers.drop_last(), positions.drop_last());
    if i == providers.len() - 1 {
        let m = prefix.len() + k;
        assert(merged[m] == providers[i].spec_channel().spec_available(positions[i])[k]);
    } else {
        lemma_merge_complete(providers.drop_last(), positions.drop_last(), i, k);
        let m = choose|m: int|
            0 <= m < prefix.len() && prefix[m] == providers[i].spec_channel().spec_available(
                positions[i],
            )[k];
        assert(merged[m] == prefix[m]);
    }
}

/// The events one merged poll owes, counted: the sum, as a multiset, of
/// what each backend had available.
pub open spec fn spec_merged_multiset(
    providers: Seq<DefiLlamaProvider>,
    positions: Seq<int>,
) -> Multiset<AssetPriceEvent>
    decreases providers.len(),
{
    if providers.len() == 0 {
        Multiset::empty()
    } else {
        spec_merged_multiset(providers.drop_last(), positions.drop_last()).add(
            providers.last().spec_channel().spec_available(positions.last()).to_multiset(),
        )
    }
}

/// Merge correctness, counted: the merged sequence holds exactly the
/// available events of every backend — nothing lost, nothing invented,
/// duplicates kept apart — whatever the interleaving.
pub proof fn lemma_merge_multiset(providers: Seq<DefiLlamaProvider>, positions: Seq<int>)
    requires
        providers.len() == positions.len(),
    ensures
        spec_merged(providers, positions).to_multiset() == spec_merged_multiset(
            providers,
            positions,
        ),
    decreases providers.len(),
{
    broadcast use vstd::seq_lib::group_to_multiset_ensures;

    if providers.len() == 0 {
        assert(spec_merged(providers, positions).to_multiset() =~= Multiset::empty());
    } else {
        lemma_merge_multiset(providers.drop_last(), positions.drop_last());
        vstd::seq_lib::lemma_multiset_commutative(
            spec_merged(providers.drop_last(), positions.drop_last()),
            providers.last().spec_channel().spec_available(positions.last()),
        );
    }
}

/// What one call of `start` does: on a distributor already running it is a
/// no-op that spawns nothing; on one not yet running it marks every
/// backend's loop running, spawning exactly one task per backend.
pub open spec fn start_transition(
    pre: PriceService,
    post: PriceService,
    spawned: nat,
) -> bool {
    if pre.spec_is_running() {
        post == pre && spawned == 0
    } else {
        &&& post.spec_is_running()
        &&& spawned == pre.spec_providers().len()
        &&& post.spec_providers().len() == pre.spec_providers().len()
        &&& forall|i: int|
            0 <= i < pre.spec_providers().len() ==> #[trigger] post.spec_providers()[i]
                == pre.spec_providers()[i].spec_started()
    }
}

/// Idempotent start: across two consecutive starts of a distributor that
/// was not yet running, exactly one background task per backend is spawned
/// in total — the first call spawns them all, the second spawns none.
pub proof fn lemma_start_idempotent(
    s0: PriceService,
    s1: PriceService,
    s2: PriceService,
    n1: nat,
    n2: nat,
)
    requires
        !s0.spec_is_running(),
        start_transition(s0, s1, n1),
        start_transition(s1, s2, n2),
    ensures
        n1 == s0.spec_providers().len(),
        n2 == 0,
        n1 + n2 == s0.spec_providers().len(),
{
}

/// Orchestrates one or more polling backends: forwards registration to all
/// of them, starts their background loops exactly once, and merges their
/// independent event streams into one subscription surface.
pub struct PriceService {
    providers: Vec<DefiLlamaProvider>,
    is_running: bool,
}

impl PriceService {
    pub closed spec fn spec_providers(self) -> Seq<DefiLlamaProvider> {
        self.providers@
    }

    pub closed spec fn spec_is_running(self) -> bool {
        self.is_running
    }

    pub open spec fn wf(self) -> bool {
        forall|i: int|
            0 <= i < self.spec_providers().len() ==> #[trigger] self.spec_providers()[i].wf()
    }

    /// A distributor over the given backends, not yet running.
    pub fn new(providers: Vec<DefiLlamaProvider>) -> (r: PriceService)
        requires
            forall|i: int| 0 <= i < providers@.len() ==> #[trigger] providers@[i].wf(),
        ensures
            r.wf(),
            r.spec_providers() == providers@,
            !r.spec_is_running(),
    {
        PriceService { providers, is_running: false }
    }

    pub fn provider_count(&self) -> (r: usize)
        ensures
            r == self.spec_providers().len(),
    {
        self.providers.len()
    }

    pub fn is_running(&self) -> (r: bool)
        ensures
            r == self.spec_is_running(),
    {
        self.is_running
    }

    /// Forwards a registration to every backend independently; each
    /// backend's registration always succeeds, so the aggregate call never
    /// fails the caller.
    pub fn add_asset(&mut self, asset: Asset)
        requires
            old(self).wf(),
        ensures
            final(self).wf(),
            final(self).spec_is_running() == old(self).spec_is_running(),
            final(self).spec_providers().len() == old(self).spec_providers().len(),
            forall|i: int|
                0 <= i < final(self).spec_providers().len() ==> {
                    let p = #[trigger] final(self).spec_providers()[i];
                    let q = old(self).spec_providers()[i];
                    &&& p.spec_table().spec_lookup(asset.address@) == Some(asset)
                    &&& forall|a: Seq<char>|
                        a != asset.address@ ==> p.spec_table().spec_lookup(a)
                            == q.spec_table().spec_lookup(a)
                    &&& p.spec_channel() == q.spec_channel()
                    &&& p.spec_poll() == q.spec_poll()
                    &&& p.spec_interval() == q.spec_interval()
                },
    {
        let n = self.providers.len();
        let mut i: usize = 0;
        while i < n
            invariant
                i <= n,
                n == self.providers@.len(),
                self.is_running == old(self).is_running,
                forall|j: int| i <= j < n ==> self.providers@[j] == old(self).providers@[j],
                forall|j: int| 0 <= j < n ==> (#[trigger] self.providers@[j]).wf(),
                forall|j: int|
                    0 <= j < i ==> {
                        let p = #[trigger] self.providers@[j];
                        let q = old(self).providers@[j];
                        &&& p.spec_table().spec_lookup(asset.address@) == Some(asset)
                        &&& forall|a: Seq<char>|
                            a != asset.address@ ==> p.spec_table().spec_lookup(a)
                                == q.spec_table().spec_lookup(a)
                        &&& p.spec_channel() == q.spec_channel()
                        &&& p.spec_poll() == q.spec_poll()
                        &&& p.spec_interval() == q.spec_interval()
                    },
            decreases n - i,
        {
            self.providers[i].add_asset(asset.clone());
            i = i + 1;
        }
    }

    /// Forwards a removal to every backend independently.
    pub fn remove_asset(&mut self, asset_address: &str)
        requires
            old(self).wf(),
        ensures
            final(self).wf(),
            final(self).spec_is_running() == old(self).spec_is_running(),
            final(self).spec_providers().len() == old(self).spec_providers().len(),
            forall|i: int|
                0 <= i < final(self).spec_providers().len() ==> {
                    let p = #[trigger] final(self).spec_providers()[i];
                    let q = old(self).spec_providers()[i];
                    &&& p.spec_table().spec_lookup(asset_address@) is None
                    &&& forall|a: Seq<char>|
                        a != asset_address@ ==> p.spec_table().spec_lookup(a)
                            == q.spec_table().spec_lookup(a)
                    &&& p.spec_channel() == q.spec_channel()
                    &&& p.spec_poll() == q.spec_poll()
                    &&& p.spec_interval() == q.spec_interval()
                },
    {
        let n = self.providers.len();
        let mut i: usize = 0;
        while i < n
            invariant
                i <= n,
                n == self.providers@.len(),
                self.is_running == old(self).is_running,
                forall|j: int| i <= j < n ==> self.providers@[j] == old(self).providers@[j],
                forall|j: int| 0 <= j < n ==> (#[trigger] self.providers@[j]).wf(),
                forall|j: int|
                    0 <= j < i ==> {
                        let p = #[trigger] self.providers@[j];
                        let q = old(self).providers@[j];
                        &&& p.spec_table().spec_lookup(asset_address@) is None
                        &&& forall|a: Seq<char>|
                            a != asset_address@ ==> p.spec_table().spec_lookup(a)
                                == q.spec_table().spec_lookup(a)
                        &&& p.spec_channel() == q.spec_channel()
                        &&& p.spec_poll() == q.spec_poll()
                        &&& p.spec_interval() == q.spec_interval()
                    },
            decreases n - i,
        {
            self.providers[i].remove_asset(asset_address);
            i = i + 1;
        }
    }

    /// Starts every backend's background loop, once: a flag records that
    /// start has run, and a repeat call is a no-op. Returns how many tasks
    /// this call spawned.
    pub fn start(&mut self) -> (spawned: usize)
        requires
            old(self).wf(),
        ensures
            final(self).wf(),
            start_transition(*old(self), *final(self), spawned as nat),
            final(self).spec_is_running(),
    {
        if self.is_running {
            return 0;
        }
        proof {
            assert forall|j: int| 0 <= j < self.providers@.len() implies (
            #[trigger] self.providers@[j]).wf() by {
                assert(self.spec_providers()[j].wf());
            }
        }
        let n = self.providers.len();
        let mut i: usize = 0;
        while i < n
            invariant
                i <= n,
                n == self.providers@.len(),
                self.is_running == old(self).is_running,
                forall|j: int| i <= j < n ==> self.providers@[j] == old(self).providers@[j],
                forall|j: int| 0 <= j < n ==> (#[trigger] self.providers@[j]).wf(),
                forall|j: int|
                    0 <= j < i ==> #[trigger] self.providers@[j] == old(self).providers@[j].spec_started(),
            decreases n - i,
        {
            self.providers[i].start();
            i = i + 1;
        }
        self.is_running = true;
        n
    }

    /// Whether one backend's polling loop is marked running.
    pub fn running_of(&self, i: usize) -> (r: bool)
        requires
            i < self.spec_providers().len(),
        ensures
            r == self.spec_providers()[i as int].spec_poll().running,
    {
        self.providers[i].is_running()
    }

    /// The fetch interval of one backend, in seconds.
    pub fn interval_of(&self, i: usize) -> (r: u64)
        requires
            i < self.spec_providers().len(),
        ensures
            r == self.spec_providers()[i as int].spec_interval(),
    {
        self.providers[i].fetch_interval()
    }

    /// The read-consistent snapshot one backend's fetch cycle works from.
    pub fn snapshot_of(&self, i: usize) -> (r: crate::table::AssetTable)
        requires
            self.wf(),
            i < self.spec_providers().len(),
        ensures
            r.spec_assets() == self.spec_providers()[i as int].spec_table().spec_assets(),
            r.wf(),
    {
        proof {
            assert(self.spec_providers()[i as int].wf());
        }
        self.providers[i].snapshot()
    }

    /// Begins a fetch cycle on one backend: its operational counter rises.
    pub fn begin_cycle_of(&mut self, i: usize)
        requires
            old(self).wf(),
            i < old(self).spec_providers().len(),
        ensures
            final(self).wf(),
            final(self).spec_is_running() == old(self).spec_is_running(),
            final(self).spec_providers().len() == old(self).spec_providers().len(),
            forall|j: int|
                0 <= j < old(self).spec_providers().len() && j != i
                    ==> final(self).spec_providers()[j] == old(self).spec_providers()[j],
            final(self).spec_providers()[i as int].spec_poll().running == old(self).spec_providers()[i as int].spec_poll().running,
            final(self).spec_providers()[i as int].spec_poll().cycles >= old(self).spec_providers()[i as int].spec_poll().cycles,
            old(self).spec_providers()[i as int].spec_poll().cycles < u64::MAX ==> final(self).spec_providers()[i as int].spec_poll().cycles == old(self).spec_providers()[
                i as int].spec_poll().cycles + 1,
            final(self).spec_providers()[i as int].spec_table() == old(self).spec_providers()[
                i as int].spec_table(),
            final(self).spec_providers()[i as int].spec_channel() == old(self).spec_providers()[
                i as int].spec_channel(),
    {
        proof {
            assert(self.spec_providers()[i as int].wf());
        }
        self.providers[i].begin_cycle();
    }

    /// Decides what one backend's loop does after a fetch cycle.
    pub fn on_fetch_outcome_of(&mut self, i: usize, outcome: crate::poll::FetchOutcome) -> (a:
        crate::poll::TickAction)
        requires
            old(self).wf(),
            i < old(self).spec_providers().len(),
            old(self).spec_providers()[i as int].spec_poll().running,
        ensures
            final(self).wf(),
            final(self).spec_is_running() == old(self).spec_is_running(),
            final(self).spec_providers().len() == old(self).spec_providers().len(),
            forall|j: int|
                0 <= j < old(self).spec_providers().len() && j != i
                    ==> final(self).spec_providers()[j] == old(self).spec_providers()[j],
            final(self).spec_providers()[i as int].spec_poll().running == !(a is Escalate),
            outcome is Fetched ==> a is Publish,
            !(outcome is Fetched) && old(self).spec_providers()[i as int].spec_poll().consecutive_failures
                + 1 < crate::poll::MAX_CONSECUTIVE_FAILURES ==> a == crate::poll::TickAction::RetryAfter(
                crate::poll::spec_backoff(
                    (old(self).spec_providers()[i as int].spec_poll().consecutive_failures
                        + 1) as nat,
                ) as u64,
            ),
            !(outcome is Fetched) && old(self).spec_providers()[i as int].spec_poll().consecutive_failures
                + 1 >= crate::poll::MAX_CONSECUTIVE_FAILURES ==> a is Escalate,
            final(self).spec_providers()[i as int].spec_table() == old(self).spec_providers()[
                i as int].spec_table(),
            final(self).spec_providers()[i as int].spec_channel() == old(self).spec_providers()[
                i as int].spec_channel(),
    {
        proof {
            assert(self.spec_providers()[i as int].wf());
        }
        self.providers[i].on_fetch_outcome(outcome)
    }

    /// Publishes a fetch cycle's events onto one backend's channel.
    pub fn publish_from(&mut self, i: usize, events: Vec<AssetPriceEvent>)
        requires
            old(self).wf(),
            i < old(self).spec_providers().len(),
        ensures
            final(self).wf(),
            final(self).spec_is_running() == old(self).spec_is_running(),
            final(self).spec_providers().len() == old(self).spec_providers().len(),
            forall|j: int|
                0 <= j < old(self).spec_providers().len() && j != i
                    ==> final(self).spec_providers()[j] == old(self).spec_providers()[j],
            old(self).spec_providers()[i as int].history().len() + events@.len() < u64::MAX
                ==> final(self).spec_providers()[i as int].history()
                    == old(self).spec_providers()[i as int].history() + events@,
            final(self).spec_providers()[i as int].spec_table() == old(self).spec_providers()[
                i as int].spec_table(),
            final(self).spec_providers()[i as int].spec_poll() == old(self).spec_providers()[
                i as int].spec_poll(),
    {
        proof {
            assert(self.spec_providers()[i as int].wf());
        }
        self.providers[i].publish_all(events);
    }

    /// Stops every backend's polling loop and clears the distributor's
    /// running flag, so that a later `start` may spawn fresh tasks. The
    /// tables, the channels and everything already published stay as they
    /// are.
    pub fn stop(&mut self)
        requires
            old(self).wf(),
        ensures
            final(self).wf(),
            !final(self).spec_is_running(),
            final(self).spec_providers().len() == old(self).spec_providers().len(),
            forall|i: int|
                0 <= i < old(self).spec_providers().len() ==> {
                    let p = #[trigger] final(self).spec_providers()[i];
                    let q = old(self).spec_providers()[i];
                    &&& !p.spec_poll().running
                    &&& p.spec_table() == q.spec_table()
                    &&& p.spec_channel() == q.spec_channel()
                    &&& p.spec_interval() == q.spec_interval()
                },
    {
        let n = self.providers.len();
        let mut i: usize = 0;
        while i < n
            invariant
                i <= n,
                n == self.providers@.len(),
                forall|j: int| i <= j < n ==> self.providers@[j] == old(self).providers@[j],
                forall|j: int| 0 <= j < n ==> (#[trigger] self.providers@[j]).wf(),
                forall|j: int|
                    0 <= j < i ==> {
                        let p = #[trigger] self.providers@[j];
                        let q = old(self).providers@[j];
                        &&& !p.spec_poll().running
                        &&& p.spec_table() == q.spec_table()
                        &&& p.spec_channel() == q.spec_channel()
                        &&& p.spec_interval() == q.spec_interval()
                    },
            decreases n - i,
        {
            self.providers[i].stop();
            i = i + 1;
        }
        self.is_running = false;
    }

    /// A new merged subscription: one independent leg per backend, each
    /// positioned at the live end of its backend's channel. Every call
    /// creates a fresh, restartable fan-out.
    pub fn subscribe(&self) -> (r: Subscription)
        requires
            self.wf(),
        ensures
            r.spec_positions().len() == self.spec_providers().len(),
            forall|i: int|
                0 <= i < self.spec_providers().len() ==> #[trigger] r.spec_positions()[i]
                    == self.spec_providers()[i].history().len(),
    {
        let n = self.providers.len();
        let mut cursors: Vec<Cursor> = Vec::new();
        let mut i: usize = 0;
        while i < n
            invariant
                i <= n,
                n == self.providers@.len(),
                self.wf(),
                cursors@.len() == i,
                forall|j: int|
                    0 <= j < i ==> (#[trigger] cursors@[j]).spec_pos()
                        == self.spec_providers()[j].history().len(),
            decreases n - i,
        {
            proof {
                assert(self.spec_providers()[i as int].wf());
            }
            cursors.push(self.providers[i].subscribe());
            i = i + 1;
        }
        let r = Subscription { cursors };
        proof {
            assert(r.spec_positions().len() == n);
            assert forall|i: int| 0 <= i < n implies #[trigger] r.spec_positions()[i]
                == self.spec_providers()[i].history().len() by {
                assert(r.spec_positions()[i] == r.cursors@[i].spec_pos());
            }
        }
        r
    }

    /// One merged poll: every event currently available on any backend's
    /// channel, merged into one sequence, each subscription leg left at the
    /// live end of its backend.
    pub fn poll_subscription(&self, sub: &mut Subscription) -> (r: Vec<AssetPriceEvent>)
        requires
            self.wf(),
            old(sub).spec_positions().len() == self.spec_providers().len(),
            forall|i: int|
                0 <= i < self.spec_providers().len() ==> 0 <= #[trigger] old(
                    sub,
                ).spec_positions()[i] <= self.spec_providers()[i].history().len(),
        ensures
            r@ == spec_merged(self.spec_providers(), old(sub).spec_positions()),
            final(sub).spec_positions().len() == self.spec_providers().len(),
            forall|i: int|
                0 <= i < self.spec_providers().len() ==> #[trigger] final(sub).spec_positions()[i]
                    == self.spec_providers()[i].history().len(),
    {
        let ghost positions0 = old(sub).spec_positions();
        let n = self.providers.len();
        let mut out: Vec<AssetPriceEvent> = Vec::new();
        let mut i: usize = 0;
        proof {
            assert(sub.cursors@.map_values(|c: Cursor| c.spec_pos()) == positions0);
            assert(spec_merged(
                self.spec_providers().take(0),
                positions0.take(0),
            ) =~= Seq::<AssetPriceEvent>::empty());
        }
        while i < n
            invariant
                i <= n,
                n == self.providers@.len(),
                self.wf(),
                sub.cursors@.len() == n,
                positions0.len() == n,
                forall|j: int|
                    i <= j < n ==> (#[trigger] sub.cursors@[j]).spec_pos() == positions0[j],
                forall|j: int|
                    0 <= j < n ==> 0 <= #[trigger] positions0[j]
                        <= self.spec_providers()[j].history().len(),
                forall|j: int|
                    0 <= j < i ==> (#[trigger] sub.cursors@[j]).spec_pos()
                        == self.spec_providers()[j].history().len(),
                out@ == spec_merged(
                    self.spec_providers().take(i as int),
                    positions0.take(i as int),
                ),
            decreases n - i,
        {
            let mut part = self.providers[i].drain(&mut sub.cursors[i]);
            out.append(&mut part);
            proof {
                let ps = self.spec_providers();
                assert(ps.take(i + 1).drop_last() =~= ps.take(i as int));
                assert(positions0.take(i + 1).drop_last() =~= positions0.take(i as int));
                assert(ps.take(i + 1).last() == ps[i as int]);
                assert(positions0.take(i + 1).last() == positions0[i as int]);
            }
            i = i + 1;
        }
        proof {
            assert(self.spec_providers().take(n as int) =~= self.spec_providers());
            assert(positions0.take(n as int) =~= positions0);
            assert forall|j: int| 0 <= j < n implies #[trigger] sub.spec_positions()[j]
                == self.spec_providers()[j].history().len() by {
                assert(sub.spec_positions()[j] == sub.cursors@[j].spec_pos());
            }
        }
        out
    }
}

} // verus!
