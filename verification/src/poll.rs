use vstd::prelude::*;

verus! {

/// How many fetch failures in a row a backend tolerates before its polling
/// loop stops.
pub const MAX_CONSECUTIVE_FAILURES: u32 = 5;

/// How one fetch cycle ended. The two failure classes are both retryable.
#[derive(Clone, Copy, Debug, PartialEq, Eq, Structural)]
pub enum FetchOutcome {
    /// The batched request came back and parsed.
    Fetched,
    /// The network call failed or timed out.
    TransportFailure,
    /// The response body did not parse.
    DeserializationFailure,
}

/// What the polling loop does next after a fetch cycle.
#[derive(Clone, Copy, Debug, PartialEq, Eq, Structural)]
pub enum TickAction {
    /// Publish this cycle's events to the broadcast channel.
    Publish,
    /// Keep the loop alive and wait this many seconds before the next cycle.
    RetryAfter(u64),
    /// Too many failures in a row: stop the loop and clear the running flag.
    Escalate,
}

/// The backoff before retry number `failures`: doubling from one second,
/// capped at 512 seconds.
pub open spec fn spec_backoff(failures: nat) -> nat {
    if failures <= 1 {
        1
    } else if failures == 2 {
        2
    } else if failures == 3 {
        4
    } else if failures == 4 {
        8
    } else if failures == 5 {
        16
    } else if failures == 6 {
        32
    } else if failures == 7 {
        64
    } else if failures == 8 {
        128
    } else if failures == 9 {
        256
    } else {
        512
    }
}

/// The backoff is exponential: each further failure doubles the wait,
/// up to the cap.
pub proof fn lemma_backoff_doubles(failures: nat)
    requires
        1 <= failures <= 9,
    ensures
        spec_backoff(failures + 1) == 2 * spec_backoff(failures),
{
}

pub fn backoff_secs(failures: u32) -> (r: u64)
    ensures
        r as nat == spec_backoff(failures as nat),
{
    if failures <= 1 {
        1
    } else if failures == 2 {
        2
    } else if failures == 3 {
        4
    } else if failures == 4 {
        8
    } else if failures == 5 {
        16
    } else if failures == 6 {
        32
    } else if failures == 7 {
        64
    } else if failures == 8 {
        128
    } else if failures == 9 {
        256
    } else {
        512
    }
}

/// The state of one backend's polling loop.
///
/// A naive loop would end silently on the first fetch failure and leave
/// the running flag stale. This machine deliberately does not: a failed
/// fetch is retried with exponential backoff, and only
/// `MAX_CONSECUTIVE_FAILURES` failures in a row stop the loop, clearing
/// the running flag as they do.
pub struct PollState {
    /// Whether the background task is (to be) running.
    pub running: bool,
    /// Operational counter of fetch cycles begun, for the telemetry sink.
    pub cycles: u64,
    /// Failures since the last successful fetch.
    pub consecutive_failures: u32,
}

impl PollState {
    pub open spec fn wf(self) -> bool {
        self.consecutive_failures < MAX_CONSECUTIVE_FAILURES
    }

    pub fn new() -> (r: PollState)
        ensures
            r.wf(),
            !r.running,
            r.cycles == 0,
            r.consecutive_failures == 0,
    {
        PollState { running: false, cycles: 0, consecutive_failures: 0 }
    }

    /// Marks the loop as running. Returns whether a task is newly spawned:
    /// starting an already running loop spawns nothing.
    pub fn start(&mut self) -> (spawned: bool)
        ensures
            spawned == !old(self).running,
            final(self).running,
            final(self).cycles == old(self).cycles,
            final(self).consecutive_failures == old(self).consecutive_failures,
    {
        let spawned = !self.running;
        self.running = true;
        spawned
    }

    /// Cancels the loop: the running flag is cleared, and the background
    /// task exits at its next tick without terminating the whole process.
    pub fn stop(&mut self)
        ensures
            !final(self).running,
            final(self).cycles == old(self).cycles,
            final(self).consecutive_failures == old(self).consecutive_failures,
    {
        self.running = false;
    }

    /// Begins a fetch cycle: the operational counter rises by one. The
    /// counter is monotone; it saturates only at the u64 limit.
    pub fn begin_cycle(&mut self)
        ensures
            final(self).running == old(self).running,
            final(self).consecutive_failures == old(self).consecutive_failures,
            final(self).cycles >= old(self).cycles,
            old(self).cycles < u64::MAX ==> final(self).cycles == old(self).cycles + 1,
    {
        if self.cycles < u64::MAX {
            self.cycles = self.cycles + 1;
        }
    }

    /// Decides what the loop does after a fetch cycle: publish on success,
    /// retry with exponential backoff on a retryable failure, and stop only
    /// after `MAX_CONSECUTIVE_FAILURES` failures in a row.
    pub fn on_fetch_outcome(&mut self, outcome: FetchOutcome) -> (a: TickAction)
        requires
            old(self).wf(),
            old(self).running,
        ensures
            final(self).wf(),
            final(self).cycles == old(self).cycles,
            final(self).running == !(a is Escalate),
            outcome is Fetched ==> a is Publish && final(self).consecutive_failures == 0,
            !(outcome is Fetched) && old(self).consecutive_failures + 1
                < MAX_CONSECUTIVE_FAILURES ==> final(self).consecutive_failures == old(self).consecutive_failures + 1
                && a == TickAction::RetryAfter(
                spec_backoff((old(self).consecutive_failures + 1) as nat) as u64,
            ),
            !(outcome is Fetched) && old(self).consecutive_failures + 1
                >= MAX_CONSECUTIVE_FAILURES ==> a is Escalate
                && final(self).consecutive_failures == 0,
    {
        match outcome {
            FetchOutcome::Fetched => {
                self.consecutive_failures = 0;
                TickAction::Publish
            },
            FetchOutcome::TransportFailure | FetchOutcome::DeserializationFailure => {
                let failures = self.consecutive_failures + 1;
                if failures < MAX_CONSECUTIVE_FAILURES {
                    self.consecutive_failures = failures;
                    TickAction::RetryAfter(backoff_secs(failures))
                } else {
                    self.consecutive_failures = 0;
                    self.running = false;
                    TickAction::Escalate
                }
            },
        }
    }
}

} // verus!
