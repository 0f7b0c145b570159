use vstd::prelude::*;

use crate::asset::AssetPriceEvent;

verus! {

/// A receiver's position in a broadcast channel: the sequence number of the
/// next event it has not yet consumed.
pub struct Cursor {
    next: u64,
}

impl Cursor {
    pub closed spec fn spec_pos(self) -> int {
        self.next as int
    }

    pub fn position(&self) -> (r: u64)
        ensures
            r as int == self.spec_pos(),
    {
        self.next
    }
}

/// What one poll of a subscription yields.
pub enum RecvResult {
    /// No event is pending for this receiver.
    Empty,
    /// The next pending event. `skipped` counts the older events this
    /// receiver lost because they were evicted from the bounded buffer
    /// before it polled (lossy delivery, not an error).
    Received { event: AssetPriceEvent, skipped: u64 },
}

/// A lossy broadcast channel with a bounded buffer: publishing never blocks
/// and never fails, and a receiver that falls more than the capacity behind
/// loses the oldest events it has not yet consumed.
///
/// The buffer holds the most recent events of the full publish history;
/// the history itself is ghost state that the contracts speak of.
pub struct Broadcaster {
    buf: Vec<AssetPriceEvent>,
    head: u64,
    published: u64,
    cap: usize,
    hist: Ghost<Seq<AssetPriceEvent>>,
}

impl Broadcaster {
    /// Every event ever published on this channel, in publish order.
    pub closed spec fn history(self) -> Seq<AssetPriceEvent> {
        self.hist@
    }

    /// The buffer's bound: how many unread events a receiver can be behind
    /// before it starts losing them.
    pub closed spec fn capacity(self) -> int {
        self.cap as int
    }

    /// The sequence number of the oldest event still buffered.
    pub open spec fn spec_first_buffered(self) -> int {
        if self.history().len() <= self.capacity() {
            0
        } else {
            self.history().len() - self.capacity()
        }
    }

    pub closed spec fn wf(self) -> bool {
        &&& self.cap >= 1
        &&& self.published == self.hist@.len()
        &&& self.head as int == self.spec_first_buffered()
        &&& self.buf@ == self.hist@.subrange(self.head as int, self.hist@.len() as int)
    }

    pub fn new(capacity: usize) -> (r: Broadcaster)
        requires
            capacity >= 1,
        ensures
            r.wf(),
            r.history() == Seq::<AssetPriceEvent>::empty(),
            r.capacity() == capacity,
    {
        let r = Broadcaster {
            buf: Vec::new(),
            head: 0,
            published: 0,
            cap: capacity,
            hist: Ghost(Seq::empty()),
        };
        proof {
            assert(r.buf@ =~= r.hist@.subrange(0, 0));
        }
        r
    }

    pub fn published_count(&self) -> (r: u64)
        requires
            self.wf(),
        ensures
            r as int == self.history().len(),
    {
        self.published
    }

    /// Publishes an event: appended to the history, evicting the oldest
    /// buffered event when the buffer is full. Never blocks, never fails,
    /// whether or not anyone subscribed. (At the u64 sequence limit the
    /// channel stops accepting, a bound no process reaches.)
    pub fn publish(&mut self, e: AssetPriceEvent)
        requires
            old(self).wf(),
        ensures
            final(self).wf(),
            final(self).capacity() == old(self).capacity(),
            old(self).history().len() < u64::MAX ==> final(self).history() == old(
                self,
            ).history().push(e),
            old(self).history().len() == u64::MAX ==> final(self).history() == old(self).history(),
    {
        if self.published == u64::MAX {
            return ;
        }
        self.buf.push(e);
        proof {
            self.hist@ = self.hist@.push(e);
        }
        self.published = self.published + 1;
        if self.buf.len() > self.cap {
            self.buf.remove(0);
            self.head = self.head + 1;
        }
        proof {
            assert(self.buf@ =~= self.hist@.subrange(
                self.head as int,
                self.hist@.len() as int,
            ));
        }
    }

    /// A new independent receiver, positioned at the live end: it sees the
    /// events published from now on.
    pub fn subscribe(&self) -> (c: Cursor)
        requires
            self.wf(),
        ensures
            c.spec_pos() == self.history().len(),
    {
        Cursor { next: self.published }
    }

    /// The events a receiver at position `pos` can still consume: the
    /// history from `pos` on, less whatever the bounded buffer already
    /// evicted.
    pub open spec fn spec_available(self, pos: int) -> Seq<AssetPriceEvent> {
        if pos < self.spec_first_buffered() {
            self.history().subrange(self.spec_first_buffered(), self.history().len() as int)
        } else {
            self.history().subrange(pos, self.history().len() as int)
        }
    }

    /// Consumes every event still available to a receiver, in publish
    /// order, leaving the receiver at the live end.
    pub fn drain(&self, c: &mut Cursor) -> (r: Vec<AssetPriceEvent>)
        requires
            self.wf(),
            0 <= old(c).spec_pos() <= self.history().len(),
        ensures
            r@ == self.spec_available(old(c).spec_pos()),
            final(c).spec_pos() == self.history().len(),
    {
        let ghost start0 = if old(c).spec_pos() < self.spec_first_buffered() {
            self.spec_first_buffered()
        } else {
            old(c).spec_pos()
        };
        let mut out: Vec<AssetPriceEvent> = Vec::new();
        loop
            invariant
                self.wf(),
                0 <= c.spec_pos() <= self.history().len(),
                start0 == if old(c).spec_pos() < self.spec_first_buffered() {
                    self.spec_first_buffered()
                } else {
                    old(c).spec_pos()
                },
                out@.len() == 0 ==> c.spec_pos() == old(c).spec_pos(),
                out@.len() > 0 ==> c.spec_pos() == start0 + out@.len() && out@
                    == self.history().subrange(start0, c.spec_pos()),
            decreases self.history().len() - c.spec_pos() + if out@.len() == 0 {
                1int
            } else {
                0int
            },
        {
            match self.recv(c) {
                RecvResult::Empty => {
                    proof {
                        assert(c.spec_pos() == self.history().len());
                        if out@.len() == 0 {
                            assert(start0 == self.history().len());
                            assert(out@ =~= self.spec_available(old(c).spec_pos()));
                        } else {
                            assert(out@ =~= self.spec_available(old(c).spec_pos()));
                        }
                    }
                    return out;
                },
                RecvResult::Received { event, .. } => {
                    out.push(event);
                    proof {
                        assert(out@ =~= self.history().subrange(start0, c.spec_pos()));
                    }
                },
            }
        }
    }

    /// Polls one event for a receiver. A receiver that fell behind the
    /// buffer resumes at the oldest buffered event; the events before it
    /// are lost and counted in `skipped`.
    pub fn recv(&self, c: &mut Cursor) -> (r: RecvResult)
        requires
            self.wf(),
            0 <= old(c).spec_pos() <= self.history().len(),
        ensures
            final(c).spec_pos() <= self.history().len(),
            old(c).spec_pos() == self.history().len() ==> r is Empty && final(c).spec_pos() == old(
                c,
            ).spec_pos(),
            old(c).spec_pos() < self.history().len() ==> {
                let p = if old(c).spec_pos() < self.spec_first_buffered() {
                    self.spec_first_buffered()
                } else {
                    old(c).spec_pos()
                };
                &&& r matches RecvResult::Received { event, skipped } ==> event == self.history()[p]
                    && skipped == p - old(c).spec_pos()
                &&& r is Received
                &&& final(c).spec_pos() == p + 1
            },
    {
        if c.next == self.published {
            return RecvResult::Empty;
        }
        let start = if c.next < self.head {
            self.head
        } else {
            c.next
        };
        let idx = (start - self.head) as usize;
        let event = self.buf[idx].clone();
        let skipped = start - c.next;
        c.next = start + 1;
        RecvResult::Received { event, skipped }
    }
}

/// Lossy broadcast: while a subscriber does not poll, publishes beyond the
/// channel's capacity cost it exactly the oldest unread events — the next
/// poll resumes at `history().len() - capacity()`, skipping the
/// `history().len() - capacity() - pos` events before it — and the
/// publisher is never blocked or failed by the lagging subscriber
/// (`publish` is total for every channel state).
pub proof fn lemma_lossy_gap(b: Broadcaster, pos: int)
    requires
        b.wf(),
        0 <= pos,
        pos + b.capacity() < b.history().len(),
    ensures
        b.spec_first_buffered() == b.history().len() - b.capacity(),
        b.spec_first_buffered() > pos,
{
}

} // verus!
