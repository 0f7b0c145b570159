use vstd::prelude::*;

verus! {

/// One cached service entry: being initialized by exactly one resolver, or
/// ready with the shared instance.
pub enum ServiceSlot<V> {
    Initializing,
    Ready(V),
}

/// What a resolve step tells its caller to do.
#[derive(Clone, Copy, Debug, PartialEq, Eq, Structural)]
pub enum GetOutcome {
    /// An instance is cached; take it with `get_service_unchecked`.
    Cached,
    /// Nothing is cached and nobody is initializing: this caller — and
    /// only this caller — runs the factory, then reports with
    /// `finish_init`.
    MustInit,
    /// Another resolver is already running the factory: wait and resolve
    /// again.
    Pending,
}

pub open spec fn slots_has_key<V>(s: Seq<(u64, ServiceSlot<V>)>, key: u64) -> bool {
    exists|i: int| 0 <= i < s.len() && s[i].0 == key
}

pub open spec fn slots_key_index<V>(s: Seq<(u64, ServiceSlot<V>)>, key: u64) -> int {
    choose|i: int| 0 <= i < s.len() && s[i].0 == key
}

pub open spec fn slots_lookup<V>(s: Seq<(u64, ServiceSlot<V>)>, key: u64) -> Option<
    ServiceSlot<V>,
> {
    if slots_has_key(s, key) {
        Some(s[slots_key_index(s, key)].1)
    } else {
        None
    }
}

pub open spec fn slots_keys_unique<V>(s: Seq<(u64, ServiceSlot<V>)>) -> bool {
    forall|i: int, j: int| 0 <= i < j < s.len() ==> s[i].0 != s[j].0
}

pub proof fn lemma_slots_lookup_at<V>(s: Seq<(u64, ServiceSlot<V>)>, i: int)
    requires
        slots_keys_unique(s),
        0 <= i < s.len(),
    ensures
        slots_lookup(s, s[i].0) == Some(s[i].1),
{
    let key = s[i].0;
    assert(slots_has_key(s, key));
    let j = slots_key_index(s, key);
    if i != j {
        assert(s[i].0 != s[j].0);
    }
}

/// Manages shared service instances, one per key, resolved lazily and then
/// cached for the process lifetime.
///
/// Resolution is single flight: a resolve step on an empty slot claims it
/// (`MustInit`) before any factory runs, so a concurrent resolve for the
/// same key is told to wait (`Pending`) rather than run the factory again.
/// A factory failure reported through `finish_init` releases the slot and
/// poisons nothing: the next resolve step may try again, and other keys
/// are untouched throughout.
pub struct ServiceProvider<V> {
    slots: Vec<(u64, ServiceSlot<V>)>,
}

/// What one resolve step for `key` does, as a relation between the
/// registry before and after and the outcome handed back.
pub open spec fn resolve_transition<V>(
    pre: ServiceProvider<V>,
    post: ServiceProvider<V>,
    key: u64,
    o: GetOutcome,
) -> bool {
    match pre.spec_slot(key) {
        None => {
            &&& o is MustInit
            &&& post.spec_slot(key) == Some(ServiceSlot::<V>::Initializing)
            &&& forall|k: u64| k != key ==> post.spec_slot(k) == pre.spec_slot(k)
        },
        Some(ServiceSlot::Initializing) => o is Pending && post == pre,
        Some(ServiceSlot::Ready(v)) => o is Cached && post == pre,
    }
}

/// Uniqueness under concurrent first resolution: of any two consecutive
/// resolve steps for one key, at most one is told to run the factory.
pub proof fn lemma_single_flight<V>(
    s0: ServiceProvider<V>,
    s1: ServiceProvider<V>,
    s2: ServiceProvider<V>,
    key: u64,
    o1: GetOutcome,
    o2: GetOutcome,
)
    requires
        resolve_transition(s0, s1, key, o1),
        resolve_transition(s1, s2, key, o2),
    ensures
        !(o1 is MustInit && o2 is MustInit),
{
}

/// Once an instance is cached, every resolve step yields that same
/// instance and moves nothing.
pub proof fn lemma_resolve_cached<V>(
    s0: ServiceProvider<V>,
    s1: ServiceProvider<V>,
    key: u64,
    o: GetOutcome,
    v: V,
)
    requires
        s0.spec_slot(key) == Some(ServiceSlot::Ready(v)),
        resolve_transition(s0, s1, key, o),
    ensures
        o is Cached,
        s1 == s0,
        s1.spec_slot(key) == Some(ServiceSlot::Ready(v)),
{
}

impl<V> ServiceProvider<V> {
    pub closed spec fn spec_slots(self) -> Seq<(u64, ServiceSlot<V>)> {
        self.slots@
    }

    pub open spec fn wf(self) -> bool {
        slots_keys_unique(self.spec_slots())
    }

    /// The slot cached under `key`, if any.
    pub open spec fn spec_slot(self, key: u64) -> Option<ServiceSlot<V>> {
        slots_lookup(self.spec_slots(), key)
    }

    pub fn new() -> (r: ServiceProvider<V>)
        ensures
            r.wf(),
            forall|k: u64| r.spec_slot(k) is None,
    {
        let r = ServiceProvider { slots: Vec::new() };
        proof {
            assert forall|k: u64| r.spec_slot(k) is None by {
                assert(!slots_has_key(r.spec_slots(), k));
            }
        }
        r
    }

    fn find_index(&self, key: u64) -> (r: Option<usize>)
        ensures
            match r {
                Some(i) => i < self.spec_slots().len() && self.spec_slots()[i as int].0 == key,
                None => !slots_has_key(self.spec_slots(), key),
            },
    {
        let n = self.slots.len();
        let mut i: usize = 0;
        while i < n
            invariant
                i <= n,
                n == self.spec_slots().len(),
                forall|j: int| 0 <= j < i ==> self.spec_slots()[j].0 != key,
            decreases n - i,
        {
            if self.slots[i].0 == key {
                return Some(i);
            }
            i = i + 1;
        }
        None
    }

    /// Whether an initialized instance is cached under `key`.
    pub fn has_service(&self, key: u64) -> (r: bool)
        requires
            self.wf(),
        ensures
            r == (self.spec_slot(key) matches Some(ServiceSlot::Ready(_))),
    {
        match self.find_index(key) {
            Some(i) => {
                proof {
                    lemma_slots_lookup_at(self.spec_slots(), i as int);
                }
                match &self.slots[i].1 {
                    ServiceSlot::Ready(_) => true,
                    ServiceSlot::Initializing => false,
                }
            },
            None => false,
        }
    }

    /// Whether a resolver currently holds the `key` slot for initialization.
    pub fn is_initializing(&self, key: u64) -> (r: bool)
        requires
            self.wf(),
        ensures
            r == (self.spec_slot(key) matches Some(ServiceSlot::Initializing)),
    {
        match self.find_index(key) {
            Some(i) => {
                proof {
                    lemma_slots_lookup_at(self.spec_slots(), i as int);
                }
                match &self.slots[i].1 {
                    ServiceSlot::Ready(_) => false,
                    ServiceSlot::Initializing => true,
                }
            },
            None => false,
        }
    }

    fn set_slot(&mut self, key: u64, slot: ServiceSlot<V>)
        requires
            old(self).wf(),
        ensures
            final(self).wf(),
            final(self).spec_slot(key) == Some(slot),
            forall|k: u64| k != key ==> final(self).spec_slot(k) == old(self).spec_slot(k),
    {
        let ghost s0 = self.spec_slots();
        match self.find_index(key) {
            Some(i) => {
                self.slots[i] = (key, slot);
                proof {
                    let s1 = self.spec_slots();
                    assert(s1 =~= s0.update(i as int, (key, slot)));
                    assert forall|p: int, q: int| 0 <= p < q < s1.len() implies s1[p].0
                        != s1[q].0 by {
                        assert(s0[p].0 != s0[q].0);
                    }
                    lemma_slots_lookup_at(s1, i as int);
                    assert forall|k: u64| k != key implies slots_lookup(s1, k) == slots_lookup(
                        s0,
                        k,
                    ) by {
                        Self::lemma_lookup_other(s0, s1, i as int, k);
                    }
                }
            },
            None => {
                self.slots.push((key, slot));
                proof {
                    let s1 = self.spec_slots();
                    assert(s1 =~= s0.push((key, slot)));
                    assert forall|p: int, q: int| 0 <= p < q < s1.len() implies s1[p].0
                        != s1[q].0 by {
                        if q < s0.len() {
                            assert(s0[p].0 != s0[q].0);
                        } else {
                            assert(s0[p].0 != key);
                        }
                    }
                    lemma_slots_lookup_at(s1, s0.len() as int);
                    assert forall|k: u64| k != key implies slots_lookup(s1, k) == slots_lookup(
                        s0,
                        k,
                    ) by {
                        Self::lemma_lookup_other(s0, s1, s0.len() as int, k);
                    }
                }
            },
        }
    }

    proof fn lemma_lookup_other(
        s0: Seq<(u64, ServiceSlot<V>)>,
        s1: Seq<(u64, ServiceSlot<V>)>,
        i: int,
        k: u64,
    )
        requires
            slots_keys_unique(s0),
            s0.len() <= s1.len() <= s0.len() + 1,
            0 <= i < s1.len(),
            forall|j: int| 0 <= j < s1.len() && j != i ==> j < s0.len() && s1[j] == s0[j],
            s1[i].0 != k,
            i < s0.len() ==> s0[i].0 != k,
        ensures
            slots_lookup(s1, k) == slots_lookup(s0, k),
    {
        if slots_has_key(s0, k) {
            let j = slots_key_index(s0, k);
            assert(j != i);
            assert(s1[j].0 == k);
            assert(slots_has_key(s1, k));
            let m = slots_key_index(s1, k);
            assert(m != i);
            assert(s0[m].0 == k);
            assert(m == j);
        } else {
            if slots_has_key(s1, k) {
                let m = slots_key_index(s1, k);
                assert(m != i);
                assert(s0[m].0 == k);
            }
        }
    }

    /// Caches a pre-built instance under `key`, replacing whatever the
    /// slot held.
    pub fn add_service(&mut self, key: u64, service: V)
        requires
            old(self).wf(),
        ensures
            final(self).wf(),
            final(self).spec_slot(key) == Some(ServiceSlot::Ready(service)),
            forall|k: u64| k != key ==> final(self).spec_slot(k) == old(self).spec_slot(k),
    {
        self.set_slot(key, ServiceSlot::Ready(service));
    }

    /// Evicts the instance cached under `key`. Only a ready instance is
    /// evicted: a slot a resolver is initializing stays as it is.
    pub fn remove_service(&mut self, key: u64)
        requires
            old(self).wf(),
        ensures
            final(self).wf(),
            old(self).spec_slot(key) matches Some(ServiceSlot::Ready(_)) ==> final(self).spec_slot(
                key,
            ) is None,
            !(old(self).spec_slot(key) matches Some(ServiceSlot::Ready(_))) ==> *final(self)
                == *old(self),
            forall|k: u64| k != key ==> final(self).spec_slot(k) == old(self).spec_slot(k),
    {
        if !self.has_service(key) {
            return ;
        }
        let ghost s0 = self.spec_slots();
        match self.find_index(key) {
            Some(i) => {
                self.slots.remove(i);
                proof {
                    let s1 = self.spec_slots();
                    assert forall|p: int, q: int| 0 <= p < q < s1.len() implies s1[p].0
                        != s1[q].0 by {
                        let p0 = if p < i { p } else { p + 1 };
                        let q0 = if q < i { q } else { q + 1 };
                        assert(s1[p] == s0[p0]);
                        assert(s1[q] == s0[q0]);
                        assert(s0[p0].0 != s0[q0].0);
                    }
                    if slots_has_key(s1, key) {
                        let m = slots_key_index(s1, key);
                        let m0 = if m < i as int { m } else { m + 1 };
                        assert(s1[m] == s0[m0]);
                        assert(s0[m0].0 == key);
                        assert(s0[i as int].0 == key);
                        assert(m0 != i as int);
                    }
                    assert forall|k: u64| k != key implies slots_lookup(s1, k) == slots_lookup(
                        s0,
                        k,
                    ) by {
                        Self::lemma_lookup_remove_other(s0, s1, i as int, k);
                    }
                }
            },
            None => {
                assert(false);
            },
        }
    }

    proof fn lemma_lookup_remove_other(
        s0: Seq<(u64, ServiceSlot<V>)>,
        s1: Seq<(u64, ServiceSlot<V>)>,
        i: int,
        k: u64,
    )
        requires
            slots_keys_unique(s0),
            0 <= i < s0.len(),
            s1.len() == s0.len() - 1,
            forall|j: int| 0 <= j < i ==> s1[j] == s0[j],
            forall|j: int| i <= j < s1.len() ==> s1[j] == s0[j + 1],
            s0[i].0 != k,
        ensures
            slots_lookup(s1, k) == slots_lookup(s0, k),
    {
        if slots_has_key(s0, k) {
            let j = slots_key_index(s0, k);
            assert(j != i);
            let j1 = if j < i { j } else { j - 1 };
            assert(s1[j1] == s0[j]);
            assert(slots_has_key(s1, k));
            let m = slots_key_index(s1, k);
            let m0 = if m < i { m } else { m + 1 };
            assert(s1[m] == s0[m0]);
            assert(m0 == j);
        } else {
            if slots_has_key(s1, k) {
                let m = slots_key_index(s1, k);
                let m0 = if m < i { m } else { m + 1 };
                assert(s1[m] == s0[m0]);
                assert(slots_has_key(s0, k));
            }
        }
    }

    /// One resolve step for `key`: take the cached instance, or claim the
    /// empty slot and be told — alone among concurrent resolvers — to run
    /// the factory, or find another resolver already at it and wait.
    pub fn get_service(&mut self, key: u64) -> (o: GetOutcome)
        requires
            old(self).wf(),
        ensures
            final(self).wf(),
            resolve_transition(*old(self), *final(self), key, o),
    {
        match self.find_index(key) {
            Some(i) => {
                proof {
                    lemma_slots_lookup_at(self.spec_slots(), i as int);
                }
                match &self.slots[i].1 {
                    ServiceSlot::Ready(_) => GetOutcome::Cached,
                    ServiceSlot::Initializing => GetOutcome::Pending,
                }
            },
            None => {
                self.set_slot(key, ServiceSlot::Initializing);
                GetOutcome::MustInit
            },
        }
    }

    /// Reports how the factory run claimed by `get_service` ended: the
    /// built instance is cached, or the slot is released so a later
    /// resolve may try again — a failure poisons neither this key nor any
    /// other.
    pub fn finish_init(&mut self, key: u64, service: Option<V>)
        requires
            old(self).wf(),
            old(self).spec_slot(key) matches Some(ServiceSlot::Initializing),
        ensures
            final(self).wf(),
            service matches Some(v) ==> final(self).spec_slot(key) == Some(
                ServiceSlot::Ready(v),
            ),
            service is None ==> final(self).spec_slot(key) is None,
            forall|k: u64| k != key ==> final(self).spec_slot(k) == old(self).spec_slot(k),
    {
        match service {
            Some(v) => {
                self.set_slot(key, ServiceSlot::Ready(v));
            },
            None => {
                let ghost s0 = self.spec_slots();
                match self.find_index(key) {
                    Some(i) => {
                        self.slots.remove(i);
                        proof {
                            let s1 = self.spec_slots();
                            assert forall|p: int, q: int| 0 <= p < q < s1.len() implies s1[p].0
                                != s1[q].0 by {
                                let p0 = if p < i { p } else { p + 1 };
                                let q0 = if q < i { q } else { q + 1 };
                                assert(s1[p] == s0[p0]);
                                assert(s1[q] == s0[q0]);
                                assert(s0[p0].0 != s0[q0].0);
                            }
                            if slots_has_key(s1, key) {
                                let m = slots_key_index(s1, key);
                                let m0 = if m < i as int { m } else { m + 1 };
                                assert(s1[m] == s0[m0]);
                                assert(s0[m0].0 == key);
                                assert(s0[i as int].0 == key);
                                assert(m0 != i as int);
                            }
                            assert forall|k: u64| k != key implies slots_lookup(s1, k)
                                == slots_lookup(s0, k) by {
                                Self::lemma_lookup_remove_other(s0, s1, i as int, k);
                            }
                        }
                    },
                    None => {
                        assert(false);
                    },
                }
            },
        }
    }

    /// The instance cached under `key`, which the caller must have
    /// established is present: asking for an absent one would be a panic,
    /// so that input is ruled out here.
    pub fn get_service_unchecked(&self, key: u64) -> (r: &V)
        requires
            self.wf(),
            self.spec_slot(key) matches Some(ServiceSlot::Ready(_)),
        ensures
            Some(ServiceSlot::Ready(*r)) == self.spec_slot(key),
    {
        match self.find_index(key) {
            Some(i) => {
                proof {
                    lemma_slots_lookup_at(self.spec_slots(), i as int);
                }
                match &self.slots[i].1 {
                    ServiceSlot::Ready(v) => v,
                    ServiceSlot::Initializing => {
                        proof {
                            assert(false);
                        }
                        unreached()
                    },
                }
            },
            None => {
                proof {
                    assert(false);
                }
                unreached()
            },
        }
    }
}

} // verus!
