use vstd::multiset::Multiset;
use vstd::prelude::*;

verus! {

broadcast use vstd::seq_lib::group_to_multiset_ensures;

/// The null object reference.
pub const NIL: usize = 0;

/// A runtime call that moves a retain-count credit, as recorded in the call log.
pub enum CreditCall {
    Retain(usize),
    Release(usize),
    Autorelease(usize),
}

/// The observable state of a reference-counting object runtime.
///
/// An object reference is a nonzero address: the object at address `a` has its
/// retain count at `counts[a - 1]`, and stays deallocated once that count
/// reaches zero. A weak slot is an index into `slots`; `Some(a)` is a slot
/// registered to track `a`, `None` one that was deregistered. `pool` holds the
/// deferred releases in the order they were issued, and `log` every credit call
/// made so far.
pub struct RuntimeState {
    pub counts: Seq<nat>,
    pub slots: Seq<Option<usize>>,
    pub pool: Seq<usize>,
    pub log: Seq<CreditCall>,
}

impl RuntimeState {
    /// `a` names an object that was allocated (alive or not).
    pub open spec fn valid(self, a: usize) -> bool {
        1 <= a && a <= self.counts.len()
    }

    /// The retain count of `a`; zero for what names no object.
    pub open spec fn count(self, a: usize) -> nat {
        if self.valid(a) {
            self.counts[a - 1]
        } else {
            0
        }
    }

    pub open spec fn live(self, a: usize) -> bool {
        self.count(a) > 0
    }

    /// How many deferred releases of `a` wait in the pool.
    pub open spec fn pooled(self, a: usize) -> nat {
        self.pool.to_multiset().count(a)
    }

    /// Some credit of `a` is held outside the pool, by a caller.
    pub open spec fn has_credit(self, a: usize) -> bool {
        self.valid(a) && self.count(a) > self.pooled(a)
    }

    /// `a` is alive and one more retain does not overflow its count.
    pub open spec fn can_retain(self, a: usize) -> bool {
        self.live(a) && self.count(a) < u64::MAX
    }

    pub open spec fn registered(self, s: usize) -> bool {
        s < self.slots.len() && self.slots[s as int] is Some
    }

    /// What a weak load of slot `s` yields: the tracked object while it is
    /// alive, null once it was deallocated.
    pub open spec fn weak_target(self, s: usize) -> usize {
        if self.registered(s) && self.live(self.slots[s as int]->0) {
            self.slots[s as int]->0
        } else {
            NIL
        }
    }

    pub open spec fn wf(self) -> bool {
        &&& self.counts.len() <= usize::MAX
        &&& self.slots.len() <= usize::MAX
        &&& forall|i: int| 0 <= i < self.counts.len() ==> #[trigger] self.counts[i] <= u64::MAX
        &&& forall|a: usize| #[trigger] self.pooled(a) <= self.count(a)
        &&& forall|s: int|
            0 <= s < self.slots.len() && #[trigger] self.slots[s] is Some ==> self.valid(
                self.slots[s]->0,
            )
    }

    /// A new object with one credit, at the next address.
    pub open spec fn new_object(self) -> RuntimeState {
        RuntimeState { counts: self.counts.push(1), ..self }
    }

    pub open spec fn retain(self, a: usize) -> RuntimeState {
        if a == NIL {
            self
        } else {
            RuntimeState {
                counts: self.counts.update(a - 1, self.counts[a - 1] + 1),
                log: self.log.push(CreditCall::Retain(a)),
                ..self
            }
        }
    }

    pub open spec fn release(self, a: usize) -> RuntimeState {
        if a == NIL {
            self
        } else {
            RuntimeState {
                counts: self.counts.update(a - 1, (self.counts[a - 1] - 1) as nat),
                log: self.log.push(CreditCall::Release(a)),
                ..self
            }
        }
    }

    pub open spec fn autorelease(self, a: usize) -> RuntimeState {
        if a == NIL {
            self
        } else {
            RuntimeState {
                pool: self.pool.push(a),
                log: self.log.push(CreditCall::Autorelease(a)),
                ..self
            }
        }
    }

    /// Releases the most recent deferred release.
    pub open spec fn pop_pool(self) -> RuntimeState {
        RuntimeState { pool: self.pool.drop_last(), ..self }.release(self.pool.last())
    }

    /// Releases every deferred release, most recent first.
    pub open spec fn drain(self) -> RuntimeState
        decreases self.pool.len(),
    {
        if self.pool.len() == 0 {
            self
        } else {
            self.pop_pool().drain()
        }
    }

    /// Registers a new slot, at the next index, tracking `a`.
    pub open spec fn init_weak(self, a: usize) -> RuntimeState {
        RuntimeState { slots: self.slots.push(Some(a)), ..self }
    }

    /// Registers a new slot, at the next index, tracking what slot `s` tracks.
    pub open spec fn copy_weak(self, s: usize) -> RuntimeState {
        RuntimeState { slots: self.slots.push(self.slots[s as int]), ..self }
    }

    pub open spec fn destroy_weak(self, s: usize) -> RuntimeState {
        RuntimeState { slots: self.slots.update(s as int, None), ..self }
    }

    /// A weak load of slot `s`: the target, if any, gets one more credit.
    pub open spec fn load_weak(self, s: usize) -> RuntimeState {
        self.retain(self.weak_target(s))
    }
}

/// A reference-counting object runtime: object retain counts, the weak-slot
/// table and the pool of deferred releases, with the primitives the handles
/// are built on.
pub struct Runtime {
    counts: Vec<u64>,
    slots: Vec<Option<usize>>,
    pool: Vec<usize>,
    log: Ghost<Seq<CreditCall>>,
}

impl View for Runtime {
    type V = RuntimeState;

    closed spec fn view(&self) -> RuntimeState {
        RuntimeState {
            counts: self.counts@.map_values(|c: u64| c as nat),
            slots: self.slots@,
            pool: self.pool@,
            log: self.log@,
        }
    }
}

impl Runtime {
    /// A runtime with no objects, no weak slots and an empty pool.
    pub fn new() -> (r: Runtime)
        ensures
            r@.wf(),
            r@.counts.len() == 0,
            r@.slots.len() == 0,
            r@.pool.len() == 0,
            r@.log.len() == 0,
            r@.pool.to_multiset() == Multiset::<usize>::empty(),
    {
        let r = Runtime { counts: Vec::new(), slots: Vec::new(), pool: Vec::new(), log: Ghost(Seq::empty()) };
        assert(r@.counts =~= Seq::<nat>::empty());
        r
    }

    /// Creates an object holding one credit, owned by the caller.
    pub fn new_object(&mut self) -> (r: usize)
        requires
            old(self)@.wf(),
        ensures
            final(self)@.wf(),
            final(self)@ == old(self)@.new_object(),
            r == final(self)@.counts.len(),
            r != NIL,
    {
        self.counts.push(1);
        assert(self@.counts =~= old(self)@.counts.push(1));
        assert forall|a: usize| #[trigger] self@.pooled(a) <= self@.count(a) by {
            assert(old(self)@.pooled(a) <= old(self)@.count(a));
        }
        self.counts.len()
    }

    /// The retain count of `a`; zero for what names no object.
    pub fn retain_count(&self, a: usize) -> (r: u64)
        ensures
            r == self@.count(a),
    {
        if 1 <= a && a <= self.counts.len() {
            self.counts[a - 1]
        } else {
            0
        }
    }

    /// Adds one credit to `a`, returning `a`; does nothing on null.
    pub fn retain(&mut self, a: usize) -> (r: usize)
        requires
            old(self)@.wf(),
            a == NIL || old(self)@.can_retain(a),
        ensures
            final(self)@.wf(),
            final(self)@ == old(self)@.retain(a),
            r == a,
    {
        if a != NIL {
            let c = self.counts[a - 1];
            self.counts.set(a - 1, c + 1);
            self.log = Ghost(self.log@.push(CreditCall::Retain(a)));
            assert(self@.counts =~= old(self)@.counts.update(a - 1, old(self)@.counts[a - 1] + 1));
            assert forall|b: usize| #[trigger] self@.pooled(b) <= self@.count(b) by {
                assert(old(self)@.pooled(b) <= old(self)@.count(b));
            }
        }
        a
    }

    /// Takes one credit from `a`, which the caller holds; does nothing on null.
    pub fn release(&mut self, a: usize)
        requires
            old(self)@.wf(),
            a == NIL || old(self)@.has_credit(a),
        ensures
            final(self)@.wf(),
            final(self)@ == old(self)@.release(a),
    {
        if a != NIL {
            let c = self.counts[a - 1];
            self.counts.set(a - 1, c - 1);
            self.log = Ghost(self.log@.push(CreditCall::Release(a)));
            assert(self@.counts =~= old(self)@.counts.update(a - 1, (old(self)@.counts[a - 1] - 1) as nat));
            assert forall|b: usize| #[trigger] self@.pooled(b) <= self@.count(b) by {
                assert(old(self)@.pooled(b) <= old(self)@.count(b));
            }
        }
    }

    /// Hands a credit of `a`, which the caller holds, to the pool: it is
    /// released when the pool is drained. Does nothing on null.
    pub fn autorelease(&mut self, a: usize)
        requires
            old(self)@.wf(),
            a == NIL || old(self)@.has_credit(a),
        ensures
            final(self)@.wf(),
            final(self)@ == old(self)@.autorelease(a),
            a != NIL ==> final(self)@.pooled(a) == old(self)@.pooled(a) + 1,
            forall|b: usize| b != a ==> #[trigger] final(self)@.pooled(b) == old(self)@.pooled(b),
    {
        if a != NIL {
            self.pool.push(a);
            self.log = Ghost(self.log@.push(CreditCall::Autorelease(a)));
            assert(self@.counts =~= old(self)@.counts);
            assert forall|b: usize| #[trigger] self@.pooled(b) <= self@.count(b) by {
                assert(old(self)@.pooled(b) <= old(self)@.count(b));
            }
        }
    }

    /// Releases every deferred release in the pool, most recent first.
    pub fn drain_pool(&mut self)
        requires
            old(self)@.wf(),
        ensures
            final(self)@.wf(),
            final(self)@ == old(self)@.drain(),
            final(self)@.pool.len() == 0,
            forall|a: usize| #[trigger] final(self)@.count(a) == old(self)@.count(a) - old(self)@.pooled(a),
    {
        proof {
            crate::laws::lemma_drain(old(self)@);
        }
        while self.pool.len() > 0
            invariant
                self@.wf(),
                self@.drain() == old(self)@.drain(),
            decreases self.pool.len(),
        {
            let ghost before = self@;
            let a = self.pool.pop().unwrap();
            proof {
                assert(before.pool =~= self@.pool.push(a));
                assert(self@ == RuntimeState { pool: before.pool.drop_last(), ..before });
                assert forall|b: usize| #[trigger] self@.pooled(b) <= self@.count(b) by {
                    assert(before.pooled(b) <= before.count(b));
                }
                assert(before.pooled(a) <= before.count(a));
            }
            self.release(a);
        }
    }

    /// Registers a new weak slot tracking the live object `a`, and returns it.
    pub fn init_weak(&mut self, a: usize) -> (s: usize)
        requires
            old(self)@.wf(),
            old(self)@.live(a),
        ensures
            final(self)@.wf(),
            final(self)@ == old(self)@.init_weak(a),
            s == old(self)@.slots.len(),
    {
        let s = self.slots.len();
        self.slots.push(Some(a));
        let len_after: usize = self.slots.len();
        assert(len_after == s + 1);
        assert(self@.counts =~= old(self)@.counts);
        assert(self@ == old(self)@.init_weak(a));
        proof {
            assert forall|b: usize| #[trigger] self@.pooled(b) <= self@.count(b) by {
                assert(old(self)@.pooled(b) <= old(self)@.count(b));
            }
            assert forall|i: int|
                0 <= i < self@.slots.len() && #[trigger] self@.slots[i] is Some implies self@.valid(
                    self@.slots[i]->0,
                ) by {
                if i < old(self)@.slots.len() && i != s {
                    assert(old(self)@.slots[i] == self@.slots[i]);
                }
            }
        }
        s
    }

    /// Returns the object that slot `s` tracks with one more credit, held by
    /// the caller, or null if that object was deallocated. The liveness check
    /// and the retain are one step of the runtime.
    pub fn load_weak_retained(&mut self, s: usize) -> (r: usize)
        requires
            old(self)@.wf(),
            old(self)@.registered(s),
            old(self)@.weak_target(s) == NIL || old(self)@.can_retain(old(self)@.weak_target(s)),
        ensures
            final(self)@.wf(),
            final(self)@ == old(self)@.load_weak(s),
            r == old(self)@.weak_target(s),
    {
        let t = match self.slots[s] {
            Some(a) => a,
            None => NIL,
        };
        if self.retain_count(t) > 0 {
            self.retain(t)
        } else {
            NIL
        }
    }

    /// Registers a new weak slot tracking what slot `s` tracks, and returns it.
    pub fn copy_weak(&mut self, s: usize) -> (r: usize)
        requires
            old(self)@.wf(),
            old(self)@.registered(s),
        ensures
            final(self)@.wf(),
            final(self)@ == old(self)@.copy_weak(s),
            r == old(self)@.slots.len(),
    {
        let r = self.slots.len();
        let tracked_by_s = self.slots[s];
        self.slots.push(tracked_by_s);
        let len_after: usize = self.slots.len();
        assert(len_after == r + 1);
        assert(self@.counts =~= old(self)@.counts);
        assert(self@ == old(self)@.copy_weak(s));
        proof {
            assert forall|b: usize| #[trigger] self@.pooled(b) <= self@.count(b) by {
                assert(old(self)@.pooled(b) <= old(self)@.count(b));
            }
            assert forall|i: int|
                0 <= i < self@.slots.len() && #[trigger] self@.slots[i] is Some implies self@.valid(
                    self@.slots[i]->0,
                ) by {
                if i < old(self)@.slots.len() && i != s {
                    assert(old(self)@.slots[i] == self@.slots[i]);
                }
            }
        }
        r
    }

    /// Deregisters slot `s`.
    pub fn destroy_weak(&mut self, s: usize)
        requires
            old(self)@.wf(),
            old(self)@.registered(s),
        ensures
            final(self)@.wf(),
            final(self)@ == old(self)@.destroy_weak(s),
    {
        self.slots.set(s, None);
        assert(self@.counts =~= old(self)@.counts);
        assert(self@ == old(self)@.destroy_weak(s));
        proof {
            assert forall|b: usize| #[trigger] self@.pooled(b) <= self@.count(b) by {
                assert(old(self)@.pooled(b) <= old(self)@.count(b));
            }
            assert forall|i: int|
                0 <= i < self@.slots.len() && #[trigger] self@.slots[i] is Some implies self@.valid(
                    self@.slots[i]->0,
                ) by {
                if i < old(self)@.slots.len() && i != s {
                    assert(old(self)@.slots[i] == self@.slots[i]);
                }
            }
        }
    }
}

} // verus!
