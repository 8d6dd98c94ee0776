use vstd::prelude::*;

use crate::runtime::{CreditCall, RuntimeState, NIL};

verus! {

broadcast use vstd::seq_lib::group_to_multiset_ensures;

proof fn lemma_retain_wf(m: RuntimeState, r: usize)
    requires
        m.wf(),
        m.can_retain(r),
    ensures
        m.retain(r).wf(),
        m.retain(r).count(r) == m.count(r) + 1,
        forall|a: usize| a != r ==> #[trigger] m.retain(r).count(a) == m.count(a),
        forall|a: usize| #[trigger] m.retain(r).pooled(a) == m.pooled(a),
        m.retain(r).slots == m.slots,
{
    let n = m.retain(r);
    assert(n.pool == m.pool);
    assert forall|a: usize| #[trigger] n.pooled(a) <= n.count(a) by {
        assert(m.pooled(a) <= m.count(a));
    }
}

proof fn lemma_release_wf(m: RuntimeState, r: usize)
    requires
        m.wf(),
        m.has_credit(r),
    ensures
        m.release(r).wf(),
        m.release(r).count(r) == m.count(r) - 1,
        forall|a: usize| a != r ==> #[trigger] m.release(r).count(a) == m.count(a),
        forall|a: usize| #[trigger] m.release(r).pooled(a) == m.pooled(a),
        m.release(r).slots == m.slots,
{
    let n = m.release(r);
    assert(n.pool == m.pool);
    assert forall|a: usize| #[trigger] n.pooled(a) <= n.count(a) by {
        assert(m.pooled(a) <= m.count(a));
    }
}

/// Draining the pool gives back every deferred credit: each object loses as
/// many credits as it had waiting in the pool, and nothing else changes but
/// the log.
pub proof fn lemma_drain(m: RuntimeState)
    requires
        m.wf(),
    ensures
        m.drain().wf(),
        m.drain().pool.len() == 0,
        m.drain().slots == m.slots,
        m.drain().counts.len() == m.counts.len(),
        forall|a: usize| #[trigger] m.drain().count(a) == m.count(a) - m.pooled(a),
    decreases m.pool.len(),
{
    if m.pool.len() > 0 {
        let a = m.pool.last();
        let popped = RuntimeState { pool: m.pool.drop_last(), ..m };
        assert(m.pool =~= popped.pool.push(a));
        assert(m.pooled(a) <= m.count(a));
        assert forall|b: usize| #[trigger] popped.pooled(b) <= popped.count(b) by {
            assert(m.pooled(b) <= m.count(b));
        }
        assert(popped.has_credit(a));
        lemma_release_wf(popped, a);
        lemma_drain(m.pop_pool());
        assert forall|b: usize| #[trigger] m.drain().count(b) == m.count(b) - m.pooled(b) by {
            assert(m.pop_pool().count(b) == m.pop_pool().drain().count(b) + m.pop_pool().pooled(b));
        }
    } else {
        assert forall|b: usize| #[trigger] m.drain().count(b) == m.count(b) - m.pooled(b) by {
            assert(!m.pool.contains(b));
        }
    }
}

/// Adopting an object that carries a credit and then destroying the handle
/// issues exactly one release, of that object, and no retain.
pub proof fn lemma_adopt_then_release(m: RuntimeState, r: usize)
    requires
        m.wf(),
        r != NIL,
        m.has_credit(r),
    ensures
        m.release(r).wf(),
        m.release(r).log == m.log.push(CreditCall::Release(r)),
        m.release(r).count(r) == m.count(r) - 1,
        forall|a: usize| a != r ==> #[trigger] m.release(r).count(a) == m.count(a),
{
    lemma_release_wf(m, r);
}

/// Duplicating a strong handle issues one retain; destroying the copy brings
/// every retain count back to what it was, and destroying both issues two
/// releases in all.
pub proof fn lemma_duplicate_then_release_both(m: RuntimeState, r: usize)
    requires
        m.wf(),
        r != NIL,
        m.has_credit(r),
        m.can_retain(r),
    ensures
        m.retain(r).has_credit(r),
        m.retain(r).release(r).has_credit(r),
        m.retain(r).release(r).counts == m.counts,
        m.retain(r).release(r).release(r).log == m.log.push(CreditCall::Retain(r)).push(
            CreditCall::Release(r),
        ).push(CreditCall::Release(r)),
        m.retain(r).release(r).release(r).count(r) == m.count(r) - 1,
        m.retain(r).release(r).release(r).wf(),
{
    lemma_retain_wf(m, r);
    let m1 = m.retain(r);
    lemma_release_wf(m1, r);
    let m2 = m1.release(r);
    assert(m2.counts =~= m.counts);
    assert(m2.pooled(r) == m.pooled(r));
    lemma_release_wf(m2, r);
}

/// Loading a weak slot whose object is alive yields that object with a new
/// credit, and destroying the loaded handle issues exactly one release, which
/// brings every retain count back.
pub proof fn lemma_load_live_then_release(m: RuntimeState, s: usize)
    requires
        m.wf(),
        m.registered(s),
        m.can_retain(m.slots[s as int]->0),
    ensures
        m.weak_target(s) == m.slots[s as int]->0,
        m.weak_target(s) != NIL,
        m.load_weak(s).has_credit(m.weak_target(s)),
        m.load_weak(s).log == m.log.push(CreditCall::Retain(m.weak_target(s))),
        m.load_weak(s).release(m.weak_target(s)).counts == m.counts,
        m.load_weak(s).release(m.weak_target(s)).log == m.log.push(
            CreditCall::Retain(m.weak_target(s)),
        ).push(CreditCall::Release(m.weak_target(s))),
{
    let t = m.weak_target(s);
    assert(m.pooled(t) <= m.count(t));
    lemma_retain_wf(m, t);
    let m1 = m.load_weak(s);
    lemma_release_wf(m1, t);
    assert(m1.release(t).counts =~= m.counts);
}

/// Once the last credit of an object is released, a weak load of any slot
/// tracking it yields null and retains nothing.
pub proof fn lemma_load_after_last_release(m: RuntimeState, s: usize, r: usize)
    requires
        m.wf(),
        m.registered(s),
        m.slots[s as int] == Some(r),
        m.has_credit(r),
        m.count(r) == 1,
    ensures
        m.release(r).wf(),
        !m.release(r).live(r),
        m.release(r).weak_target(s) == NIL,
        m.release(r).load_weak(s) == m.release(r),
{
    lemma_release_wf(m, r);
}

/// A copy of a weak slot lives on its own: destroying the copy leaves the
/// original loading what it loaded before, and destroying the original leaves
/// the copy loading the same.
pub proof fn lemma_weak_copy_independent(m: RuntimeState, s: usize)
    requires
        m.wf(),
        m.registered(s),
    ensures
        m.copy_weak(s).registered(m.slots.len() as usize),
        m.copy_weak(s).destroy_weak(m.slots.len() as usize).registered(s),
        m.copy_weak(s).destroy_weak(m.slots.len() as usize).weak_target(s) == m.weak_target(s),
        m.copy_weak(s).destroy_weak(s).registered(m.slots.len() as usize),
        m.copy_weak(s).destroy_weak(s).weak_target(m.slots.len() as usize) == m.weak_target(s),
{
    let c = m.slots.len() as usize;
    let m1 = m.copy_weak(s);
    assert(m1.slots[c as int] == m.slots[s as int]);
    assert(m1.destroy_weak(c).slots[s as int] == m.slots[s as int]);
    assert(m1.destroy_weak(s).slots[c as int] == m.slots[s as int]);
}

/// A deferred release changes no retain count; the credit goes only when the
/// pool is drained, one less than the drain would otherwise leave.
pub proof fn lemma_autorelease_then_drain(m: RuntimeState, r: usize)
    requires
        m.wf(),
        r != NIL,
        m.has_credit(r),
    ensures
        m.autorelease(r).wf(),
        m.autorelease(r).counts == m.counts,
        m.autorelease(r).log == m.log.push(CreditCall::Autorelease(r)),
        m.autorelease(r).drain().count(r) == m.count(r) - m.pooled(r) - 1,
        m.autorelease(r).drain().count(r) == m.drain().count(r) - 1,
        forall|a: usize| a != r ==> #[trigger] m.autorelease(r).drain().count(a) == m.drain().count(a),
{
    let n = m.autorelease(r);
    assert(n.pool.to_multiset() =~= m.pool.to_multiset().insert(r));
    assert forall|a: usize| #[trigger] n.pooled(a) <= n.count(a) by {
        assert(m.pooled(a) <= m.count(a));
    }
    lemma_drain(n);
    lemma_drain(m);
}

/// A weak handle made from a live object loads that same object.
pub proof fn lemma_observe_then_load(m: RuntimeState, r: usize)
    requires
        m.wf(),
        m.can_retain(r),
    ensures
        m.init_weak(r).registered(m.slots.len() as usize),
        m.init_weak(r).weak_target(m.slots.len() as usize) == r,
        m.init_weak(r).load_weak(m.slots.len() as usize).count(r) == m.count(r) + 1,
{
    let s = m.slots.len() as usize;
    let m1 = m.init_weak(r);
    assert(m1.slots[s as int] == Some(r));
    assert(m1.counts == m.counts);
}

} // verus!
