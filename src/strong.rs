use vstd::prelude::*;

use crate::runtime::{Runtime, NIL};
use crate::weak::WeakPtr;

verus! {

/// A handle that strongly references an object, holding one retain-count
/// credit that it gives back exactly once: by `release`, or by `autorelease`
/// to the pool.
///
/// The object reference inside is never null: absence of an object is
/// `Option<StrongPtr>::None`.
pub struct StrongPtr {
    ptr: usize,
}

impl StrongPtr {
    #[verifier::type_invariant]
    spec fn non_null(self) -> bool {
        self.ptr != NIL
    }
}

impl View for StrongPtr {
    type V = usize;

    /// The object referenced.
    closed spec fn view(&self) -> usize {
        self.ptr
    }
}

impl StrongPtr {
    /// Adopts `ptr`, which must carry a credit the caller hands over: no retain
    /// is issued. Returns `None` on null.
    pub fn new(ptr: usize) -> (r: Option<StrongPtr>)
        ensures
            r is None <==> ptr == NIL,
            r matches Some(h) ==> h@ == ptr,
    {
        if ptr == NIL {
            None
        } else {
            Some(StrongPtr { ptr })
        }
    }

    /// Retains `ptr`, a live object or null, and adopts the new credit.
    /// Returns `None`, without a retain, on null.
    pub fn retain(rt: &mut Runtime, ptr: usize) -> (r: Option<StrongPtr>)
        requires
            old(rt)@.wf(),
            ptr == NIL || old(rt)@.can_retain(ptr),
        ensures
            final(rt)@.wf(),
            final(rt)@ == old(rt)@.retain(ptr),
            r is None <==> ptr == NIL,
            r matches Some(h) ==> h@ == ptr,
    {
        let p = rt.retain(ptr);
        StrongPtr::new(p)
    }

    /// The object referenced, never null.
    pub fn ptr(&self) -> (r: usize)
        ensures
            r == self@,
            r != NIL,
    {
        proof {
            use_type_invariant(self);
        }
        self.ptr
    }

    /// Hands the credit to the pool instead of releasing it now, and returns
    /// the object, which is no longer kept alive by this handle.
    pub fn autorelease(self, rt: &mut Runtime) -> (r: usize)
        requires
            old(rt)@.wf(),
            old(rt)@.has_credit(self@),
        ensures
            final(rt)@.wf(),
            final(rt)@ == old(rt)@.autorelease(self@),
            final(rt)@.counts == old(rt)@.counts,
            final(rt)@.pooled(self@) == old(rt)@.pooled(self@) + 1,
            r == self@,
    {
        let p = self.ptr();
        rt.autorelease(p);
        p
    }

    /// A new weak handle observing the same object.
    pub fn weak(&self, rt: &mut Runtime) -> (w: WeakPtr)
        requires
            old(rt)@.wf(),
            old(rt)@.live(self@),
        ensures
            final(rt)@.wf(),
            final(rt)@ == old(rt)@.init_weak(self@),
            w@ == old(rt)@.slots.len(),
    {
        let p = self.ptr();
        WeakPtr::track(rt, p)
    }

    /// A second handle on the same object, with a credit of its own.
    pub fn duplicate(&self, rt: &mut Runtime) -> (r: StrongPtr)
        requires
            old(rt)@.wf(),
            old(rt)@.can_retain(self@),
        ensures
            final(rt)@.wf(),
            final(rt)@ == old(rt)@.retain(self@),
            r@ == self@,
    {
        let p = self.ptr();
        let q = rt.retain(p);
        StrongPtr { ptr: q }
    }

    /// Gives the handle's credit back: one release.
    pub fn release(self, rt: &mut Runtime)
        requires
            old(rt)@.wf(),
            old(rt)@.has_credit(self@),
        ensures
            final(rt)@.wf(),
            final(rt)@ == old(rt)@.release(self@),
    {
        let p = self.ptr();
        rt.release(p);
    }
}

} // verus!
