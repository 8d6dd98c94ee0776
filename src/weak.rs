use vstd::prelude::*;

use crate::runtime::{Runtime, NIL};
use crate::strong::StrongPtr;

verus! {

/// A handle that weakly references an object: it owns one weak slot of the
/// runtime, which tracks the object without holding a credit, so the handle
/// never keeps the object alive. The slot is the runtime's, at an index that
/// stays the same however the handle moves; `destroy` deregisters it.
pub struct WeakPtr {
    slot: usize,
}

impl View for WeakPtr {
    type V = usize;

    /// The weak slot owned.
    closed spec fn view(&self) -> usize {
        self.slot
    }
}

impl WeakPtr {
    /// Registers a weak slot tracking the live object `obj`.
    pub(crate) fn track(rt: &mut Runtime, obj: usize) -> (w: WeakPtr)
        requires
            old(rt)@.wf(),
            old(rt)@.live(obj),
        ensures
            final(rt)@.wf(),
            final(rt)@ == old(rt)@.init_weak(obj),
            w@ == old(rt)@.slots.len(),
    {
        let slot = rt.init_weak(obj);
        WeakPtr { slot }
    }

    /// A weak handle tracking `obj`, which is live or null. Returns `None`, and
    /// registers nothing, on null.
    pub fn new(rt: &mut Runtime, obj: usize) -> (r: Option<WeakPtr>)
        requires
            old(rt)@.wf(),
            obj == NIL || old(rt)@.live(obj),
        ensures
            final(rt)@.wf(),
            r is None <==> obj == NIL,
            obj == NIL ==> final(rt)@ == old(rt)@,
            obj != NIL ==> final(rt)@ == old(rt)@.init_weak(obj),
            r matches Some(w) ==> w@ == old(rt)@.slots.len(),
    {
        if obj == NIL {
            None
        } else {
            Some(WeakPtr::track(rt, obj))
        }
    }

    /// A strong handle on the tracked object, with a credit of its own, while
    /// that object is alive; `None`, with no retain, once it was deallocated.
    pub fn load(&self, rt: &mut Runtime) -> (r: Option<StrongPtr>)
        requires
            old(rt)@.wf(),
            old(rt)@.registered(self@),
            old(rt)@.weak_target(self@) == NIL || old(rt)@.can_retain(
                old(rt)@.weak_target(self@),
            ),
        ensures
            final(rt)@.wf(),
            final(rt)@ == old(rt)@.load_weak(self@),
            r is None <==> old(rt)@.weak_target(self@) == NIL,
            r matches Some(h) ==> h@ == old(rt)@.weak_target(self@),
    {
        let p = rt.load_weak_retained(self.slot);
        StrongPtr::new(p)
    }

    /// A second weak handle, with a slot of its own tracking the same object.
    pub fn duplicate(&self, rt: &mut Runtime) -> (w: WeakPtr)
        requires
            old(rt)@.wf(),
            old(rt)@.registered(self@),
        ensures
            final(rt)@.wf(),
            final(rt)@ == old(rt)@.copy_weak(self@),
            w@ == old(rt)@.slots.len(),
            final(rt)@.weak_target(w@) == old(rt)@.weak_target(self@),
    {
        let slot = rt.copy_weak(self.slot);
        WeakPtr { slot }
    }

    /// Deregisters the slot.
    pub fn destroy(self, rt: &mut Runtime)
        requires
            old(rt)@.wf(),
            old(rt)@.registered(self@),
        ensures
            final(rt)@.wf(),
            final(rt)@ == old(rt)@.destroy_weak(self@),
    {
        rt.destroy_weak(self.slot);
    }
}

} // verus!
