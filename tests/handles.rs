use objc_rc::{Runtime, StrongPtr, WeakPtr, NIL};

#[test]
fn new_object_has_one_credit() {
    let mut rt = Runtime::new();
    let a = rt.new_object();
    let b = rt.new_object();
    assert_eq!(a, 1);
    assert_eq!(b, 2);
    assert_eq!(rt.retain_count(a), 1);
    assert_eq!(rt.retain_count(b), 1);
    assert_eq!(rt.retain_count(NIL), 0);
    assert_eq!(rt.retain_count(3), 0);
}

#[test]
fn adopt_then_release_issues_one_release_and_no_retain() {
    let mut rt = Runtime::new();
    let a = rt.new_object();
    rt.retain(a);
    assert_eq!(rt.retain_count(a), 2);
    let h = StrongPtr::new(a).unwrap();
    assert_eq!(h.ptr(), a);
    assert_eq!(rt.retain_count(a), 2);
    h.release(&mut rt);
    assert_eq!(rt.retain_count(a), 1);
}

#[test]
fn duplicate_then_release_both() {
    let mut rt = Runtime::new();
    let a = rt.new_object();
    rt.retain(a);
    let h = StrongPtr::new(a).unwrap();
    let d = h.duplicate(&mut rt);
    assert_eq!(d.ptr(), a);
    assert_eq!(rt.retain_count(a), 3);
    d.release(&mut rt);
    assert_eq!(rt.retain_count(a), 2);
    h.release(&mut rt);
    assert_eq!(rt.retain_count(a), 1);
}

#[test]
fn adopt_and_share_of_null_are_absent() {
    let mut rt = Runtime::new();
    assert!(StrongPtr::new(NIL).is_none());
    assert!(StrongPtr::retain(&mut rt, NIL).is_none());
    assert!(WeakPtr::new(&mut rt, NIL).is_none());
}

#[test]
fn share_retains_once() {
    let mut rt = Runtime::new();
    let a = rt.new_object();
    let h = StrongPtr::retain(&mut rt, a).unwrap();
    assert_eq!(h.ptr(), a);
    assert_eq!(rt.retain_count(a), 2);
    h.release(&mut rt);
    assert_eq!(rt.retain_count(a), 1);
}

#[test]
fn load_of_live_object_then_release() {
    let mut rt = Runtime::new();
    let a = rt.new_object();
    let h = StrongPtr::new(a).unwrap();
    let w = h.weak(&mut rt);
    assert_eq!(rt.retain_count(a), 1);
    let l = w.load(&mut rt).unwrap();
    assert_eq!(l.ptr(), a);
    assert_eq!(rt.retain_count(a), 2);
    l.release(&mut rt);
    assert_eq!(rt.retain_count(a), 1);
    w.destroy(&mut rt);
    h.release(&mut rt);
    assert_eq!(rt.retain_count(a), 0);
}

#[test]
fn load_after_last_release_is_absent() {
    let mut rt = Runtime::new();
    let a = rt.new_object();
    let h = StrongPtr::new(a).unwrap();
    let w = h.weak(&mut rt);
    h.release(&mut rt);
    assert_eq!(rt.retain_count(a), 0);
    assert!(w.load(&mut rt).is_none());
    assert_eq!(rt.retain_count(a), 0);
    w.destroy(&mut rt);
}

#[test]
fn weak_copy_is_destroyed_independently() {
    let mut rt = Runtime::new();
    let a = rt.new_object();
    let h = StrongPtr::new(a).unwrap();
    let w = WeakPtr::new(&mut rt, a).unwrap();
    let c = w.duplicate(&mut rt);
    c.destroy(&mut rt);
    let l = w.load(&mut rt).unwrap();
    assert_eq!(l.ptr(), a);
    l.release(&mut rt);

    let c2 = w.duplicate(&mut rt);
    w.destroy(&mut rt);
    let l2 = c2.load(&mut rt).unwrap();
    assert_eq!(l2.ptr(), a);
    l2.release(&mut rt);
    c2.destroy(&mut rt);
    h.release(&mut rt);
    assert_eq!(rt.retain_count(a), 0);
}

#[test]
fn autorelease_defers_until_drain() {
    let mut rt = Runtime::new();
    let a = rt.new_object();
    let h = StrongPtr::new(a).unwrap();
    let p = h.autorelease(&mut rt);
    assert_eq!(p, a);
    assert_eq!(rt.retain_count(a), 1);
    rt.drain_pool();
    assert_eq!(rt.retain_count(a), 0);
}

#[test]
fn drain_releases_each_deferred_credit() {
    let mut rt = Runtime::new();
    let a = rt.new_object();
    let b = rt.new_object();
    rt.retain(a);
    rt.retain(a);
    StrongPtr::new(a).unwrap().autorelease(&mut rt);
    StrongPtr::new(b).unwrap().autorelease(&mut rt);
    StrongPtr::new(a).unwrap().autorelease(&mut rt);
    assert_eq!(rt.retain_count(a), 3);
    assert_eq!(rt.retain_count(b), 1);
    rt.drain_pool();
    assert_eq!(rt.retain_count(a), 1);
    assert_eq!(rt.retain_count(b), 0);
    rt.drain_pool();
    assert_eq!(rt.retain_count(a), 1);
}

#[test]
fn observe_then_load_round_trip() {
    let mut rt = Runtime::new();
    let _first = rt.new_object();
    let a = rt.new_object();
    let h = StrongPtr::new(a).unwrap();
    let w = h.weak(&mut rt);
    let l = w.load(&mut rt).unwrap();
    assert_eq!(l.ptr(), h.ptr());
    l.release(&mut rt);
    w.destroy(&mut rt);
    h.release(&mut rt);
}

#[test]
fn weak_handle_does_not_keep_object_alive() {
    let mut rt = Runtime::new();
    let a = rt.new_object();
    let w1 = WeakPtr::new(&mut rt, a).unwrap();
    let w2 = w1.duplicate(&mut rt);
    assert_eq!(rt.retain_count(a), 1);
    StrongPtr::new(a).unwrap().release(&mut rt);
    assert!(w1.load(&mut rt).is_none());
    assert!(w2.load(&mut rt).is_none());
    w1.destroy(&mut rt);
    w2.destroy(&mut rt);
}
