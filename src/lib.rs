//! Ownership handles over the objects of a reference-counting runtime.
//!
//! `StrongPtr` holds one retain-count credit of a non-null object and gives it
//! back exactly once; `WeakPtr` owns a weak slot that observes an object without
//! keeping it alive, and loads a fresh `StrongPtr` while the object lives.
//! `Runtime` is the runtime they act on: retain counts, weak slots and the pool
//! of deferred releases, with its state described by `RuntimeState`.
pub mod laws;
pub mod runtime;
pub mod strong;
pub mod weak;

pub use runtime::{CreditCall, Runtime, RuntimeState, NIL};
pub use strong::StrongPtr;
pub use weak::WeakPtr;
