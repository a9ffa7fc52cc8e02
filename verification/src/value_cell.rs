use vstd::prelude::*;

use std::sync::Arc;

verus! {

/// A snapshot of the current value of a watch.  Once obtained it never
/// changes, however many newer values are published after it was taken.
pub type Guard<T> = Arc<T>;

/// Holds the published value behind a single-writer, multi-reader atomic
/// swap: readers never block, never block each other, and never observe a
/// torn value.
///
/// A cell is a handle; `reader` hands out further handles to the same
/// underlying value.  The cell itself is opaque to verification; the
/// snapshot an operation returns is pinned by its contract, and what was
/// last stored is tracked by the cell's single writer, the reload
/// pipeline.
#[verifier::external_body]
#[verifier::reject_recursive_types(T)]
pub struct ValueCell<T> {
    cell: Arc<arc_swap::ArcSwap<T>>,
}

impl<T> ValueCell<T> {
    /// Relies on std::sync::Arc::new and arc_swap::ArcSwapAny::new: a
    /// fresh cell holding `value`, with a snapshot of exactly that value
    /// — the returned handle is the one the cell was seeded with.
    #[verifier::external_body]
    pub fn new_with_snapshot(value: T) -> (r: (ValueCell<T>, Guard<T>))
        ensures
            r.1 == value,
    {
        let snapshot = Arc::new(value);
        let cell = ValueCell { cell: Arc::new(arc_swap::ArcSwap::new(snapshot.clone())) };
        (cell, snapshot)
    }

    /// Relies on std::sync::Arc::clone: another handle to the same cell.
    #[verifier::external_body]
    pub fn reader(&self) -> Self {
        ValueCell { cell: self.cell.clone() }
    }

    /// Relies on std::sync::Arc::new and arc_swap::ArcSwapAny::store:
    /// publishes `value` atomically — a concurrent load yields the old
    /// value or the new one, whole — and returns a snapshot of exactly
    /// the value stored, the same handle the cell now holds.
    #[verifier::external_body]
    pub fn store_with_snapshot(&self, value: T) -> (r: Guard<T>)
        ensures
            r == value,
    {
        let snapshot = Arc::new(value);
        self.cell.store(snapshot.clone());
        snapshot
    }

    /// Relies on arc_swap::ArcSwapAny::load_full: a snapshot of the value
    /// current at some instant during the call.  Another handle may store
    /// concurrently, so nothing is promised of which value it is.
    #[verifier::external_body]
    pub fn load(&self) -> Guard<T> {
        self.cell.load_full()
    }
}

} // verus!
