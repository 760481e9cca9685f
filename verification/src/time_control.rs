//! Stopping a search from another thread.
use vstd::prelude::*;
use std::sync::Arc;
use std::sync::atomic::AtomicBool;
use std::sync::atomic::Ordering;

verus! {

/// A wrapper for easily aborting a search, even on a different thread.
#[derive(Clone)]
pub struct TimeControlHandle {
    stop: Arc<AtomicBool>,
}

impl TimeControlHandle {
    /// A handle whose stop flag is not raised.
    pub fn new() -> Self {
        TimeControlHandle { stop: Arc::new(AtomicBool::new(false)) }
    }

    /// Stop the current search.
    pub fn stop(&self) {
        self.stop.store(true, Ordering::SeqCst);
    }

    /// Whether the stop flag has been raised.
    pub fn stopped(&self) -> bool {
        self.stop.load(Ordering::SeqCst)
    }
}

} // verus!
