//! A cancellation token shared between the signal handler and the pipeline.

use std::sync::atomic::{AtomicBool, Ordering};
use std::sync::Arc;
use vstd::prelude::*;

verus! {

/// Whether shutdown was requested. Handles made by [`ExitHandler::share`]
/// see the same state.
pub struct ExitHandler(Arc<AtomicBool>);

impl ExitHandler {
    /// A token on which no shutdown was requested yet.
    pub fn new() -> ExitHandler {
        ExitHandler(Arc::new(AtomicBool::new(false)))
    }

    /// Another handle on the same token, e.g. for a signal handler.
    pub fn share(&self) -> ExitHandler {
        ExitHandler(self.0.clone())
    }

    /// Whether shutdown was requested.
    pub fn is_exiting(&self) -> bool {
        self.0.load(Ordering::SeqCst)
    }

    /// Requests shutdown; returns whether it had been requested before (a
    /// second request forces the exit).
    pub fn request_exit(&self) -> bool {
        self.0.swap(true, Ordering::SeqCst)
    }
}

} // verus!
