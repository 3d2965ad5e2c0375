use vstd::prelude::*;
use std::sync::atomic::{AtomicBool, Ordering};

verus! {

/// A cancellation token shared between the monitoring loop and the
/// termination-signal listener: written once, read repeatedly.
pub struct StopFlag {
    flag: AtomicBool,
}

impl StopFlag {
    pub fn new() -> (r: Self) {
        StopFlag { flag: AtomicBool::new(false) }
    }
}

/// Whether a stop was requested.
pub fn should_stop(token: &StopFlag) -> bool {
    token.flag.load(Ordering::Relaxed)
}

/// Requests a stop.
pub fn set_stop_flag(token: &StopFlag) {
    token.flag.store(true, Ordering::Relaxed);
}

} // verus!
