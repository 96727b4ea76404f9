//! The zero-cross record: written by the edge interrupt, read and released by
//! the control loop, always under a critical section.
use vstd::prelude::*;

use core::cell::RefCell;
use critical_section::Mutex;

verus! {

/// Whether a zero crossing is pending, and when the last one was recorded.
/// `active` means that the firing owed for the half-cycle that began at
/// `timestamp` (in clock ticks) has not been completed yet.
#[derive(Clone, Copy, Debug, PartialEq, Eq)]
pub struct ZeroCrossState {
    pub active: bool,
    pub timestamp: u64,
}

impl ZeroCrossState {
    /// No crossing seen yet.
    pub fn idle() -> (r: ZeroCrossState)
        ensures
            !r.active,
            r.timestamp == 0,
    {
        ZeroCrossState { active: false, timestamp: 0 }
    }

    /// An edge seen at `now` opens a cycle, unless one is still pending, in
    /// which case the edge is ignored.
    pub fn record_edge(&mut self, now: u64)
        ensures
            old(self).active ==> *final(self) == *old(self),
            !old(self).active ==> final(self).active && final(self).timestamp == now,
    {
        if !self.active {
            self.active = true;
            self.timestamp = now;
        }
    }

    /// Closes the pending cycle; the timestamp is kept.
    pub fn clear(&mut self)
        ensures
            !final(self).active,
            final(self).timestamp == old(self).timestamp,
    {
        self.active = false;
    }
}

#[verifier::external_type_specification]
#[verifier::external_body]
#[verifier::reject_recursive_types(T)]
pub struct ExCriticalMutex<T>(critical_section::Mutex<T>);

#[verifier::external_type_specification]
#[verifier::external_body]
#[verifier::reject_recursive_types(T)]
pub struct ExRefCell<T: ?Sized>(core::cell::RefCell<T>);

/// The record shared between the edge interrupt and the control loop.
pub type SharedZeroCross = Mutex<RefCell<ZeroCrossState>>;

/// Relies on critical_section::with and Mutex::borrow_ref: a copy of both
/// fields taken inside one critical section. What it holds depends on the
/// interrupt, so nothing is stated of it.
#[verifier::external_body]
fn read_shared(shared: &SharedZeroCross) -> (r: ZeroCrossState) {
    critical_section::with(|cs| *shared.borrow_ref(cs))
}

/// Relies on critical_section::with and Mutex::borrow_ref_mut: runs
/// `ZeroCrossState::record_edge` on the shared record inside one critical section.
#[verifier::external_body]
fn record_edge_shared(shared: &SharedZeroCross, now: u64) {
    critical_section::with(|cs| shared.borrow_ref_mut(cs).record_edge(now))
}

/// Relies on critical_section::with and Mutex::borrow_ref_mut: runs
/// `ZeroCrossState::clear` on the shared record inside one critical section.
#[verifier::external_body]
fn clear_shared(shared: &SharedZeroCross) {
    critical_section::with(|cs| shared.borrow_ref_mut(cs).clear())
}

/// A consistent copy of the shared record: flag and timestamp from the same edge.
pub fn snapshot(shared: &SharedZeroCross) -> ZeroCrossState {
    read_shared(shared)
}

/// Called from the edge interrupt with the current tick count.
pub fn record_edge(shared: &SharedZeroCross, now: u64) {
    record_edge_shared(shared, now)
}

/// Called by the control loop once the output pulse of the cycle is over.
pub fn release(shared: &SharedZeroCross) {
    clear_shared(shared)
}

} // verus!
