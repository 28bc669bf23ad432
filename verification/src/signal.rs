//! The binary condition-variable semaphore used for queue wake-ups and
//! flush-completion notification.
//!
//! The latch protocol itself — a signal raises a flag, and of the
//! waiters woken by `notify_all` only the first to acquire the lock
//! consumes it — is captured by the verified `SignalState` model below.
//! The blocking primitive `SemaphoreLite` realises that protocol on
//! parking_lot's mutex and condition variable, which Verus takes on
//! trust.

use vstd::prelude::*;

verus! {

#[verifier::external_type_specification]
#[verifier::external_body]
#[verifier::reject_recursive_types(R)]
#[verifier::reject_recursive_types(T)]
pub struct ExLockApiMutex<R, T: ?Sized>(parking_lot::lock_api::Mutex<R, T>);

#[verifier::external_type_specification]
#[verifier::external_body]
pub struct ExRawMutex(parking_lot::RawMutex);

#[verifier::external_type_specification]
#[verifier::external_body]
pub struct ExCondvar(parking_lot::Condvar);

/// A lightweight binary semaphore: a mutex-guarded boolean flag paired
/// with a condition variable.  It behaves as a fire-once-per-signal
/// latch, not a counted semaphore.
pub struct SemaphoreLite {
    mutex: parking_lot::Mutex<bool>,
    cond_var: parking_lot::Condvar,
}

impl SemaphoreLite {
    /// Relies on parking_lot::Mutex::new and parking_lot::Condvar::new:
    /// builds the latch with the flag clear and no waiters.
    #[verifier::external_body]
    pub fn new() -> SemaphoreLite {
        SemaphoreLite {
            mutex: parking_lot::Mutex::new(false),
            cond_var: parking_lot::Condvar::new(),
        }
    }

    /// Relies on parking_lot::Mutex::lock and
    /// parking_lot::Condvar::notify_all: sets the flag under the lock
    /// and wakes every waiter.
    #[verifier::external_body]
    pub fn signal(&self) {
        let mut guard = self.mutex.lock();
        *guard = true;
        self.cond_var.notify_all();
    }

    /// Relies on parking_lot::Mutex::lock and parking_lot::Condvar::wait:
    /// blocks until the flag is set, then consumes it.
    #[verifier::external_body]
    pub fn wait(&self) {
        let mut guard = self.mutex.lock();
        while !*guard {
            self.cond_var.wait(&mut guard);
        }
        *guard = false;
    }

    /// Relies on parking_lot::Mutex::lock and
    /// parking_lot::Condvar::wait_for: as `wait`, but returns after
    /// `timeout_ms` milliseconds without consuming the flag if no signal
    /// arrived in time.
    #[verifier::external_body]
    pub fn wait_timeout(&self, timeout_ms: u64) {
        let duration = std::time::Duration::from_millis(timeout_ms);
        let mut guard = self.mutex.lock();
        while !*guard {
            if self.cond_var.wait_for(&mut guard, duration).timed_out() {
                return;
            }
        }
        *guard = false;
    }
}

/// The abstract state of the latch: whether a signal is pending.
#[derive(Clone, Copy, PartialEq, Eq, Structural, Debug)]
pub struct SignalState {
    pub flag: bool,
}

/// The state after a `signal`: the flag is raised, whatever it was.
pub open spec fn spec_signal(s: SignalState) -> SignalState {
    SignalState { flag: true }
}

/// One waiter acquiring the lock: it proceeds exactly when the flag was
/// raised, and leaves it clear either way.
pub open spec fn spec_consume(s: SignalState) -> (SignalState, bool) {
    (SignalState { flag: false }, s.flag)
}

impl SignalState {
    /// A fresh latch: no signal pending.
    pub fn new() -> (r: Self)
        ensures
            !r.flag,
    {
        SignalState { flag: false }
    }

    /// Raises the flag, as `signal` does under the lock.
    pub fn signal_step(&mut self)
        ensures
            *final(self) == spec_signal(*old(self)),
    {
        self.flag = true;
    }

    /// One waiter's turn at the lock: returns whether it may proceed,
    /// consuming the flag if so.
    pub fn try_consume(&mut self) -> (taken: bool)
        ensures
            (*final(self), taken) == spec_consume(*old(self)),
    {
        let taken = self.flag;
        self.flag = false;
        taken
    }
}

/// Signal behaviour: with two waiters at a latch, a single signal lets
/// exactly one proceed — the first to take the lock consumes the flag,
/// the second finds it clear and blocks again.
pub proof fn lemma_single_signal_wakes_exactly_one(s: SignalState)
    requires
        !s.flag,
    ensures
        ({
            let s1 = spec_signal(s);
            let (s2, first) = spec_consume(s1);
            let (s3, second) = spec_consume(s2);
            first && !second
        }),
{
}

} // verus!
