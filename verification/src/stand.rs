//! Exclusive access to the shared test hardware.
//!
//! One physical test stand is shared by every test case in the process. The
//! lock here is the decision core of that exclusivity: at most one guard is
//! outstanding at any time, a second acquisition cannot succeed until the
//! first guard came back. The blocking wait around it (sleeping until the
//! holder is done) is the embedding program's concern.

use vstd::prelude::*;

verus! {

/// A resource asked for was not named in the configuration, and is therefore
/// not available. Carries the resource's name.
#[derive(Clone, Copy, Debug)]
pub struct NotConfiguredError(pub &'static str);

/// Witness of exclusive access to the test stand. There is never more than
/// one outstanding guard per lock; hold it for the whole test run and hand
/// it back afterwards.
#[derive(Debug)]
pub struct TestStandGuard;

/// The process-wide state deciding who may use the test stand.
pub struct TestStandLock {
    held: bool,
}

impl TestStandLock {
    /// Whether a guard is outstanding.
    pub closed spec fn locked(&self) -> bool {
        self.held
    }

    /// A fresh lock with no guard outstanding.
    pub fn new() -> (l: TestStandLock)
        ensures
            !l.locked(),
    {
        TestStandLock { held: false }
    }

    /// Takes the guard if nobody holds it.
    ///
    /// Succeeds exactly when no guard is outstanding; afterwards one is, so
    /// a second acquisition fails until `release` runs. A caller that gets
    /// nothing must wait and try again.
    pub fn try_acquire(&mut self) -> (r: Option<TestStandGuard>)
        ensures
            old(self).locked() ==> r is None && final(self).locked(),
            !old(self).locked() ==> r is Some && final(self).locked(),
    {
        if self.held {
            None
        } else {
            self.held = true;
            Some(TestStandGuard)
        }
    }

    /// Hands the guard back, letting the next acquisition succeed.
    pub fn release(&mut self, guard: TestStandGuard) -> (r: ())
        ensures
            !final(self).locked(),
    {
        self.held = false;
    }
}

/// Exclusivity law: from a free lock, a first acquisition succeeds and a
/// second one fails until the first guard is released, after which acquiring
/// succeeds again. Acquisitions therefore serialize: each one's exclusive
/// span ends before the next can begin.
pub proof fn lemma_guard_exclusive(l: TestStandLock)
    requires
        !l.locked(),
    ensures
        acquire_spec(l).1 is Some,
        acquire_spec(acquire_spec(l).0).1 is None,
        acquire_spec(release_spec(acquire_spec(l).0)).1 is Some,
{
}

/// The lock state and outcome after one acquisition attempt.
pub closed spec fn acquire_spec(l: TestStandLock) -> (TestStandLock, Option<TestStandGuard>) {
    if l.locked() {
        (l, None)
    } else {
        (TestStandLock { held: true }, Some(TestStandGuard))
    }
}

/// The lock state after the guard came back.
pub closed spec fn release_spec(l: TestStandLock) -> TestStandLock {
    TestStandLock { held: false }
}

} // verus!
