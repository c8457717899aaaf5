use vstd::prelude::*;
use vstd::rwlock::RwLock;
use std::sync::Arc;
use crate::workload::{Op, PAYLOAD_BOUND};

verus! {

/// Lock rule that admits every value.
pub open spec fn any_value() -> spec_fn(u64) -> bool {
    |v: u64| true
}

/// Lock rule of the workload's counters: values below `PAYLOAD_BOUND`,
/// which covers the initial 0 and every payload a write can carry.
pub open spec fn payload_value() -> spec_fn(u64) -> bool {
    |v: u64| v < PAYLOAD_BOUND
}

/// A counter whose lock occupies the calling thread while it waits.
///
/// Every clone refers to the same lock-guarded cell. The cell is made with
/// a rule on the values it may hold; every read returns a value that obeys
/// it, and every write must.
pub struct Counter {
    inner: Arc<RwLock<u64, spec_fn(u64) -> bool>>,
}

impl Counter {
    /// The cell this handle refers to.
    pub closed spec fn cell(&self) -> RwLock<u64, spec_fn(u64) -> bool> {
        *self.inner
    }

    /// A fresh counter holding 0, whose values obey `allowed`.
    pub fn with_rule(Ghost(allowed): Ghost<spec_fn(u64) -> bool>) -> (r: Counter)
        requires
            allowed(0),
        ensures
            r.cell().pred() == allowed,
    {
        Counter { inner: Arc::new(RwLock::new(0, Ghost(allowed))) }
    }

    /// A fresh counter holding 0 that accepts any value.
    pub fn new() -> (r: Counter)
        ensures
            r.cell().pred() == any_value(),
    {
        Counter::with_rule(Ghost(any_value()))
    }

    /// A fresh counter holding 0 that accepts the workload's payloads.
    pub fn for_payloads() -> (r: Counter)
        ensures
            r.cell().pred() == payload_value(),
    {
        Counter::with_rule(Ghost(payload_value()))
    }

    /// The counter's current value, read under the shared lock.
    pub fn get(&self) -> (r: u64)
        ensures
            self.cell().inv(r),
    {
        let handle = self.inner.acquire_read();
        let value = *handle.borrow();
        handle.release_read();
        value
    }

    /// Overwrites the counter's value under the exclusive lock.
    pub fn set(&self, value: u64)
        requires
            self.cell().inv(value),
    {
        let (_previous, handle) = self.inner.acquire_write();
        handle.release_write(value);
    }

    /// Runs `op` on this counter: a read returns the current value, a write
    /// stores its payload and returns it.
    pub fn apply(&self, op: Op) -> (r: u64)
        requires
            op matches Op::Write { value, .. } ==> self.cell().inv(value),
        ensures
            self.cell().inv(r),
            op matches Op::Write { value, .. } ==> r == value,
    {
        match op {
            Op::Read { .. } => self.get(),
            Op::Write { value, .. } => {
                self.set(value);
                value
            },
        }
    }

    /// Display name of this counter variant.
    pub fn name() -> (r: &'static str)
        ensures
            r@ == "Counter"@,
    {
        proof {
            reveal_strlit("Counter");
        }
        "Counter"
    }
}

/// A second handle on the same cell.
impl Clone for Counter {
    fn clone(&self) -> (r: Counter)
        ensures
            r.cell() == self.cell(),
    {
        Counter { inner: Arc::clone(&self.inner) }
    }
}

/// Runs `op` against its counter, one of `counters`, all made with the
/// workload's rule: a read returns the current value, a write stores its
/// payload and returns it.
pub fn perform(counters: &Vec<Counter>, op: Op) -> (r: u64)
    requires
        op.target() < counters@.len(),
        op.wf(),
        forall|c: int| 0 <= c < counters@.len() ==> (#[trigger] counters@[c]).cell().pred() == payload_value(),
    ensures
        r < PAYLOAD_BOUND,
        op matches Op::Write { value, .. } ==> r == value,
{
    counters[op.counter()].apply(op)
}

} // verus!
