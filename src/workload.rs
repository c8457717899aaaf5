use vstd::prelude::*;

verus! {

/// Written values are drawn uniformly from `[0, PAYLOAD_BOUND)`.
pub const PAYLOAD_BOUND: u64 = 10000;

/// The random source used by the generator.
#[verifier::external_type_specification]
#[verifier::external_body]
pub struct ExThreadRng(rand::rngs::ThreadRng);

/// Probability that a generated operation is a read, as
/// `numerator / denominator`.
#[derive(Clone, Copy, Debug, PartialEq, Eq, Structural)]
pub struct ReadRatio {
    pub numerator: u32,
    pub denominator: u32,
}

impl ReadRatio {
    /// A ratio names a probability in `[0, 1]`.
    pub open spec fn wf(self) -> bool {
        self.denominator > 0 && self.numerator <= self.denominator
    }

    /// Builds `numerator / denominator`; `None` unless it lies in `[0, 1]`.
    pub fn new(numerator: u32, denominator: u32) -> (r: Option<ReadRatio>)
        ensures
            r is Some <==> (denominator > 0 && numerator <= denominator),
            r matches Some(q) ==> q.numerator == numerator && q.denominator == denominator
                && q.wf(),
    {
        if denominator > 0 && numerator <= denominator {
            Some(ReadRatio { numerator, denominator })
        } else {
            None
        }
    }

    /// Every operation is a write.
    pub open spec fn never_reads(self) -> bool {
        self.numerator == 0
    }

    /// Every operation is a read.
    pub open spec fn always_reads(self) -> bool {
        self.numerator == self.denominator
    }
}

/// One planned action against the counter with index `counter`.
#[derive(Clone, Copy, Debug, PartialEq, Eq, Structural)]
pub enum Op {
    /// Returns the counter's current value.
    Read { counter: usize },
    /// Stores `value` and returns it.
    Write { counter: usize, value: u64 },
}

impl Op {
    pub open spec fn target(self) -> usize {
        match self {
            Op::Read { counter } => counter,
            Op::Write { counter, .. } => counter,
        }
    }

    /// A write carries a payload below `PAYLOAD_BOUND`.
    pub open spec fn wf(self) -> bool {
        match self {
            Op::Read { .. } => true,
            Op::Write { value, .. } => value < PAYLOAD_BOUND,
        }
    }

    /// Index of the counter this operation is bound to.
    pub fn counter(&self) -> (r: usize)
        ensures
            r == self.target(),
    {
        match self {
            Op::Read { counter } => *counter,
            Op::Write { counter, .. } => *counter,
        }
    }
}

/// Relies on rand's `Rng::gen_ratio`: it panics unless
/// `0 < denominator` and `numerator <= denominator`, returns `false` when the
/// numerator is zero and `true` when both are equal.
#[verifier::external_body]
fn draw_ratio(rng: &mut rand::rngs::ThreadRng, numerator: u32, denominator: u32) -> (r: bool)
    requires
        0 < denominator,
        numerator <= denominator,
    ensures
        numerator == 0 ==> !r,
        numerator == denominator ==> r,
{
    rand::Rng::gen_ratio(rng, numerator, denominator)
}

/// Relies on rand's `Rng::gen_range(low, high)` on `u64`: it panics unless
/// `low < high`, and returns a value in `[low, high)`.
#[verifier::external_body]
fn draw_below(rng: &mut rand::rngs::ThreadRng, high: u64) -> (r: u64)
    requires
        0 < high,
    ensures
        r < high,
{
    rand::Rng::gen_range(rng, 0u64, high)
}

/// The operation that draw `d` makes of position `i` when each counter
/// gets `per_counter` operations: `None` is a read, `Some(v)` a write of `v`.
pub open spec fn op_of_draw(i: int, per_counter: int, d: Option<u64>) -> Op {
    match d {
        None => Op::Read { counter: (i / per_counter) as usize },
        Some(v) => Op::Write { counter: (i / per_counter) as usize, value: v },
    }
}

/// Turns a run's draws into its operations: the `i`-th draw becomes an
/// operation on counter `i / per_counter`.
pub fn ops_from_draws(max_counters: usize, per_counter: usize, draws: &Vec<Option<u64>>) -> (ops:
    Vec<Op>)
    requires
        draws@.len() == max_counters * per_counter,
    ensures
        ops@.len() == draws@.len(),
        forall|i: int|
            0 <= i < ops@.len() ==> #[trigger] ops@[i] == op_of_draw(i, per_counter as int, draws@[i]),
{
    let mut ops: Vec<Op> = Vec::new();
    let mut i: usize = 0;
    while i < draws.len()
        invariant
            i <= draws@.len(),
            draws@.len() == max_counters * per_counter,
            ops@.len() == i,
            forall|k: int|
                0 <= k < i ==> #[trigger] ops@[k] == op_of_draw(k, per_counter as int, draws@[k]),
        decreases draws@.len() - i,
    {
        if per_counter == 0 {
            assert(max_counters * per_counter == 0) by (nonlinear_arith)
                requires per_counter == 0;
        }
        let counter = i / per_counter;
        let op = match draws[i] {
            None => Op::Read { counter },
            Some(value) => Op::Write { counter, value },
        };
        ops.push(op);
        i = i + 1;
    }
    ops
}

/// The operations of one run: `per_counter` operations for each of the
/// counters `0 .. max_counters`, in counter order. Each one is a read with
/// probability `ratio`, else a write of a uniform payload.
pub fn generate_ops(
    rng: &mut rand::rngs::ThreadRng,
    max_counters: usize,
    per_counter: usize,
    ratio: ReadRatio,
) -> (ops: Vec<Op>)
    requires
        ratio.wf(),
        max_counters * per_counter <= usize::MAX,
    ensures
        ops@.len() == max_counters * per_counter,
        forall|i: int| 0 <= i < ops@.len() ==> (#[trigger] ops@[i]).target() == i / (per_counter as int),
        forall|i: int| 0 <= i < ops@.len() ==> (#[trigger] ops@[i]).wf(),
        ratio.never_reads() ==> forall|i: int| 0 <= i < ops@.len() ==> (#[trigger] ops@[i]) is Write,
        ratio.always_reads() ==> forall|i: int| 0 <= i < ops@.len() ==> (#[trigger] ops@[i]) is Read,
{
    let total: usize = max_counters * per_counter;
    let mut draws: Vec<Option<u64>> = Vec::new();
    while draws.len() < total
        invariant
            draws@.len() <= total,
            ratio.wf(),
            forall|i: int| 0 <= i < draws@.len() ==> ((#[trigger] draws@[i]) matches Some(v) ==> v < PAYLOAD_BOUND),
            ratio.never_reads() ==> forall|i: int| 0 <= i < draws@.len() ==> (#[trigger] draws@[i]) is Some,
            ratio.always_reads() ==> forall|i: int| 0 <= i < draws@.len() ==> (#[trigger] draws@[i]) is None,
        decreases total - draws@.len(),
    {
        let read = draw_ratio(rng, ratio.numerator, ratio.denominator);
        if read {
            draws.push(None);
        } else {
            let value = draw_below(rng, PAYLOAD_BOUND);
            draws.push(Some(value));
        }
    }
    let ops = ops_from_draws(max_counters, per_counter, &draws);
    assert forall|i: int| 0 <= i < ops@.len() implies (#[trigger] ops@[i]).wf() by {
        assert(ops@[i] == op_of_draw(i, per_counter as int, draws@[i]));
    }
    ops
}

} // verus!
