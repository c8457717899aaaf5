use vstd::prelude::*;
use crate::workload::{Op, PAYLOAD_BOUND};

verus! {

/// Value of counter `c` once `ops` have been applied one after another:
/// the payload of the last write to `c`, or the initial 0.
pub open spec fn last_write(ops: Seq<Op>, c: usize) -> u64
    decreases ops.len(),
{
    if ops.len() == 0 {
        0
    } else {
        match ops.last() {
            Op::Write { counter, value } => if counter == c {
                value
            } else {
                last_write(ops.drop_last(), c)
            },
            Op::Read { .. } => last_write(ops.drop_last(), c),
        }
    }
}

/// What operation `i` returns when `ops` are applied in this order.
pub open spec fn result_at(ops: Seq<Op>, i: int) -> u64 {
    match ops[i] {
        Op::Read { counter } => last_write(ops.take(i), counter),
        Op::Write { value, .. } => value,
    }
}

/// `v` is the initial 0 or the payload of some write to `c` in `ops`.
pub open spec fn written_to(ops: Seq<Op>, c: usize, v: u64) -> bool {
    v == 0 || exists|j: int| 0 <= j < ops.len() && #[trigger] ops[j] == (Op::Write { counter: c, value: v })
}

/// The state after one total order of operations has been applied.
pub struct Outcome {
    /// Final value of each counter.
    pub finals: Vec<u64>,
    /// Value returned by each operation, in the order applied.
    pub results: Vec<u64>,
}

/// Applies `ops` in order to `counters` counters that start at 0.
pub fn replay(counters: usize, ops: &Vec<Op>) -> (r: Outcome)
    requires
        forall|i: int| 0 <= i < ops@.len() ==> (#[trigger] ops@[i]).target() < counters,
    ensures
        r.finals@.len() == counters,
        forall|c: int| 0 <= c < counters ==> #[trigger] r.finals@[c] == last_write(ops@, c as usize),
        r.results@.len() == ops@.len(),
        forall|i: int| 0 <= i < ops@.len() ==> #[trigger] r.results@[i] == result_at(ops@, i),
{
    let mut finals: Vec<u64> = Vec::new();
    let mut c: usize = 0;
    while c < counters
        invariant
            c <= counters,
            finals@.len() == c,
            forall|k: int| 0 <= k < c ==> #[trigger] finals@[k] == 0,
        decreases counters - c,
    {
        finals.push(0);
        c = c + 1;
    }
    assert(ops@.take(0) =~= Seq::<Op>::empty());
    let mut results: Vec<u64> = Vec::new();
    let mut i: usize = 0;
    while i < ops.len()
        invariant
            i <= ops@.len(),
            forall|k: int| 0 <= k < ops@.len() ==> (#[trigger] ops@[k]).target() < counters,
            finals@.len() == counters,
            forall|k: int| 0 <= k < counters ==> #[trigger] finals@[k] == last_write(ops@.take(i as int), k as usize),
            results@.len() == i,
            forall|k: int| 0 <= k < i ==> #[trigger] results@[k] == result_at(ops@, k),
        decreases ops@.len() - i,
    {
        let op = ops[i];
        let ghost before = ops@.take(i as int);
        let ghost after = ops@.take(i as int + 1);
        assert(after.drop_last() =~= before);
        assert(after.last() == op);
        let result = match op {
            Op::Read { counter } => finals[counter],
            Op::Write { counter, value } => {
                finals.set(counter, value);
                value
            },
        };
        results.push(result);
        i = i + 1;
    }
    assert(ops@.take(ops@.len() as int) =~= ops@);
    Outcome { finals, results }
}

/// A counter's final value is its initial 0 or a value that some write
/// stored in it, whichever order the operations ran in.
pub proof fn lemma_final_value_written(ops: Seq<Op>, c: usize)
    ensures
        written_to(ops, c, last_write(ops, c)),
    decreases ops.len(),
{
    if ops.len() > 0 {
        let prefix = ops.drop_last();
        lemma_final_value_written(prefix, c);
        let v = last_write(ops, c);
        if v != 0 && v == last_write(prefix, c) && !(ops.last() == (Op::Write { counter: c, value: v })) {
            let j = choose|j: int| 0 <= j < prefix.len() && #[trigger] prefix[j] == (Op::Write { counter: c, value: v });
            assert(ops[j] == prefix[j]);
        }
        if ops.last() == (Op::Write { counter: c, value: v }) {
            assert(ops[ops.len() - 1] == (Op::Write { counter: c, value: v }));
        }
    }
}

/// A read observes its counter's initial 0 or a value that an earlier
/// write stored in that same counter.
pub proof fn lemma_read_observes_written(ops: Seq<Op>, i: int)
    requires
        0 <= i < ops.len(),
        ops[i] is Read,
    ensures
        written_to(ops.take(i), ops[i].target(), result_at(ops, i)),
{
    lemma_final_value_written(ops.take(i), ops[i].target());
}

/// The last write applied to a counter decides its final value: once a
/// write stores `value` in `c` and no later write touches `c`, `c` ends
/// with `value`.
pub proof fn lemma_last_applied_write_wins(ops: Seq<Op>, j: int, c: usize, value: u64)
    requires
        0 <= j < ops.len(),
        ops[j] == (Op::Write { counter: c, value }),
        forall|k: int| j < k < ops.len() ==> !(#[trigger] ops[k] is Write && ops[k].target() == c),
    ensures
        last_write(ops, c) == value,
    decreases ops.len(),
{
    if j < ops.len() - 1 {
        let prefix = ops.drop_last();
        assert(!(ops[ops.len() - 1] is Write && ops[ops.len() - 1].target() == c));
        assert forall|k: int| j < k < prefix.len() implies !(#[trigger] prefix[k] is Write && prefix[k].target() == c) by {
            assert(prefix[k] == ops[k]);
        }
        lemma_last_applied_write_wins(prefix, j, c, value);
    }
}

/// Where no operation writes, every operation returns 0 and every counter
/// ends at 0.
pub proof fn lemma_reads_only_observe_zero(ops: Seq<Op>, i: int, c: usize)
    requires
        forall|k: int| 0 <= k < ops.len() ==> #[trigger] ops[k] is Read,
        0 <= i < ops.len(),
    ensures
        result_at(ops, i) == 0,
        last_write(ops, c) == 0,
{
    lemma_final_value_written(ops, c);
    lemma_final_value_written(ops.take(i), ops[i].target());
    if last_write(ops, c) != 0 {
        let j = choose|j: int| 0 <= j < ops.len() && #[trigger] ops[j] == (Op::Write { counter: c, value: last_write(ops, c) });
        assert(ops[j] is Read);
    }
    let t = ops.take(i);
    let v = last_write(t, ops[i].target());
    if v != 0 {
        let j = choose|j: int| 0 <= j < t.len() && #[trigger] t[j] == (Op::Write { counter: ops[i].target(), value: v });
        assert(t[j] == ops[j]);
        assert(ops[j] is Read);
    }
}

/// When every write carries a payload below `PAYLOAD_BOUND`, every
/// operation returns a value below it and every counter ends below it.
pub proof fn lemma_results_below_bound(ops: Seq<Op>, i: int, c: usize)
    requires
        forall|k: int| 0 <= k < ops.len() ==> (#[trigger] ops[k]).wf(),
        0 <= i < ops.len(),
    ensures
        result_at(ops, i) < PAYLOAD_BOUND,
        last_write(ops, c) < PAYLOAD_BOUND,
{
    lemma_final_value_written(ops, c);
    if last_write(ops, c) != 0 {
        let j = choose|j: int| 0 <= j < ops.len() && #[trigger] ops[j] == (Op::Write { counter: c, value: last_write(ops, c) });
        assert(ops[j].wf());
    }
    let t = ops.take(i);
    let v = last_write(t, ops[i].target());
    lemma_final_value_written(t, ops[i].target());
    if v != 0 {
        let j = choose|j: int| 0 <= j < t.len() && #[trigger] t[j] == (Op::Write { counter: ops[i].target(), value: v });
        assert(t[j] == ops[j]);
        assert(ops[j].wf());
    }
    assert(ops[i].wf());
}

/// `ops` is a run over `counters` counters with `per_counter` operations
/// each, as the generator makes it.
pub open spec fn generated_run(ops: Seq<Op>, counters: nat, per_counter: nat) -> bool {
    &&& ops.len() == counters * per_counter
    &&& forall|i: int| 0 <= i < ops.len() ==> (#[trigger] ops[i]).target() == i / (per_counter as int)
    &&& forall|i: int| 0 <= i < ops.len() ==> (#[trigger] ops[i]).wf()
}

/// Every counter of a run ends with 0 or a value written to it in that run,
/// and every operation returns a value below `PAYLOAD_BOUND`.
pub open spec fn legitimate_outcome(ops: Seq<Op>, counters: nat) -> bool {
    &&& forall|c: int| 0 <= c < counters ==> written_to(ops, c as usize, #[trigger] last_write(ops, c as usize))
    &&& forall|i: int| 0 <= i < ops.len() ==> #[trigger] result_at(ops, i) < PAYLOAD_BOUND
}

/// Two runs of one configuration, whatever their draws and whatever order
/// the lock applied them in, have the same number of operations and each
/// ends in a legitimate outcome.
pub proof fn lemma_repeated_runs_equivalent(
    first: Seq<Op>,
    second: Seq<Op>,
    counters: nat,
    per_counter: nat,
)
    requires
        generated_run(first, counters, per_counter),
        generated_run(second, counters, per_counter),
    ensures
        first.len() == second.len(),
        legitimate_outcome(first, counters),
        legitimate_outcome(second, counters),
{
    lemma_run_legitimate(first, counters);
    lemma_run_legitimate(second, counters);
}

proof fn lemma_run_legitimate(ops: Seq<Op>, counters: nat)
    requires
        forall|i: int| 0 <= i < ops.len() ==> (#[trigger] ops[i]).wf(),
    ensures
        legitimate_outcome(ops, counters),
{
    assert forall|c: int| 0 <= c < counters implies written_to(ops, c as usize, #[trigger] last_write(ops, c as usize)) by {
        lemma_final_value_written(ops, c as usize);
    }
    assert forall|i: int| 0 <= i < ops.len() implies #[trigger] result_at(ops, i) < PAYLOAD_BOUND by {
        lemma_results_below_bound(ops, i, 0);
    }
}

} // verus!
