//! The overlap model of the two pipelined stages.
//!
//! The run overlaps the load of batch `N + 1` — reads and decodes on
//! the I/O pool — with the computation on batch `N`, through a
//! handoff that holds at most one finished batch.  This module models
//! that schedule: batch `i` is received by the consumer once its own
//! load is done and the previous batch's computation has freed the
//! consumer, so the receive times follow a max-recurrence over the
//! per-batch stage times.
//!
//! The laws proved here are the overlap property: when one stage
//! dominates the other throughout, the whole run costs the dominant
//! stage's cumulative time plus a single batch of the other stage —
//! the startup latency — and never, in any case, more than the sum
//! of both stages' cumulative times.

use vstd::prelude::*;

verus! {

/// The larger of two times.
pub open spec fn max_int(a: int, b: int) -> int {
    if a >= b {
        a
    } else {
        b
    }
}

/// The cumulative time of one stage over a run.
pub open spec fn total_of(s: Seq<int>) -> int
    decreases s.len(),
{
    if s.len() == 0 {
        0
    } else {
        total_of(s.drop_last()) + s.last()
    }
}

/// When the consumer receives batch `i`: after the first batch's
/// load, each further batch arrives one `max(load[i],
/// compute[i - 1])` later — the consumer waits for whichever of the
/// batch's load and the previous batch's computation ends last.
pub open spec fn receive_time(load: Seq<int>, compute: Seq<int>, i: int) -> int
    recommends
        0 <= i < load.len(),
        load.len() == compute.len(),
    decreases i,
{
    if i <= 0 {
        load[0]
    } else {
        receive_time(load, compute, i - 1) + max_int(load[i], compute[i - 1])
    }
}

/// When the whole run is done: the last batch received, then
/// computed.
pub open spec fn run_total(load: Seq<int>, compute: Seq<int>) -> int
    recommends
        load.len() == compute.len(),
        load.len() >= 1,
{
    receive_time(load, compute, load.len() - 1) + compute[load.len() - 1]
}

/// A partial sum of a nonnegative stage never exceeds its total.
pub proof fn lemma_total_take_le(s: Seq<int>, k: int)
    requires
        0 <= k <= s.len(),
        forall|i: int| 0 <= i < s.len() ==> s[i] >= 0,
    ensures
        total_of(s.take(k)) <= total_of(s),
        total_of(s.take(k)) >= 0,
    decreases s.len() - k,
{
    assert(forall|i: int| 0 <= i < s.take(k).len() ==> #[trigger] s.take(k)[i] >= 0);
    lemma_total_nonneg(s.take(k));
    if k == s.len() {
        assert(s.take(k) =~= s);
    } else {
        lemma_total_take_le(s, k + 1);
        assert(s.take(k + 1).drop_last() =~= s.take(k));
    }
}

/// A nonnegative stage has a nonnegative total.
pub proof fn lemma_total_nonneg(s: Seq<int>)
    requires
        forall|i: int| 0 <= i < s.len() ==> s[i] >= 0,
    ensures
        total_of(s) >= 0,
    decreases s.len(),
{
    if s.len() != 0 {
        lemma_total_nonneg(s.drop_last());
    }
}

/// Every receive time is bounded by the loads so far plus the
/// computations so far: the schedule never waits on anything else.
pub proof fn lemma_receive_bound(load: Seq<int>, compute: Seq<int>, i: int)
    requires
        load.len() == compute.len(),
        0 <= i < load.len(),
        forall|k: int| 0 <= k < load.len() ==> load[k] >= 0,
        forall|k: int| 0 <= k < compute.len() ==> compute[k] >= 0,
    ensures
        receive_time(load, compute, i) <= total_of(load.take(i + 1)) + total_of(compute.take(i)),
        receive_time(load, compute, i) >= 0,
    decreases i,
{
    if i == 0 {
        assert(load.take(1).drop_last() =~= load.take(0));
        assert(load.take(1).last() == load[0]);
        lemma_total_nonneg(compute.take(0));
        lemma_total_nonneg(load.take(0));
    } else {
        lemma_receive_bound(load, compute, i - 1);
        assert(load.take(i + 1).drop_last() =~= load.take(i));
        assert(compute.take(i).drop_last() =~= compute.take(i - 1));
    }
}

/// The serial bound, with no hypothesis on the stages: the run never
/// costs more than both stages run end to end.
pub proof fn lemma_serial_bound(load: Seq<int>, compute: Seq<int>)
    requires
        load.len() == compute.len(),
        load.len() >= 1,
        forall|k: int| 0 <= k < load.len() ==> load[k] >= 0,
        forall|k: int| 0 <= k < compute.len() ==> compute[k] >= 0,
    ensures
        run_total(load, compute) <= total_of(load) + total_of(compute),
{
    let n = load.len() as int;
    lemma_receive_bound(load, compute, n - 1);
    lemma_total_take_le(load, n);
    assert(load.take(n) =~= load);
    assert(compute.take(n).drop_last() =~= compute.take(n - 1));
    assert(compute.take(n) =~= compute);
}

/// The overlap law when computation dominates: if every batch's load
/// fits inside any batch's computation, the run costs exactly the
/// computations end to end plus the first batch's load — the startup
/// latency — and so at most the dominant stage's cumulative time
/// plus one batch.
pub proof fn lemma_compute_dominant(load: Seq<int>, compute: Seq<int>)
    requires
        load.len() == compute.len(),
        load.len() >= 1,
        forall|i: int, j: int|
            0 <= i < load.len() && 0 <= j < compute.len() ==> #[trigger] load[i]
                <= #[trigger] compute[j],
    ensures
        run_total(load, compute) == load[0] + total_of(compute),
        run_total(load, compute) <= max_int(total_of(load), total_of(compute)) + load[0],
{
    lemma_receive_prefix_compute(load, compute, load.len() - 1);
    let n = load.len() as int;
    assert(compute.take(n).drop_last() =~= compute.take(n - 1));
    assert(compute.take(n) =~= compute);
}

/// Helper induction for [`lemma_compute_dominant`]: each receive
/// time is the first load plus the computations already finished.
proof fn lemma_receive_prefix_compute(load: Seq<int>, compute: Seq<int>, i: int)
    requires
        load.len() == compute.len(),
        0 <= i < load.len(),
        forall|a: int, b: int|
            0 <= a < load.len() && 0 <= b < compute.len() ==> #[trigger] load[a]
                <= #[trigger] compute[b],
    ensures
        receive_time(load, compute, i) == load[0] + total_of(compute.take(i)),
    decreases i,
{
    if i == 0 {
    } else {
        lemma_receive_prefix_compute(load, compute, i - 1);
        assert(compute.take(i).drop_last() =~= compute.take(i - 1));
        assert(max_int(load[i], compute[i - 1]) == compute[i - 1]);
    }
}

/// The overlap law when load dominates: if every batch's computation
/// fits inside any batch's load, the run costs exactly the loads end
/// to end plus the last batch's computation — and so at most the
/// dominant stage's cumulative time plus one batch.
pub proof fn lemma_load_dominant(load: Seq<int>, compute: Seq<int>)
    requires
        load.len() == compute.len(),
        load.len() >= 1,
        forall|i: int, j: int|
            0 <= i < compute.len() && 0 <= j < load.len() ==> #[trigger] compute[i]
                <= #[trigger] load[j],
    ensures
        run_total(load, compute) == total_of(load) + compute[load.len() - 1],
        run_total(load, compute) <= max_int(total_of(load), total_of(compute)) + compute[load.len()
            - 1],
{
    lemma_receive_prefix_load(load, compute, load.len() - 1);
    let n = load.len() as int;
    assert(load.take(n) =~= load);
}

/// Helper induction for [`lemma_load_dominant`]: each receive time
/// is the loads already finished.
proof fn lemma_receive_prefix_load(load: Seq<int>, compute: Seq<int>, i: int)
    requires
        load.len() == compute.len(),
        0 <= i < load.len(),
        forall|a: int, b: int|
            0 <= a < compute.len() && 0 <= b < load.len() ==> #[trigger] compute[a]
                <= #[trigger] load[b],
    ensures
        receive_time(load, compute, i) == total_of(load.take(i + 1)),
    decreases i,
{
    if i == 0 {
        assert(load.take(1).drop_last() =~= load.take(0));
        assert(load.take(1).last() == load[0]);
        assert(total_of(load.take(0)) == 0);
        assert(total_of(load.take(1)) == load[0]);
        assert(receive_time(load, compute, 0) == load[0]);
    } else {
        lemma_receive_prefix_load(load, compute, i - 1);
        assert(load.take(i + 1).drop_last() =~= load.take(i));
        assert(load.take(i + 1).last() == load[i]);
        assert(compute[i - 1] <= load[i]);
        assert(max_int(load[i], compute[i - 1]) == load[i]);
        assert(total_of(load.take(i + 1)) == total_of(load.take(i)) + load[i]);
        assert(receive_time(load, compute, i) == receive_time(load, compute, i - 1) + max_int(
            load[i],
            compute[i - 1],
        ));
    }
}

/// Computes the schedule's completion time from per-batch stage
/// times, for instrumented runs that want to check the overlap
/// bound on measured timers.
pub fn run_total_timers(load: &Vec<u64>, compute: &Vec<u64>) -> (r: u64)
    requires
        load@.len() == compute@.len(),
        load@.len() >= 1,
        total_of(load@.map_values(|x: u64| x as int)) + total_of(
            compute@.map_values(|x: u64| x as int),
        ) <= u64::MAX,
    ensures
        r == run_total(
            load@.map_values(|x: u64| x as int),
            compute@.map_values(|x: u64| x as int),
        ),
{
    let ghost li = load@.map_values(|x: u64| x as int);
    let ghost ci = compute@.map_values(|x: u64| x as int);
    let n: usize = load.len();
    let mut recv: u64 = load[0];
    let mut i: usize = 1;
    while i < n
        invariant
            li == load@.map_values(|x: u64| x as int),
            ci == compute@.map_values(|x: u64| x as int),
            li.len() == load@.len(),
            ci.len() == compute@.len(),
            load@.len() == compute@.len(),
            n == load@.len(),
            1 <= i <= n,
            total_of(li) + total_of(ci) <= u64::MAX,
            recv == receive_time(li, ci, i - 1),
        decreases n - i,
    {
        let lv: u64 = load[i];
        let cv: u64 = compute[i - 1];
        let step: u64 = if lv >= cv {
            lv
        } else {
            cv
        };
        proof {
            lemma_receive_bound(li, ci, i as int);
            lemma_total_take_le(li, i + 1);
            lemma_total_take_le(ci, i as int);
            lemma_total_nonneg(li);
            lemma_total_nonneg(ci);
        }
        recv = recv + step;
        i += 1;
    }
    proof {
        lemma_receive_bound(li, ci, n - 1);
        lemma_total_take_le(li, n as int);
        lemma_total_take_le(ci, n - 1);
        assert(ci.take(n as int).drop_last() =~= ci.take(n - 1));
        assert(ci.take(n as int) =~= ci);
    }
    recv + compute[n - 1]
}

} // verus!
