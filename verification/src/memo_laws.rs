//! What holds of every memoization cell, proved from the transitions that the
//! cell's functions promise.

use crate::memo::Barrier;
use crate::pool::{interns, PoolModel};
use vstd::prelude::*;

verus! {

/// A barrier only moves forward. Arriving and committing never lower its
/// rank, nothing brings it back to uninitialized, and once it is complete it
/// keeps its cached reference whatever is offered to it.
pub proof fn lemma_barrier_only_moves_forward(cell: Barrier, offered: &'static str)
    ensures
        cell.rank() <= cell.after_enter().rank() <= cell.after_enter().after_commit(offered).rank(),
        cell.rank() <= cell.after_commit(offered).rank(),
        !(cell.after_enter() is Uninitialized),
        cell.after_commit(offered) is Uninitialized <==> cell is Uninitialized,
        cell is Complete ==> cell.after_enter() == cell && cell.after_commit(offered) == cell,
{
}

/// A caller is told to run exactly when it is the first to arrive, and a
/// barrier that somebody has arrived at never tells anyone to run again.
pub proof fn lemma_run_is_told_to_the_first_caller_only(cell: Barrier, offered: &'static str)
    ensures
        cell.runs_on_call() <==> cell is Uninitialized,
        !cell.after_enter().runs_on_call(),
        !cell.after_enter().after_commit(offered).runs_on_call(),
        !cell.after_call(offered).runs_on_call(),
{
}

/// The barrier after `values.len()` calls in a row, where the computation of
/// call `i`, if it runs, gives a result that is interned as `values[i]`.
pub open spec fn after_calls(cell: Barrier, values: Seq<&'static str>) -> Barrier
    decreases values.len(),
{
    if values.len() == 0 {
        cell
    } else {
        after_calls(cell, values.drop_last()).after_call(values.last())
    }
}

/// How many of those calls run the computation.
pub open spec fn runs(cell: Barrier, values: Seq<&'static str>) -> nat
    decreases values.len(),
{
    if values.len() == 0 {
        0
    } else {
        let earlier = runs(cell, values.drop_last());
        if after_calls(cell, values.drop_last()).runs_on_call() {
            earlier + 1
        } else {
            earlier
        }
    }
}

/// What call `i` of those calls hands to its caller.
pub open spec fn result_of_call(cell: Barrier, values: Seq<&'static str>, i: int) -> Option<
    &'static str,
> {
    after_calls(cell, values.take(i)).call_result(values[i])
}

/// A call site that is invoked any number of times, at least once, runs its
/// computation exactly once: in the first call. Every call hands out the
/// reference of that first result, and the cell ends complete with it.
pub proof fn lemma_computation_runs_exactly_once(values: Seq<&'static str>)
    requires
        values.len() > 0,
    ensures
        runs(Barrier::Uninitialized, values) == 1,
        after_calls(Barrier::Uninitialized, values) == Barrier::Complete(values[0]),
        forall|i: int|
            0 <= i < values.len() ==> #[trigger] result_of_call(Barrier::Uninitialized, values, i)
                == Some(values[0]),
    decreases values.len(),
{
    let fresh = Barrier::Uninitialized;
    if values.len() == 1 {
        assert(runs(fresh, values.drop_last()) == 0);
    } else {
        let earlier = values.drop_last();
        lemma_computation_runs_exactly_once(earlier);
        assert forall|i: int| 0 <= i < values.len() implies #[trigger] result_of_call(
            fresh,
            values,
            i,
        ) == Some(values[0]) by {
            if i < earlier.len() {
                assert(values.take(i) == earlier.take(i));
                assert(result_of_call(fresh, earlier, i) == Some(values[0]));
            }
        }
    }
}

/// Once a cell is complete no later call runs the computation, and every call
/// hands out the cached reference.
pub proof fn lemma_complete_cell_never_runs(kept: &'static str, values: Seq<&'static str>)
    ensures
        runs(Barrier::Complete(kept), values) == 0,
        after_calls(Barrier::Complete(kept), values) == Barrier::Complete(kept),
        forall|i: int|
            0 <= i < values.len() ==> #[trigger] result_of_call(
                Barrier::Complete(kept),
                values,
                i,
            ) == Some(kept),
    decreases values.len(),
{
    let done = Barrier::Complete(kept);
    if values.len() > 0 {
        lemma_complete_cell_never_runs(kept, values.drop_last());
        assert forall|i: int| 0 <= i < values.len() implies #[trigger] result_of_call(
            done,
            values,
            i,
        ) == Some(kept) by {
            lemma_complete_cell_never_runs(kept, values.take(i));
        }
    }
}

/// A cell whose computation was started and never committed stays running:
/// no later call runs the computation again, and none is handed a reference.
pub proof fn lemma_abandoned_cell_is_never_retried(values: Seq<&'static str>)
    ensures
        runs(Barrier::Running, values) == 0,
        after_calls(Barrier::Running, values) == Barrier::Running,
        forall|i: int|
            0 <= i < values.len() ==> #[trigger] result_of_call(Barrier::Running, values, i)
                is None,
    decreases values.len(),
{
    if values.len() > 0 {
        lemma_abandoned_cell_is_never_retried(values.drop_last());
        assert forall|i: int| 0 <= i < values.len() implies #[trigger] result_of_call(
            Barrier::Running,
            values,
            i,
        ) is None by {
            lemma_abandoned_cell_is_never_retried(values.take(i));
        }
    }
}

/// Two call sites that compute the same content each run their own
/// computation, once each: a site's barrier looks neither at the pool nor at
/// another site. The content is shared only afterwards, in the pool: the
/// site that commits second is handed the reference that the first one filed,
/// and both cells end up caching it.
pub proof fn lemma_same_content_at_two_call_sites(
    pool: PoolModel,
    content: Seq<char>,
    first: &'static str,
    mid: PoolModel,
    second: &'static str,
    post: PoolModel,
    first_calls: nat,
    second_calls: nat,
)
    requires
        first_calls > 0,
        second_calls > 0,
        interns(pool, content, first, mid),
        interns(mid, content, second, post),
    ensures
        runs(Barrier::Uninitialized, Seq::new(first_calls, |i: int| first)) == 1,
        runs(Barrier::Uninitialized, Seq::new(second_calls, |i: int| second)) == 1,
        second == first,
        post == mid,
        after_calls(Barrier::Uninitialized, Seq::new(first_calls, |i: int| first))
            == Barrier::Complete(first),
        after_calls(Barrier::Uninitialized, Seq::new(second_calls, |i: int| second))
            == Barrier::Complete(first),
{
    lemma_computation_runs_exactly_once(Seq::new(first_calls, |i: int| first));
    lemma_computation_runs_exactly_once(Seq::new(second_calls, |i: int| second));
}

} // verus!
