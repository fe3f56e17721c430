//! In a whole run, results come in the order of the dependencies, and those of final
//! steps last.

#[allow(unused_imports)]
use crate::buildset::{
    applies, batch, begun, doomed, left_waiting, let_down, names_backwards, names_taking_part,
    negated, ordinary_waits, positions, ready, with_outcomes, with_skipped, without_doomed,
    Results, RunState,
};
#[allow(unused_imports)]
use crate::buildset_law::{after_rounds, brought_in, taken_up};
#[allow(unused_imports)]
use crate::config_graph::{dependencies, distinct_names};
#[allow(unused_imports)]
use crate::config_model::EffectiveStep;
#[allow(unused_imports)]
use crate::runner::{RunnerError, StepResult, StepResultClass};
#[allow(unused_imports)]
use crate::seqs::{lemma_filter_members, lemma_filter_split};
use vstd::prelude::*;

verus! {

/// Result number `a` is that of step `i`.
pub open spec fn result_is_of(
    steps: Seq<EffectiveStep>,
    ordered: Seq<(Seq<char>, StepResult)>,
    a: int,
    i: int,
) -> bool {
    &&& 0 <= a < ordered.len()
    &&& 0 <= i < steps.len()
    &&& ordered[a].0 == steps[i].name@
}

/// One of the first `n` results has the name, and is a success where one is asked for.
pub open spec fn had_result(
    ordered: Seq<(Seq<char>, StepResult)>,
    n: int,
    name: Seq<char>,
    success: bool,
) -> bool {
    exists|b: int|
        0 <= b < n && (#[trigger] ordered[b]).0 == name && (success ==> ordered[b].1.class
            == StepResultClass::Success)
}

/// Before result number `a`, that of step `i`, every dependency of the step that takes
/// part had its result, a success unless the step is final. Before a final step a
/// dependency may also have been passed over.
pub open spec fn came_after_needs(
    steps: Seq<EffectiveStep>,
    names: Seq<Seq<char>>,
    state: RunState,
    a: int,
    i: int,
) -> bool {
    forall|d: int|
        0 <= d < dependencies(steps[i]).len() && names.contains(
            #[trigger] dependencies(steps[i])[d],
        ) ==> had_result(state.ordered, a, dependencies(steps[i])[d], !steps[i].final_step) || (
        steps[i].final_step && state.skipped.contains(dependencies(steps[i])[d]))
}

/// Every result came after those of the dependencies.
pub open spec fn needs_come_first(
    steps: Seq<EffectiveStep>,
    names: Seq<Seq<char>>,
    state: RunState,
) -> bool {
    forall|a: int, i: int| #[trigger]
        result_is_of(steps, state.ordered, a, i) ==> came_after_needs(steps, names, state, a, i)
}

/// Every result of a step that is not final came before those of the final ones.
pub open spec fn finals_come_last(
    steps: Seq<EffectiveStep>,
    ordered: Seq<(Seq<char>, StepResult)>,
) -> bool {
    forall|a: int, i: int, b: int, j: int| #[trigger]
        result_is_of(steps, ordered, a, i) && #[trigger] result_is_of(steps, ordered, b, j)
            && steps[i].final_step && !steps[j].final_step ==> b < a
}

/// The result that is known of a step is the one that it is listed with, or the step was
/// passed over.
spec fn is_backed(state: RunState, name: Seq<char>) -> bool {
    ||| exists|b: int|
        0 <= b < state.ordered.len() && (#[trigger] state.ordered[b]).0 == name
            && state.ordered[b].1.class == state.results[name]
    ||| state.skipped.contains(name) && state.results[name] == StepResultClass::Interrupted
}

spec fn all_backed(state: RunState) -> bool {
    forall|name: Seq<char>| #[trigger]
        state.results.contains_key(name) ==> is_backed(state, name)
}

/// Once a final step has a result, only final ones wait.
spec fn finals_alone_wait(steps: Seq<EffectiveStep>, state: RunState) -> bool {
    forall|a: int, i: int, k: int|
        #![trigger result_is_of(steps, state.ordered, a, i), state.pending[k]]
        result_is_of(steps, state.ordered, a, i) && steps[i].final_step && 0 <= k
            < state.pending.len() ==> steps[state.pending[k] as int].final_step
}

/// What holds of a run between its rounds.
spec fn orderly(steps: Seq<EffectiveStep>, names: Seq<Seq<char>>, state: RunState) -> bool {
    &&& forall|k: int| 0 <= k < state.pending.len() ==> (#[trigger] state.pending[k]) < steps.len()
    &&& all_backed(state)
    &&& finals_alone_wait(steps, state)
    &&& needs_come_first(steps, names, state)
    &&& finals_come_last(steps, state.ordered)
}

/// No step that waits is to be passed over.
spec fn none_doomed(steps: Seq<EffectiveStep>, names: Seq<Seq<char>>, state: RunState) -> bool {
    state.pending.filter(
        doomed(steps, names, ordinary_waits(steps, state.pending), state.results),
    ).len() == 0
}

proof fn lemma_skipped_results(steps: Seq<EffectiveStep>, results: Results, failed: Seq<usize>)
    ensures
        forall|name: Seq<char>| #[trigger]
            with_skipped(steps, results, failed).contains_key(name) ==> {
                ||| results.contains_key(name) && with_skipped(steps, results, failed)[name]
                    == results[name]
                ||| names_backwards(steps, failed).contains(name) && with_skipped(
                    steps,
                    results,
                    failed,
                )[name] == StepResultClass::Interrupted
            },
    decreases failed.len(),
{
    if failed.len() > 0 {
        let last = steps[failed.last() as int].name@;
        let more = results.insert(last, StepResultClass::Interrupted);
        let rest = failed.drop_last();
        lemma_skipped_results(steps, more, rest);
        let tail = names_backwards(steps, rest);
        let all = names_backwards(steps, failed);
        assert forall|name: Seq<char>| #[trigger]
            with_skipped(steps, results, failed).contains_key(name) implies {
            ||| results.contains_key(name) && with_skipped(steps, results, failed)[name]
                == results[name]
            ||| all.contains(name) && with_skipped(steps, results, failed)[name]
                == StepResultClass::Interrupted
        } by {
            assert(with_skipped(steps, more, rest).contains_key(name));
            assert(all[0] == last);
            if tail.contains(name) {
                let k = choose|k: int| 0 <= k < tail.len() && tail[k] == name;
                assert(all[k + 1] == name);
            }
        }
    }
}

/// Passing over steps keeps the order, and leaves none to be passed over.
proof fn lemma_passing_over_orderly(
    steps: Seq<EffectiveStep>,
    names: Seq<Seq<char>>,
    state: RunState,
)
    requires
        orderly(steps, names, state),
    ensures
        orderly(steps, names, without_doomed(steps, names, state)),
        none_doomed(steps, names, without_doomed(steps, names, state)),
    decreases state.pending.len(),
{
    let doom = doomed(steps, names, ordinary_waits(steps, state.pending), state.results);
    let failed = state.pending.filter(doom);
    if state.pending.len() > 0 && failed.len() > 0 {
        let next = RunState {
            pending: state.pending.filter(negated(doom)),
            results: with_skipped(steps, state.results, failed),
            skipped: state.skipped + names_backwards(steps, failed),
            ..state
        };
        lemma_filter_split(state.pending, doom, negated(doom));
        lemma_filter_members(state.pending, negated(doom));
        lemma_skipped_results(steps, state.results, failed);
        let gone = names_backwards(steps, failed);
        assert forall|name: Seq<char>| state.skipped.contains(name) implies next.skipped.contains(
            name,
        ) by {
            let k = choose|k: int| 0 <= k < state.skipped.len() && state.skipped[k] == name;
            assert(next.skipped[k] == name);
        }
        assert forall|name: Seq<char>| gone.contains(name) implies next.skipped.contains(name) by {
            let k = choose|k: int| 0 <= k < gone.len() && gone[k] == name;
            assert(next.skipped[state.skipped.len() + k] == name);
        }
        assert forall|name: Seq<char>| #[trigger]
            next.results.contains_key(name) implies is_backed(next, name) by {
            if state.results.contains_key(name) && next.results[name] == state.results[name] {
                assert(is_backed(state, name));
            } else {
                assert(gone.contains(name));
            }
        }
        assert forall|k: int| 0 <= k < next.pending.len() implies state.pending.contains(
            #[trigger] next.pending[k],
        ) by {}
        assert(finals_alone_wait(steps, next)) by {
            assert forall|a: int, i: int, k: int|
                #![trigger result_is_of(steps, next.ordered, a, i), next.pending[k]]
                result_is_of(steps, next.ordered, a, i) && steps[i].final_step && 0 <= k
                    < next.pending.len() implies steps[next.pending[k] as int].final_step by {
                assert(state.pending.contains(next.pending[k]));
                let m = choose|m: int|
                    0 <= m < state.pending.len() && state.pending[m] == next.pending[k];
                assert(result_is_of(steps, state.ordered, a, i));
                assert(steps[state.pending[m] as int].final_step);
            }
        }
        assert(needs_come_first(steps, names, next)) by {
            assert forall|a: int, i: int| #[trigger]
                result_is_of(steps, next.ordered, a, i) implies came_after_needs(
                steps,
                names,
                next,
                a,
                i,
            ) by {
                assert(result_is_of(steps, state.ordered, a, i));
                assert(came_after_needs(steps, names, state, a, i));
            }
        }
        assert(orderly(steps, names, next));
        lemma_passing_over_orderly(steps, names, next);
    } else if state.pending.len() == 0 {
        reveal(Seq::filter);
        assert(none_doomed(steps, names, state));
    }
}

/// The results of a batch are listed behind those that were there.
proof fn lemma_outcomes_listed(
    steps: Seq<EffectiveStep>,
    state: RunState,
    outcomes: Seq<Result<StepResult, RunnerError>>,
    n: nat,
)
    requires
        all_backed(state),
        n <= state.running.len(),
    ensures
        ({
            let after = with_outcomes(steps, state, outcomes, n);
            &&& after.pending == state.pending
            &&& after.skipped == state.skipped
            &&& after.ordered.len() == state.ordered.len() + n
            &&& forall|a: int|
                0 <= a < state.ordered.len() ==> #[trigger] after.ordered[a] == state.ordered[a]
            &&& forall|a: int|
                state.ordered.len() <= a < after.ordered.len() ==> (
                #[trigger] after.ordered[a]).0 == steps[state.running[a
                    - state.ordered.len()] as int].name@
            &&& all_backed(after)
        }),
    decreases n,
{
    if n > 0 {
        lemma_outcomes_listed(steps, state, outcomes, (n - 1) as nat);
        let before = with_outcomes(steps, state, outcomes, (n - 1) as nat);
        let after = with_outcomes(steps, state, outcomes, n);
        let name = steps[state.running[n - 1] as int].name@;
        assert forall|other: Seq<char>| #[trigger]
            after.results.contains_key(other) implies is_backed(after, other) by {
            if other == name {
                assert(after.ordered[before.ordered.len() as int].0 == name);
            } else {
                assert(before.results.contains_key(other));
                assert(is_backed(before, other));
                if exists|b: int|
                    0 <= b < before.ordered.len() && (#[trigger] before.ordered[b]).0 == other
                        && before.ordered[b].1.class == before.results[other] {
                    let b = choose|b: int|
                        0 <= b < before.ordered.len() && (#[trigger] before.ordered[b]).0 == other
                            && before.ordered[b].1.class == before.results[other];
                    assert(after.ordered[b] == before.ordered[b]);
                }
            }
        }
    }
}

/// A step of a batch may be taken up, and is not to be passed over.
proof fn lemma_batch_is_ready(
    steps: Seq<EffectiveStep>,
    names: Seq<Seq<char>>,
    concurrent: bool,
    state: RunState,
    k: int,
)
    requires
        none_doomed(steps, names, state),
        0 <= k < batch(steps, names, concurrent, state).len(),
    ensures
        ({
            let i = batch(steps, names, concurrent, state)[k];
            let ordinary = ordinary_waits(steps, state.pending);
            &&& state.pending.contains(i)
            &&& ready(steps, names, ordinary, state.results)(i)
            &&& !steps[i as int].final_step ==> !let_down(steps[i as int], state.results)
        }),
{
    let ordinary = ordinary_waits(steps, state.pending);
    let can = ready(steps, names, ordinary, state.results);
    let doom = doomed(steps, names, ordinary, state.results);
    let all = state.pending.filter(can);
    lemma_filter_members(state.pending, can);
    lemma_filter_members(state.pending, doom);
    let i = batch(steps, names, concurrent, state)[k];
    assert(i == all[k]);
    assert(can(all[k]));
    assert(state.pending.contains(all[k]));
    if !steps[i as int].final_step && let_down(steps[i as int], state.results) {
        assert(doom(i));
        let j = choose|j: int| 0 <= j < state.pending.len() && state.pending[j] == i;
        assert(state.pending.filter(doom).contains(state.pending[j]));
    }
}

/// A round keeps the order.
proof fn lemma_round_orderly(
    steps: Seq<EffectiveStep>,
    names: Seq<Seq<char>>,
    concurrent: bool,
    state: RunState,
    outcomes: Seq<Result<StepResult, RunnerError>>,
)
    requires
        distinct_names(steps),
        orderly(steps, names, state),
        none_doomed(steps, names, state),
    ensures
        orderly(
            steps,
            names,
            brought_in(steps, taken_up(steps, names, concurrent, state), outcomes),
        ),
{
    let taken = batch(steps, names, concurrent, state);
    let up = taken_up(steps, names, concurrent, state);
    let next = brought_in(steps, up, outcomes);
    let n = state.ordered.len();
    let stays = |i: usize| !taken.contains(i);
    assert(all_backed(up)) by {
        assert forall|name: Seq<char>| #[trigger]
            up.results.contains_key(name) implies is_backed(up, name) by {
            assert(is_backed(state, name));
        }
    }
    lemma_outcomes_listed(steps, up, outcomes, taken.len());
    lemma_filter_members(state.pending, stays);
    assert(next.pending == state.pending.filter(stays));
    assert(all_backed(next)) by {
        let after = with_outcomes(steps, up, outcomes, taken.len());
        assert forall|name: Seq<char>| #[trigger]
            next.results.contains_key(name) implies is_backed(next, name) by {
            assert(is_backed(after, name));
        }
    }
    assert forall|k: int| 0 <= k < next.pending.len() implies (#[trigger] next.pending[k])
        < steps.len() by {
        assert(state.pending.contains(next.pending[k]));
    }
    // A new result is that of the step that was taken up.
    assert forall|a: int, i: int| #[trigger] result_is_of(steps, next.ordered, a, i) && a >= n
        implies i == taken[a - n] && state.pending.contains(taken[a - n]) && ready(
        steps,
        names,
        ordinary_waits(steps, state.pending),
        state.results,
    )(taken[a - n]) by {
        lemma_batch_is_ready(steps, names, concurrent, state, a - n);
        let t = taken[a - n];
        let k = choose|k: int| 0 <= k < state.pending.len() && state.pending[k] == t;
        assert(state.pending[k] < steps.len());
        assert(steps[t as int].name@ == steps[i].name@);
    }
    assert forall|a: int, i: int| #[trigger] result_is_of(steps, next.ordered, a, i) && a
        < n implies result_is_of(steps, state.ordered, a, i) by {}
    assert(needs_come_first(steps, names, next)) by {
        assert forall|a: int, i: int| #[trigger]
            result_is_of(steps, next.ordered, a, i) implies came_after_needs(
            steps,
            names,
            next,
            a,
            i,
        ) by {
            assert forall|d: int|
                0 <= d < dependencies(steps[i]).len() && names.contains(
                    #[trigger] dependencies(steps[i])[d],
                ) implies had_result(
                next.ordered,
                a,
                dependencies(steps[i])[d],
                !steps[i].final_step,
            ) || (steps[i].final_step && next.skipped.contains(dependencies(steps[i])[d])) by {
                let name = dependencies(steps[i])[d];
                if a < n {
                    assert(result_is_of(steps, state.ordered, a, i));
                    assert(came_after_needs(steps, names, state, a, i));
                    if had_result(state.ordered, a, name, !steps[i].final_step) {
                        let b = choose|b: int|
                            0 <= b < a && (#[trigger] state.ordered[b]).0 == name && (
                            !steps[i].final_step ==> state.ordered[b].1.class
                                == StepResultClass::Success);
                        assert(next.ordered[b] == state.ordered[b]);
                    }
                } else {
                    lemma_batch_is_ready(steps, names, concurrent, state, a - n);
                    assert(state.results.contains_key(name));
                    assert(is_backed(state, name));
                    if !steps[i].final_step {
                        assert(!let_down(steps[i], state.results));
                        assert(state.results[name] == StepResultClass::Success);
                    }
                    if exists|b: int|
                        0 <= b < n && (#[trigger] state.ordered[b]).0 == name
                            && state.ordered[b].1.class == state.results[name] {
                        let b = choose|b: int|
                            0 <= b < n && (#[trigger] state.ordered[b]).0 == name
                                && state.ordered[b].1.class == state.results[name];
                        assert(next.ordered[b] == state.ordered[b]);
                    }
                }
            }
        }
    }
    assert(finals_come_last(steps, next.ordered)) by {
        assert forall|a: int, i: int, b: int, j: int| #[trigger]
            result_is_of(steps, next.ordered, a, i) && #[trigger] result_is_of(
                steps,
                next.ordered,
                b,
                j,
            ) && steps[i].final_step && !steps[j].final_step implies b < a by {
            if a < n && b < n {
                assert(result_is_of(steps, state.ordered, a, i));
                assert(result_is_of(steps, state.ordered, b, j));
            } else if a < n {
                let t = taken[b - n];
                let k = choose|k: int| 0 <= k < state.pending.len() && state.pending[k] == t;
                assert(result_is_of(steps, state.ordered, a, i));
                assert(steps[state.pending[k] as int].final_step);
            }
        }
    }
    assert(finals_alone_wait(steps, next)) by {
        assert forall|a: int, i: int, k: int|
            #![trigger result_is_of(steps, next.ordered, a, i), next.pending[k]]
            result_is_of(steps, next.ordered, a, i) && steps[i].final_step && 0 <= k
                < next.pending.len() implies steps[next.pending[k] as int].final_step by {
            assert(state.pending.contains(next.pending[k]));
            let m = choose|m: int|
                0 <= m < state.pending.len() && state.pending[m] == next.pending[k];
            if a < n {
                assert(result_is_of(steps, state.ordered, a, i));
                assert(steps[state.pending[m] as int].final_step);
            } else {
                assert(!ordinary_waits(steps, state.pending));
                assert(steps[state.pending[m] as int].final_step);
            }
        }
    }
}

proof fn lemma_rounds_orderly(
    steps: Seq<EffectiveStep>,
    paths: Seq<Seq<char>>,
    concurrent: bool,
    rounds: Seq<Seq<Result<StepResult, RunnerError>>>,
)
    requires
        distinct_names(steps),
        steps.len() <= usize::MAX,
    ensures
        ({
            let state = after_rounds(steps, paths, concurrent, rounds);
            let names = names_taking_part(steps, paths);
            orderly(steps, names, state) && none_doomed(steps, names, state)
        }),
    decreases rounds.len(),
{
    let names = names_taking_part(steps, paths);
    if rounds.len() == 0 {
        let state = begun(steps, paths);
        let all = positions(steps);
        lemma_filter_members(all, applies(steps, paths));
        assert forall|k: int| 0 <= k < state.pending.len() implies (#[trigger] state.pending[k])
            < steps.len() by {
            assert(all.contains(state.pending[k]));
        }
        lemma_passing_over_orderly(steps, names, state);
    } else {
        let before = after_rounds(steps, paths, concurrent, rounds.drop_last());
        lemma_rounds_orderly(steps, paths, concurrent, rounds.drop_last());
        lemma_round_orderly(steps, names, concurrent, before, rounds.last());
        lemma_passing_over_orderly(
            steps,
            names,
            brought_in(steps, taken_up(steps, names, concurrent, before), rounds.last()),
        );
    }
}

/// Throughout a run, whatever its rounds bring, the results are listed in the order of the
/// dependencies: before the result of a step stand those of all its dependencies that take
/// part, successes unless the step is final, where a dependency may also have been passed
/// over. All results of steps that are not final stand before those of final ones.
pub proof fn law_results_come_in_order(
    steps: Seq<EffectiveStep>,
    paths: Seq<Seq<char>>,
    concurrent: bool,
    rounds: Seq<Seq<Result<StepResult, RunnerError>>>,
)
    requires
        distinct_names(steps),
        steps.len() <= usize::MAX,
    ensures
        ({
            let state = after_rounds(steps, paths, concurrent, rounds);
            &&& needs_come_first(steps, names_taking_part(steps, paths), state)
            &&& finals_come_last(steps, state.ordered)
        }),
{
    lemma_rounds_orderly(steps, paths, concurrent, rounds);
}

} // verus!
