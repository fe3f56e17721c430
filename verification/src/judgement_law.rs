//! What a buildset takes up, what it passes over, and what its results amount to.

#[allow(unused_imports)]
use crate::buildset::{
    applies, batch, begun, breaks_off, doomed, first_orphan, left_waiting, names_at,
    names_taking_part, ordinary_waits, orphaned, positions, ready, some_vote_fails,
    someone_warns, vote_fails, with_failure, with_missing, with_outcomes, Results,
    RunState,
};
#[allow(unused_imports)]
use crate::config_graph::dependencies;
#[allow(unused_imports)]
use crate::config_model::{EffectiveConfig, EffectiveStep};
#[allow(unused_imports)]
use crate::runner::{RunnerError, StepResult, StepResultClass};
#[allow(unused_imports)]
use crate::seqs::lemma_filter_members;
#[allow(unused_imports)]
use crate::text::texts;
use vstd::prelude::*;

verus! {

/// The step takes part and succeeded.
pub open spec fn succeeded(step: EffectiveStep, results: Results) -> bool {
    results.contains_key(step.name@) && results[step.name@] == StepResultClass::Success
}

/// Where every step that votes succeeded, and one votes or none has to, the vote is for the
/// change, whatever became of the steps that do not vote.
pub proof fn law_successful_votes_pass(
    config: EffectiveConfig,
    names: Seq<Seq<char>>,
    results: Results,
)
    requires
        forall|i: int|
            0 <= i < config.steps@.len() && (#[trigger] config.steps@[i]).voting && names.contains(
                config.steps@[i].name@,
            ) ==> succeeded(config.steps@[i], results),
        config.allow_no_job || exists|i: int|
            0 <= i < config.steps@.len() && (#[trigger] config.steps@[i]).voting && names.contains(
                config.steps@[i].name@,
            ),
    ensures
        !vote_fails(config, names, results),
{
}

/// One failed vote is enough: a step that takes part, votes and did not succeed, in
/// whatever way, fails the buildset.
pub proof fn law_one_failed_vote_fails(
    config: EffectiveConfig,
    names: Seq<Seq<char>>,
    results: Results,
    i: int,
)
    requires
        0 <= i < config.steps@.len(),
        config.steps@[i].voting,
        names.contains(config.steps@[i].name@),
        !succeeded(config.steps@[i], results),
    ensures
        vote_fails(config, names, results),
{
}

/// Steps that do not vote, and steps that take no part, have no say in the vote.
pub proof fn law_only_votes_count(
    config: EffectiveConfig,
    names: Seq<Seq<char>>,
    results: Results,
    others: Results,
)
    requires
        forall|i: int|
            0 <= i < config.steps@.len() && (#[trigger] config.steps@[i]).voting && names.contains(
                config.steps@[i].name@,
            ) ==> succeeded(config.steps@[i], results) == succeeded(config.steps@[i], others),
    ensures
        vote_fails(config, names, results) == vote_fails(config, names, others),
{
    let steps = config.steps@;
    if some_vote_fails(steps, names, results) {
        let i = choose|i: int|
            0 <= i < steps.len() && (#[trigger] steps[i]).voting && names.contains(steps[i].name@)
                && !(results.contains_key(steps[i].name@) && results[steps[i].name@]
                == StepResultClass::Success);
        assert(!succeeded(steps[i], others));
    }
    if some_vote_fails(steps, names, others) {
        let i = choose|i: int|
            0 <= i < steps.len() && (#[trigger] steps[i]).voting && names.contains(steps[i].name@)
                && !(others.contains_key(steps[i].name@) && others[steps[i].name@]
                == StepResultClass::Success);
        assert(!succeeded(steps[i], results));
    }
}

/// A change that nobody votes on passes only where the configuration says so.
pub proof fn law_somebody_has_to_vote(
    config: EffectiveConfig,
    names: Seq<Seq<char>>,
    results: Results,
)
    requires
        forall|i: int|
            0 <= i < config.steps@.len() && names.contains((#[trigger] config.steps@[i]).name@)
                ==> !config.steps@[i].voting,
    ensures
        vote_fails(config, names, results) <==> !config.allow_no_job,
{
}

/// There is a warning exactly where a step that takes part and does not vote ended
/// otherwise than with success; failed votes are no warnings.
pub proof fn law_warnings_come_from_those_who_do_not_vote(
    steps: Seq<EffectiveStep>,
    names: Seq<Seq<char>>,
    results: Results,
)
    requires
        forall|i: int|
            0 <= i < steps.len() && names.contains((#[trigger] steps[i]).name@)
                ==> results.contains_key(steps[i].name@),
    ensures
        someone_warns(steps, names, results) <==> exists|i: int|
            0 <= i < steps.len() && !(#[trigger] steps[i]).voting && names.contains(steps[i].name@)
                && !succeeded(steps[i], results),
        (forall|i: int| 0 <= i < steps.len() ==> (#[trigger] steps[i]).voting) ==> !someone_warns(
            steps,
            names,
            results,
        ),
{
}

/// Only a step that was ended from outside, or could not be run, brings the run down; a step
/// that failed, ran out of time or was canceled is a result like any other.
pub proof fn law_failures_do_not_break_off(result: StepResult, error: RunnerError)
    ensures
        breaks_off(Err(error)),
        breaks_off(Ok(result)) <==> result.class == StepResultClass::Interrupted,
{
}

/// A step is passed over only if it is not final, all it waited for is through, and a
/// dependency did not succeed; a step none of whose dependencies failed is never passed
/// over, and a final one never is.
pub proof fn law_steps_are_passed_over_for_a_reason(
    steps: Seq<EffectiveStep>,
    names: Seq<Seq<char>>,
    ordinary: bool,
    results: Results,
    i: usize,
)
    ensures
        steps[i as int].final_step ==> !doomed(steps, names, ordinary, results)(i),
        (forall|name: Seq<char>|
            dependencies(steps[i as int]).contains(name) && results.contains_key(name)
                ==> #[trigger] results[name] == StepResultClass::Success) ==> !doomed(
            steps,
            names,
            ordinary,
            results,
        )(i),
        ready(steps, names, ordinary, results)(i) && !steps[i as int].final_step && (exists|
            name: Seq<char>,
        |
            dependencies(steps[i as int]).contains(name) && results.contains_key(name)
                && #[trigger] results[name] != StepResultClass::Success) ==> doomed(
            steps,
            names,
            ordinary,
            results,
        )(i),
{
    let step = steps[i as int];
    let needed = dependencies(step);
    if doomed(steps, names, ordinary, results)(i) {
        let d = choose|d: int|
            0 <= d < needed.len() && results.contains_key(#[trigger] needed[d])
                && results[needed[d]] != StepResultClass::Success;
        assert(needed.contains(needed[d]));
    }
    if exists|name: Seq<char>|
        needed.contains(name) && results.contains_key(name) && #[trigger] results[name]
            != StepResultClass::Success {
        let name = choose|name: Seq<char>|
            needed.contains(name) && results.contains_key(name) && #[trigger] results[name]
                != StepResultClass::Success;
        let d = choose|d: int| 0 <= d < needed.len() && needed[d] == name;
        assert(results.contains_key(needed[d]) && results[needed[d]] != StepResultClass::Success);
    }
}

/// A step may be taken up once everything that it depends on, and that takes part, is
/// through; final steps once no other step waits, the others while one does.
pub proof fn law_steps_are_taken_up_in_time(
    steps: Seq<EffectiveStep>,
    names: Seq<Seq<char>>,
    ordinary: bool,
    results: Results,
    i: usize,
)
    ensures
        ready(steps, names, ordinary, results)(i) <==> (if steps[i as int].final_step {
            !ordinary
        } else {
            ordinary
        }) && forall|name: Seq<char>| #[trigger]
            names.contains(name) && dependencies(steps[i as int]).contains(name)
                ==> results.contains_key(name),
{
    let needed = dependencies(steps[i as int]);
    if ready(steps, names, ordinary, results)(i) {
        assert forall|name: Seq<char>| #[trigger]
            names.contains(name) && needed.contains(name) implies results.contains_key(name) by {
            let d = choose|d: int| 0 <= d < needed.len() && needed[d] == name;
            assert(!names.contains(needed[d]) || results.contains_key(needed[d]));
        }
    }
    assert(forall|d: int| 0 <= d < needed.len() ==> needed.contains(#[trigger] needed[d]));
}

/// Side by side or one at a time, what is taken up is ready and waited for it; one at a time,
/// it is the first of what would be taken up side by side.
pub proof fn law_batches_hold_what_is_ready(
    steps: Seq<EffectiveStep>,
    names: Seq<Seq<char>>,
    state: RunState,
    i: usize,
)
    ensures
        ({
            let together = batch(steps, names, true, state);
            let single = batch(steps, names, false, state);
            let ordinary = ordinary_waits(steps, state.pending);
            &&& together.contains(i) <==> state.pending.contains(i) && ready(
                steps,
                names,
                ordinary,
                state.results,
            )(i)
            &&& single.len() <= 1
            &&& single.len() == 0 <==> together.len() == 0
            &&& single.len() == 1 ==> single[0] == together[0]
            &&& left_waiting(state.pending, together).contains(i) <==> state.pending.contains(i)
                && !together.contains(i)
        }),
{
    let ordinary = ordinary_waits(steps, state.pending);
    let taken = batch(steps, names, true, state);
    lemma_filter_members(state.pending, ready(steps, names, ordinary, state.results));
    lemma_filter_members(state.pending, |i: usize| !taken.contains(i));
}

/// A run begins with the steps that apply to the change waiting, and nothing else.
pub proof fn law_runs_begin_with_what_applies(
    steps: Seq<EffectiveStep>,
    paths: Seq<Seq<char>>,
    i: usize,
)
    requires
        i < steps.len() <= usize::MAX,
    ensures
        begun(steps, paths).pending.contains(i) <==> applies(steps, paths)(i),
        applies(steps, paths)(i) ==> names_taking_part(steps, paths).contains(
            steps[i as int].name@,
        ),
        !names_taking_part(steps, paths).contains(steps[i as int].name@) ==> begun(
            steps,
            paths,
        ).skipped.contains(steps[i as int].name@),
        begun(steps, paths).running.len() == 0,
        begun(steps, paths).ordered.len() == 0,
        begun(steps, paths).results == Map::<Seq<char>, StepResultClass>::empty(),
{
    let all = positions(steps);
    let chosen = all.filter(applies(steps, paths));
    let names = names_taking_part(steps, paths);
    let unnamed = crate::buildset::unnamed(steps, names);
    let left = all.filter(unnamed);
    lemma_filter_members(all, applies(steps, paths));
    lemma_filter_members(all, unnamed);
    assert(all[i as int] == i);
    if applies(steps, paths)(i) {
        let k = choose|k: int| 0 <= k < chosen.len() && chosen[k] == i;
        assert(names[k] == steps[i as int].name@);
    }
    if !names.contains(steps[i as int].name@) {
        let k = choose|k: int| 0 <= k < left.len() && left[k] == i;
        assert(names_at(steps, left)[k] == steps[i as int].name@);
    }
}

/// A step that has to have another one before it is refused where that one takes no part;
/// where every such step takes part, nothing is refused.
pub proof fn law_needed_steps_take_part(
    steps: Seq<EffectiveStep>,
    names: Seq<Seq<char>>,
    list: Seq<usize>,
    k: int,
)
    ensures
        0 <= k < list.len() && (exists|name: Seq<char>| #[trigger]
            texts(steps[list[k] as int].needs@).contains(name) && !names.contains(name))
            ==> first_orphan(steps, names, list) is Some,
        (forall|j: int, name: Seq<char>|
            0 <= j < list.len() && #[trigger] texts(
                steps[list[j] as int].needs@,
            ).contains(name) ==> names.contains(name)) ==> first_orphan(steps, names, list) is None,
    decreases list.len(),
{
    if list.len() > 0 {
        let needs = steps[list[0] as int].needs@;
        let rest = list.drop_first();
        law_needed_steps_take_part(steps, names, rest, k - 1);
        if 0 < k < list.len() {
            assert(rest[k - 1] == list[k]);
        }
        if k == 0 && exists|name: Seq<char>| #[trigger]
            texts(needs).contains(name) && !names.contains(name) {
            let name = choose|name: Seq<char>| #[trigger]
                texts(needs).contains(name) && !names.contains(name);
            let d = choose|d: int| 0 <= d < texts(needs).len() && texts(needs)[d] == name;
            assert(needs[d]@ == name);
            assert(orphaned(steps[list[0] as int], names));
        }
        if forall|j: int, name: Seq<char>|
            0 <= j < list.len() && #[trigger] texts(
                steps[list[j] as int].needs@,
            ).contains(name) ==> names.contains(name) {
            assert forall|j: int, name: Seq<char>|
                0 <= j < rest.len() && #[trigger] texts(
                    steps[rest[j] as int].needs@,
                ).contains(name) implies names.contains(name) by {
                assert(rest[j] == list[j + 1]);
            }
            if orphaned(steps[list[0] as int], names) {
                let d = choose|d: int| 0 <= d < needs.len() && !names.contains((#[trigger] needs[d])@);
                assert(texts(needs)[d] == needs[d]@);
                assert(texts(needs).contains(needs[d]@));
            }
        }
    }
}

/// The outcomes of a batch are recorded as they are, each under the name of its step and
/// in the order of the batch, behind what was there.
pub proof fn law_outcomes_are_recorded_as_they_are(
    steps: Seq<EffectiveStep>,
    state: RunState,
    outcomes: Seq<Result<StepResult, RunnerError>>,
    n: nat,
    k: int,
)
    requires
        n <= outcomes.len() == state.running.len(),
        forall|a: int, b: int|
            0 <= a < b < n ==> steps[#[trigger] state.running[a] as int].name@
                != steps[#[trigger] state.running[b] as int].name@,
        0 <= k < n,
        outcomes[k] is Ok,
    ensures
        ({
            let after = with_outcomes(steps, state, outcomes, n);
            let name = steps[state.running[k] as int].name@;
            &&& after.results.contains_key(name)
            &&& after.results[name] == outcomes[k]->Ok_0.class
            &&& after.ordered.len() == state.ordered.len() + n
            &&& after.ordered.take(state.ordered.len() as int) == state.ordered
            &&& after.ordered[state.ordered.len() + k] == (name, outcomes[k]->Ok_0)
            &&& after.pending == state.pending
            &&& after.skipped == state.skipped
        }),
    decreases n,
{
    let fewer = (n - 1) as nat;
    lemma_recorded(steps, state, outcomes, n);
    lemma_recorded(steps, state, outcomes, fewer);
    if k < n - 1 {
        law_outcomes_are_recorded_as_they_are(steps, state, outcomes, fewer, k);
        assert(steps[state.running[k] as int].name@ != steps[state.running[n - 1] as int].name@);
    }
}

proof fn lemma_recorded(
    steps: Seq<EffectiveStep>,
    state: RunState,
    outcomes: Seq<Result<StepResult, RunnerError>>,
    n: nat,
)
    ensures
        ({
            let after = with_outcomes(steps, state, outcomes, n);
            &&& after.ordered.len() == state.ordered.len() + n
            &&& after.ordered.take(state.ordered.len() as int) == state.ordered
            &&& after.pending == state.pending
            &&& after.skipped == state.skipped
        }),
    decreases n,
{
    if n > 0 {
        lemma_recorded(steps, state, outcomes, (n - 1) as nat);
        let before = with_outcomes(steps, state, outcomes, (n - 1) as nat);
        let after = with_outcomes(steps, state, outcomes, n);
        assert(after.ordered.take(state.ordered.len() as int) =~= before.ordered.take(
            state.ordered.len() as int,
        ));
    } else {
        assert(state.ordered.take(state.ordered.len() as int) =~= state.ordered);
    }
}

/// Missing artifacts change the result of the step that should have left them, and of no
/// other; a step that takes no part is not failed for them.
pub proof fn law_artifacts_concern_their_step_only(
    steps: Seq<EffectiveStep>,
    names: Seq<Seq<char>>,
    missing: Seq<bool>,
    state: RunState,
    n: nat,
    name: Seq<char>,
)
    requires
        n <= steps.len() == missing.len(),
        forall|i: int| 0 <= i < n && (#[trigger] steps[i]).name@ == name ==> !missing[i]
            || !names.contains(name),
    ensures
        ({
            let after = with_missing(steps, names, missing, state, n);
            &&& after.results.contains_key(name) == state.results.contains_key(name)
            &&& state.results.contains_key(name) ==> after.results[name] == state.results[name]
            &&& after.pending == state.pending
            &&& after.running == state.running
            &&& after.skipped == state.skipped
        }),
    decreases n,
{
    if n > 0 {
        law_artifacts_concern_their_step_only(
            steps,
            names,
            missing,
            state,
            (n - 1) as nat,
            name,
        );
        assert(steps[n - 1].name@ == name ==> !missing[n - 1] || !names.contains(name));
    }
}

/// Failing a step for its artifacts changes how it is said to have ended, and nothing else
/// of it: its exit code, its log and its diagnostics stay.
pub proof fn law_failing_keeps_what_else_is_known(
    ordered: Seq<(Seq<char>, StepResult)>,
    name: Seq<char>,
    k: int,
)
    requires
        0 <= k < ordered.len(),
    ensures
        ({
            let after = with_failure(ordered, name);
            &&& after.len() == ordered.len()
            &&& after[k].0 == ordered[k].0
            &&& ordered[k].0 != name ==> after[k] == ordered[k]
            &&& after[k].1 == (StepResult { class: after[k].1.class, ..ordered[k].1 })
            &&& after[k].1.class == ordered[k].1.class || after[k].1.class
                == StepResultClass::ExitFailure
            &&& ordered[k].0 == name && (forall|j: int|
                0 <= j < k ==> (#[trigger] ordered[j]).0 != name) ==> after[k].1.class
                == StepResultClass::ExitFailure
        }),
    decreases ordered.len(),
{
    if ordered[0].0 != name {
        let rest = ordered.drop_first();
        lemma_failure_length(rest, name);
        if k > 0 {
            law_failing_keeps_what_else_is_known(rest, name, k - 1);
            assert(rest[k - 1] == ordered[k]);
            if forall|j: int| 0 <= j < k ==> (#[trigger] ordered[j]).0 != name {
                assert forall|j: int| 0 <= j < k - 1 implies (#[trigger] rest[j]).0 != name by {
                    assert(ordered[j + 1].0 != name);
                }
            }
        }
    } else if k > 0 {
        assert(ordered[0].0 == name);
    }
}

proof fn lemma_failure_length(ordered: Seq<(Seq<char>, StepResult)>, name: Seq<char>)
    ensures
        with_failure(ordered, name).len() == ordered.len(),
    decreases ordered.len(),
{
    if ordered.len() > 0 && ordered[0].0 != name {
        lemma_failure_length(ordered.drop_first(), name);
    }
}

} // verus!
