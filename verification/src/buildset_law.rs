//! In a whole run, every step is told of once.

#[allow(unused_imports)]
use crate::buildset::{
    applies, batch, begun, doomed, left_waiting, names_at, names_backwards, names_taking_part,
    negated, ordinary_waits, positions, ready, unnamed, with_failure, with_missing, with_outcomes,
    with_skipped, without_doomed, RunState,
};
#[allow(unused_imports)]
use crate::config_graph::distinct_names;
#[allow(unused_imports)]
use crate::config_model::EffectiveStep;
#[allow(unused_imports)]
use crate::runner::{RunnerError, StepResult};
#[allow(unused_imports)]
use crate::seqs::{lemma_filter_agree, lemma_filter_members, lemma_filter_split};
#[allow(unused_imports)]
use vstd::multiset::Multiset;
use vstd::prelude::*;
#[allow(unused_imports)]
use vstd::seq_lib::lemma_multiset_commutative;

verus! {

/// The names of the steps.
pub open spec fn step_names(steps: Seq<EffectiveStep>) -> Seq<Seq<char>> {
    names_at(steps, positions(steps))
}

/// The names of the steps that have a result, in the order in which they got it.
pub open spec fn result_names(ordered: Seq<(Seq<char>, StepResult)>) -> Seq<Seq<char>> {
    ordered.map_values(|entry: (Seq<char>, StepResult)| entry.0)
}

/// The names of all steps that a run knows of: those that wait, those that are under way,
/// those that have a result, and those that were passed over.
pub open spec fn known_names(steps: Seq<EffectiveStep>, state: RunState) -> Multiset<Seq<char>> {
    names_at(steps, state.pending).to_multiset().add(
        names_at(steps, state.running).to_multiset(),
    ).add(result_names(state.ordered).to_multiset()).add(state.skipped.to_multiset())
}

/// The run knows of every step once, and none waits twice.
pub open spec fn knows_every_step(steps: Seq<EffectiveStep>, state: RunState) -> bool {
    known_names(steps, state) == step_names(steps).to_multiset() && state.pending.no_duplicates()
}

/// The state once a batch has been taken up.
pub open spec fn taken_up(
    steps: Seq<EffectiveStep>,
    names: Seq<Seq<char>>,
    concurrent: bool,
    state: RunState,
) -> RunState {
    let taken = batch(steps, names, concurrent, state);
    RunState { pending: left_waiting(state.pending, taken), running: taken, ..state }
}

/// The state once the steps under way are through.
pub open spec fn brought_in(
    steps: Seq<EffectiveStep>,
    state: RunState,
    outcomes: Seq<Result<StepResult, RunnerError>>,
) -> RunState {
    RunState {
        running: Seq::empty(),
        ..with_outcomes(steps, state, outcomes, state.running.len())
    }
}

/// The state of a run after some rounds: in each, a batch is taken up and brought in, and
/// the steps that are to be passed over are.
pub open spec fn after_rounds(
    steps: Seq<EffectiveStep>,
    paths: Seq<Seq<char>>,
    concurrent: bool,
    rounds: Seq<Seq<Result<StepResult, RunnerError>>>,
) -> RunState
    decreases rounds.len(),
{
    let names = names_taking_part(steps, paths);
    if rounds.len() == 0 {
        without_doomed(steps, names, begun(steps, paths))
    } else {
        let before = after_rounds(steps, paths, concurrent, rounds.drop_last());
        without_doomed(
            steps,
            names,
            brought_in(steps, taken_up(steps, names, concurrent, before), rounds.last()),
        )
    }
}

proof fn lemma_names_push(steps: Seq<EffectiveStep>, list: Seq<usize>, i: usize)
    ensures
        names_at(steps, list.push(i)) =~= names_at(steps, list).push(steps[i as int].name@),
        names_at(steps, list.push(i)).to_multiset() =~= names_at(steps, list).to_multiset().insert(
            steps[i as int].name@,
        ),
{
    broadcast use vstd::seq_lib::group_to_multiset_ensures;

    assert(names_at(steps, list.push(i)) =~= names_at(steps, list).push(steps[i as int].name@));
}

/// What a filter keeps and what the opposite one keeps have all the names together.
proof fn lemma_names_split(
    steps: Seq<EffectiveStep>,
    list: Seq<usize>,
    kept: spec_fn(usize) -> bool,
    dropped: spec_fn(usize) -> bool,
)
    requires
        forall|k: int| 0 <= k < list.len() ==> kept(#[trigger] list[k]) == !dropped(list[k]),
    ensures
        names_at(steps, list).to_multiset() =~= names_at(
            steps,
            list.filter(kept),
        ).to_multiset().add(names_at(steps, list.filter(dropped)).to_multiset()),
    decreases list.len(),
{
    broadcast use vstd::seq_lib::group_to_multiset_ensures;

    reveal(Seq::filter);
    if list.len() > 0 {
        let rest = list.drop_last();
        assert forall|k: int| 0 <= k < rest.len() implies kept(#[trigger] rest[k]) == !dropped(
            rest[k],
        ) by {
            assert(rest[k] == list[k]);
        }
        lemma_names_split(steps, rest, kept, dropped);
        let last = list.last();
        assert(list =~= rest.push(last));
        assert(last == list[list.len() - 1]);
        lemma_names_push(steps, rest, last);
        if kept(last) {
            lemma_names_push(steps, rest.filter(kept), last);
        } else {
            lemma_names_push(steps, rest.filter(dropped), last);
        }
    } else {
        assert(list.filter(kept) =~= list);
        assert(list.filter(dropped) =~= list);
        assert(names_at(steps, list) =~= Seq::<Seq<char>>::empty());
        assert(names_at(steps, list).to_multiset().len() == 0);
    }
}

proof fn lemma_backwards(steps: Seq<EffectiveStep>, list: Seq<usize>)
    ensures
        names_backwards(steps, list).to_multiset() =~= names_at(steps, list).to_multiset(),
    decreases list.len(),
{
    broadcast use vstd::seq_lib::group_to_multiset_ensures;

    if list.len() > 0 {
        let rest = list.drop_last();
        let name = steps[list.last() as int].name@;
        lemma_backwards(steps, rest);
        assert(list =~= rest.push(list.last()));
        lemma_names_push(steps, rest, list.last());
        lemma_multiset_commutative(seq![name], names_backwards(steps, rest));
        assert(seq![name] =~= Seq::<Seq<char>>::empty().push(name));
        assert(seq![name].to_multiset() =~= Seq::<Seq<char>>::empty().to_multiset().insert(name));
        assert(Seq::<Seq<char>>::empty().to_multiset().len() == 0);
    } else {
        assert(names_at(steps, list) =~= names_backwards(steps, list));
    }
}

proof fn lemma_filter_keeps_apart(list: Seq<usize>, kept: spec_fn(usize) -> bool)
    requires
        list.no_duplicates(),
    ensures
        list.filter(kept).no_duplicates(),
    decreases list.len(),
{
    reveal(Seq::filter);
    if list.len() > 0 {
        let rest = list.drop_last();
        assert forall|i: int, j: int|
            0 <= i < rest.len() && 0 <= j < rest.len() && i != j implies rest[i] != rest[j] by {
            assert(rest[i] == list[i] && rest[j] == list[j]);
        }
        lemma_filter_keeps_apart(rest, kept);
        lemma_filter_members(rest, kept);
        let part = rest.filter(kept);
        assert forall|k: int| 0 <= k < part.len() implies part[k] != list.last() by {
            assert(rest.contains(part[k]));
            let j = choose|j: int| 0 <= j < rest.len() && rest[j] == part[k];
            assert(list[j] != list[list.len() - 1]);
        }
    }
}

proof fn lemma_filter_one(list: Seq<usize>, i: usize)
    requires
        list.no_duplicates(),
        list.contains(i),
    ensures
        list.filter(|k: usize| seq![i].contains(k)) =~= seq![i],
    decreases list.len(),
{
    reveal(Seq::filter);
    let same = |k: usize| seq![i].contains(k);
    assert(seq![i][0] == i);
    assert(forall|k: usize| #[trigger] same(k) <==> k == i);
    let rest = list.drop_last();
    assert forall|a: int, b: int|
        0 <= a < rest.len() && 0 <= b < rest.len() && a != b implies rest[a] != rest[b] by {
        assert(rest[a] == list[a] && rest[b] == list[b]);
    }
    if list.last() == i {
        lemma_filter_members(rest, same);
        let part = rest.filter(same);
        if part.len() > 0 {
            assert(same(part[0]));
            assert(rest.contains(part[0]));
            let j = choose|j: int| 0 <= j < rest.len() && rest[j] == part[0];
            assert(list[j] == i && list[list.len() - 1] == i);
        }
        assert(part =~= Seq::<usize>::empty());
    } else {
        let k = choose|k: int| 0 <= k < list.len() && list[k] == i;
        assert(rest[k] == i);
        lemma_filter_one(rest, i);
    }
}

/// A run that has begun knows of every step.
proof fn lemma_begun_knows(steps: Seq<EffectiveStep>, paths: Seq<Seq<char>>)
    requires
        distinct_names(steps),
        steps.len() <= usize::MAX,
    ensures
        knows_every_step(steps, begun(steps, paths)),
{
    broadcast use vstd::seq_lib::group_to_multiset_ensures;

    let all = positions(steps);
    let taken = applies(steps, paths);
    let names = names_taking_part(steps, paths);
    let left = unnamed(steps, names);
    let part = all.filter(taken);
    lemma_filter_members(all, taken);
    assert forall|k: int| 0 <= k < all.len() implies taken(#[trigger] all[k]) == !left(all[k]) by {
        let name = steps[all[k] as int].name@;
        if taken(all[k]) {
            assert(part.contains(all[k]));
            let j = choose|j: int| 0 <= j < part.len() && part[j] == all[k];
            assert(names[j] == name);
        }
        if names.contains(name) {
            let j = choose|j: int| 0 <= j < names.len() && names[j] == name;
            assert(all.contains(part[j]));
            let m = choose|m: int| 0 <= m < all.len() && all[m] == part[j];
            assert(steps[m].name@ == steps[k].name@);
            assert(m == k);
        }
    }
    lemma_names_split(steps, all, taken, left);
    assert(all.no_duplicates());
    lemma_filter_keeps_apart(all, taken);
    let state = begun(steps, paths);
    assert(names_at(steps, state.running) =~= Seq::<Seq<char>>::empty());
    assert(result_names(state.ordered) =~= Seq::<Seq<char>>::empty());
    assert(Seq::<Seq<char>>::empty().to_multiset().len() == 0);
    assert(known_names(steps, state) =~= step_names(steps).to_multiset());
}

/// Passing over steps loses none.
proof fn lemma_passing_over_knows(
    steps: Seq<EffectiveStep>,
    names: Seq<Seq<char>>,
    state: RunState,
)
    requires
        knows_every_step(steps, state),
    ensures
        knows_every_step(steps, without_doomed(steps, names, state)),
        without_doomed(steps, names, state).running == state.running,
    decreases state.pending.len(),
{
    broadcast use vstd::seq_lib::group_to_multiset_ensures;

    let doom = doomed(steps, names, ordinary_waits(steps, state.pending), state.results);
    let failed = state.pending.filter(doom);
    if state.pending.len() > 0 && failed.len() > 0 {
        let next = RunState {
            pending: state.pending.filter(negated(doom)),
            results: with_skipped(steps, state.results, failed),
            skipped: state.skipped + names_backwards(steps, failed),
            ..state
        };
        lemma_filter_split(state.pending, doom, negated(doom));
        lemma_names_split(steps, state.pending, doom, negated(doom));
        lemma_filter_keeps_apart(state.pending, negated(doom));
        lemma_backwards(steps, failed);
        lemma_multiset_commutative(state.skipped, names_backwards(steps, failed));
        assert(known_names(steps, next) =~= known_names(steps, state));
        lemma_passing_over_knows(steps, names, next);
    }
}

/// Taking up a batch loses no step.
proof fn lemma_taking_up_knows(
    steps: Seq<EffectiveStep>,
    names: Seq<Seq<char>>,
    concurrent: bool,
    state: RunState,
)
    requires
        knows_every_step(steps, state),
        state.running.len() == 0,
    ensures
        knows_every_step(steps, taken_up(steps, names, concurrent, state)),
{
    broadcast use vstd::seq_lib::group_to_multiset_ensures;

    let pending = state.pending;
    let may = ready(steps, names, ordinary_waits(steps, pending), state.results);
    let all = pending.filter(may);
    let taken = batch(steps, names, concurrent, state);
    let goes = |i: usize| taken.contains(i);
    let stays = |i: usize| !taken.contains(i);
    lemma_filter_members(pending, may);
    lemma_names_split(steps, pending, goes, stays);
    lemma_filter_keeps_apart(pending, stays);
    if concurrent || all.len() == 0 {
        assert forall|k: int| 0 <= k < pending.len() implies goes(#[trigger] pending[k]) == may(
            pending[k],
        ) by {
            if taken.contains(pending[k]) {
                let j = choose|j: int| 0 <= j < taken.len() && taken[j] == pending[k];
                assert(may(all[j]));
            }
        }
        lemma_filter_agree(pending, goes, may);
    } else {
        assert(pending.contains(all[0]));
        lemma_filter_one(pending, all[0]);
        assert(goes =~= (|k: usize| seq![all[0]].contains(k)));
    }
    assert(pending.filter(goes) =~= taken);
    let next = taken_up(steps, names, concurrent, state);
    assert(next.pending =~= pending.filter(stays));
    assert(names_at(steps, state.running) =~= Seq::<Seq<char>>::empty());
    assert(Seq::<Seq<char>>::empty().to_multiset().len() == 0);
    assert(known_names(steps, next) =~= known_names(steps, state));
}

proof fn lemma_outcomes(
    steps: Seq<EffectiveStep>,
    state: RunState,
    outcomes: Seq<Result<StepResult, RunnerError>>,
    n: nat,
)
    requires
        n <= state.running.len(),
    ensures
        ({
            let after = with_outcomes(steps, state, outcomes, n);
            &&& after.pending == state.pending
            &&& after.running == state.running
            &&& after.skipped == state.skipped
            &&& result_names(after.ordered).to_multiset() =~= result_names(
                state.ordered,
            ).to_multiset().add(names_at(steps, state.running.take(n as int)).to_multiset())
        }),
    decreases n,
{
    broadcast use vstd::seq_lib::group_to_multiset_ensures;

    if n > 0 {
        lemma_outcomes(steps, state, outcomes, (n - 1) as nat);
        let before = with_outcomes(steps, state, outcomes, (n - 1) as nat);
        let after = with_outcomes(steps, state, outcomes, n);
        let last = state.running[n - 1];
        let name = steps[last as int].name@;
        assert(result_names(after.ordered) =~= result_names(before.ordered).push(name));
        assert(state.running.take(n as int) =~= state.running.take(n - 1).push(last));
        lemma_names_push(steps, state.running.take(n - 1), last);
    } else {
        assert(names_at(steps, state.running.take(0)) =~= Seq::<Seq<char>>::empty());
        assert(Seq::<Seq<char>>::empty().to_multiset().len() == 0);
    }
}

/// Bringing in the outcomes of a batch loses no step.
proof fn lemma_bringing_in_knows(
    steps: Seq<EffectiveStep>,
    state: RunState,
    outcomes: Seq<Result<StepResult, RunnerError>>,
)
    requires
        knows_every_step(steps, state),
    ensures
        knows_every_step(steps, brought_in(steps, state, outcomes)),
{
    broadcast use vstd::seq_lib::group_to_multiset_ensures;

    lemma_outcomes(steps, state, outcomes, state.running.len());
    assert(state.running.take(state.running.len() as int) =~= state.running);
    let after = brought_in(steps, state, outcomes);
    assert(names_at(steps, after.running) =~= Seq::<Seq<char>>::empty());
    assert(Seq::<Seq<char>>::empty().to_multiset().len() == 0);
    assert(known_names(steps, after) =~= known_names(steps, state));
}

proof fn lemma_rounds_know(
    steps: Seq<EffectiveStep>,
    paths: Seq<Seq<char>>,
    concurrent: bool,
    rounds: Seq<Seq<Result<StepResult, RunnerError>>>,
)
    requires
        distinct_names(steps),
        steps.len() <= usize::MAX,
    ensures
        knows_every_step(steps, after_rounds(steps, paths, concurrent, rounds)),
        after_rounds(steps, paths, concurrent, rounds).running.len() == 0,
    decreases rounds.len(),
{
    let names = names_taking_part(steps, paths);
    if rounds.len() == 0 {
        lemma_begun_knows(steps, paths);
        lemma_passing_over_knows(steps, names, begun(steps, paths));
    } else {
        let before = after_rounds(steps, paths, concurrent, rounds.drop_last());
        lemma_rounds_know(steps, paths, concurrent, rounds.drop_last());
        lemma_taking_up_knows(steps, names, concurrent, before);
        let taken = taken_up(steps, names, concurrent, before);
        lemma_bringing_in_knows(steps, taken, rounds.last());
        lemma_passing_over_knows(steps, names, brought_in(steps, taken, rounds.last()));
    }
}

/// At the end of a run, every step either has a result or was passed over, none has both,
/// and none comes twice: the names of the results and those of the steps that were passed
/// over are a permutation of the names of the steps.
pub proof fn law_every_step_is_told_of_once(
    steps: Seq<EffectiveStep>,
    paths: Seq<Seq<char>>,
    concurrent: bool,
    rounds: Seq<Seq<Result<StepResult, RunnerError>>>,
)
    requires
        distinct_names(steps),
        steps.len() <= usize::MAX,
        after_rounds(steps, paths, concurrent, rounds).pending.len() == 0,
    ensures
        ({
            let end = after_rounds(steps, paths, concurrent, rounds);
            (result_names(end.ordered) + end.skipped).to_multiset() == step_names(
                steps,
            ).to_multiset()
        }),
{
    broadcast use vstd::seq_lib::group_to_multiset_ensures;

    lemma_rounds_know(steps, paths, concurrent, rounds);
    let end = after_rounds(steps, paths, concurrent, rounds);
    lemma_multiset_commutative(result_names(end.ordered), end.skipped);
    assert(names_at(steps, end.pending) =~= Seq::<Seq<char>>::empty());
    assert(names_at(steps, end.running) =~= Seq::<Seq<char>>::empty());
    assert(Seq::<Seq<char>>::empty().to_multiset().len() == 0);
    assert((result_names(end.ordered) + end.skipped).to_multiset() =~= known_names(steps, end));
}

proof fn lemma_failure_keeps_names(ordered: Seq<(Seq<char>, StepResult)>, name: Seq<char>)
    ensures
        result_names(with_failure(ordered, name)) =~= result_names(ordered),
    decreases ordered.len(),
{
    if ordered.len() > 0 && ordered[0].0 != name {
        let rest = ordered.drop_first();
        lemma_failure_keeps_names(rest, name);
        let after = with_failure(rest, name);
        assert(result_names(after).len() == result_names(rest).len());
        assert forall|k: int| 0 <= k < ordered.len() implies result_names(
            with_failure(ordered, name),
        )[k] == result_names(ordered)[k] by {
            if k > 0 {
                assert(result_names(after)[k - 1] == result_names(rest)[k - 1]);
            }
        }
    }
}

/// The judgement changes what the results say, not whose they are.
pub proof fn law_judging_keeps_the_names(
    steps: Seq<EffectiveStep>,
    names: Seq<Seq<char>>,
    missing: Seq<bool>,
    state: RunState,
    n: nat,
)
    ensures
        ({
            let after = with_missing(steps, names, missing, state, n);
            result_names(after.ordered) == result_names(state.ordered) && after.skipped
                == state.skipped
        }),
    decreases n,
{
    if n > 0 {
        law_judging_keeps_the_names(steps, names, missing, state, (n - 1) as nat);
        let before = with_missing(steps, names, missing, state, (n - 1) as nat);
        lemma_failure_keeps_names(before.ordered, steps[n - 1].name@);
    }
}

} // verus!
