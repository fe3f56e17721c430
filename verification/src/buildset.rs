//! The order in which the steps of a buildset run, and what their results amount to.

use crate::config_graph::dependency_at;
#[allow(unused_imports)]
use crate::config::{selected, selection_fault};
#[allow(unused_imports)]
use crate::config_graph::{dependencies, graph_fault, is_step, last_named, ranks};
use crate::config_model::{EffectiveConfig, EffectiveStep};
#[allow(unused_imports)]
use crate::config_model::ConfigError;
#[allow(unused_imports)]
use crate::config_rules::filters_select;
use crate::runner::{RunnerError, StepResult, StepResultClass};
#[allow(unused_imports)]
use crate::seqs::{lemma_filter_ends, lemma_filter_members, lemma_filter_split, lemma_filter_step};
use crate::text::{concat3, contains_text, signed_string, str_equal};
#[allow(unused_imports)]
use crate::text::{signed_decimal, texts};
use crate::text_map::TextMap;
use vstd::prelude::*;

verus! {

/// How the steps that have a result ended.
pub type Results = Map<Seq<char>, StepResultClass>;

/// What is known of a run: the steps that wait, those that are under way, how those
/// that are through ended, and the names of those that were passed over.
pub struct RunState {
    pub pending: Seq<usize>,
    pub running: Seq<usize>,
    pub results: Results,
    pub ordered: Seq<(Seq<char>, StepResult)>,
    pub skipped: Seq<Seq<char>>,
}

/// A buildset run.
pub struct BuildsetRun {
    names: Vec<String>,
    pending: Vec<usize>,
    running: Vec<usize>,
    results: TextMap<StepResultClass>,
    ordered: Vec<(String, StepResult)>,
    skipped: Vec<String>,
}

/// What comes next in a run.
#[derive(Clone, Debug, PartialEq, Eq)]
pub enum BuildsetAction {
    /// Run these steps, by their positions in the configuration, side by side.
    Run { steps: Vec<usize> },
    /// Every step is through.
    Conclude,
}

/// Every dependency of the step that takes part in the run has a result.
pub open spec fn settled(step: EffectiveStep, names: Seq<Seq<char>>, results: Results) -> bool {
    forall|d: int|
        0 <= d < dependencies(step).len() ==> !names.contains(#[trigger] dependencies(step)[d])
            || results.contains_key(dependencies(step)[d])
}

/// Some dependency of the step did not succeed.
pub open spec fn let_down(step: EffectiveStep, results: Results) -> bool {
    exists|d: int|
        0 <= d < dependencies(step).len() && results.contains_key(
            #[trigger] dependencies(step)[d],
        ) && results[dependencies(step)[d]] != StepResultClass::Success
}

/// An ordinary step, not a final one, still waits.
pub open spec fn ordinary_waits(steps: Seq<EffectiveStep>, pending: Seq<usize>) -> bool {
    exists|k: int| 0 <= k < pending.len() && !steps[#[trigger] pending[k] as int].final_step
}

/// The step may be taken up: final steps once no ordinary one waits, and each step once
/// its dependencies are through.
pub open spec fn ready(
    steps: Seq<EffectiveStep>,
    names: Seq<Seq<char>>,
    ordinary: bool,
    results: Results,
) -> spec_fn(usize) -> bool {
    |i: usize|
        steps[i as int].final_step != ordinary && settled(steps[i as int], names, results)
}

/// The step may be taken up, but is passed over, because something that it waited for
/// did not succeed. Final steps run regardless.
pub open spec fn doomed(
    steps: Seq<EffectiveStep>,
    names: Seq<Seq<char>>,
    ordinary: bool,
    results: Results,
) -> spec_fn(usize) -> bool {
    |i: usize|
        ready(steps, names, ordinary, results)(i) && !steps[i as int].final_step && let_down(
            steps[i as int],
            results,
        )
}

pub open spec fn negated(p: spec_fn(usize) -> bool) -> spec_fn(usize) -> bool {
    |i: usize| !p(i)
}

/// The results with steps that were passed over added, the last one first.
pub open spec fn with_skipped(
    steps: Seq<EffectiveStep>,
    results: Results,
    failed: Seq<usize>,
) -> Results
    decreases failed.len(),
{
    if failed.len() == 0 {
        results
    } else {
        with_skipped(
            steps,
            results.insert(steps[failed.last() as int].name@, StepResultClass::Interrupted),
            failed.drop_last(),
        )
    }
}

/// The names of steps, the last one first.
pub open spec fn names_backwards(steps: Seq<EffectiveStep>, failed: Seq<usize>) -> Seq<Seq<char>>
    decreases failed.len(),
{
    if failed.len() == 0 {
        Seq::empty()
    } else {
        seq![steps[failed.last() as int].name@] + names_backwards(steps, failed.drop_last())
    }
}

/// The state after every step that is to be passed over has been, in rounds: passing
/// over one step may doom others.
pub open spec fn without_doomed(
    steps: Seq<EffectiveStep>,
    names: Seq<Seq<char>>,
    state: RunState,
) -> RunState
    decreases state.pending.len(),
{
    let ordinary = ordinary_waits(steps, state.pending);
    let doom = doomed(steps, names, ordinary, state.results);
    let failed = state.pending.filter(doom);
    if state.pending.len() == 0 || failed.len() == 0 {
        state
    } else {
        proof {
            lemma_filter_split(state.pending, doom, negated(doom));
        }
        without_doomed(
            steps,
            names,
            RunState {
                pending: state.pending.filter(negated(doom)),
                results: with_skipped(steps, state.results, failed),
                skipped: state.skipped + names_backwards(steps, failed),
                ..state
            },
        )
    }
}

/// The steps that are taken up next: all that are ready, or the first of them.
pub open spec fn batch(
    steps: Seq<EffectiveStep>,
    names: Seq<Seq<char>>,
    concurrent: bool,
    state: RunState,
) -> Seq<usize> {
    let ordinary = ordinary_waits(steps, state.pending);
    let all = state.pending.filter(ready(steps, names, ordinary, state.results));
    if concurrent || all.len() == 0 {
        all
    } else {
        seq![all[0]]
    }
}

/// The waiting steps without those that are taken up.
pub open spec fn left_waiting(pending: Seq<usize>, taken: Seq<usize>) -> Seq<usize> {
    pending.filter(|i: usize| !taken.contains(i))
}

/// One of the listed steps has the name.
pub open spec fn lists(steps: Seq<EffectiveStep>, list: Seq<usize>, name: Seq<char>) -> bool {
    exists|k: int| 0 <= k < list.len() && steps[#[trigger] list[k] as int].name@ == name
}

/// The listed positions are those of steps that take part.
pub open spec fn taking_part(
    steps: Seq<EffectiveStep>,
    names: Seq<Seq<char>>,
    list: Seq<usize>,
) -> bool {
    forall|k: int|
        0 <= k < list.len() ==> (#[trigger] list[k]) < steps.len() && names.contains(
            steps[list[k] as int].name@,
        )
}

/// Every step that takes part waits, is under way, or has a result.
pub open spec fn accounted_for(
    steps: Seq<EffectiveStep>,
    names: Seq<Seq<char>>,
    state: RunState,
) -> bool {
    forall|i: int|
        0 <= i < steps.len() && names.contains((#[trigger] steps[i]).name@) ==> {
            ||| state.results.contains_key(steps[i].name@)
            ||| lists(steps, state.pending, steps[i].name@)
            ||| lists(steps, state.running, steps[i].name@)
        }
}

/// What holds of every run.
pub open spec fn sound(
    steps: Seq<EffectiveStep>,
    names: Seq<Seq<char>>,
    state: RunState,
) -> bool {
    &&& taking_part(steps, names, state.pending)
    &&& taking_part(steps, names, state.running)
    &&& accounted_for(steps, names, state)
}

/// No step that waits can be taken up.
pub open spec fn stalls(
    steps: Seq<EffectiveStep>,
    names: Seq<Seq<char>>,
    state: RunState,
) -> bool {
    state.pending.len() > 0 && batch(steps, names, true, state).len() == 0
}

/// The positions of the steps.
pub open spec fn positions(steps: Seq<EffectiveStep>) -> Seq<usize> {
    Seq::new(steps.len(), |i: int| i as usize)
}

/// The step applies to the change.
pub open spec fn applies(steps: Seq<EffectiveStep>, paths: Seq<Seq<char>>) -> spec_fn(usize) -> bool {
    |i: usize|
        filters_select(
            texts(steps[i as int].includes@),
            texts(steps[i as int].excludes@),
            paths,
        )
}

/// The names of the steps at the given positions.
pub open spec fn names_at(steps: Seq<EffectiveStep>, list: Seq<usize>) -> Seq<Seq<char>> {
    list.map_values(|i: usize| steps[i as int].name@)
}

/// The names of the steps that take part in a run for the change.
pub open spec fn names_taking_part(
    steps: Seq<EffectiveStep>,
    paths: Seq<Seq<char>>,
) -> Seq<Seq<char>> {
    names_at(steps, positions(steps).filter(applies(steps, paths)))
}

pub open spec fn unnamed(
    steps: Seq<EffectiveStep>,
    names: Seq<Seq<char>>,
) -> spec_fn(usize) -> bool {
    |i: usize| !names.contains(steps[i as int].name@)
}

/// The step needs one that takes no part.
pub open spec fn orphaned(step: EffectiveStep, names: Seq<Seq<char>>) -> bool {
    exists|d: int| 0 <= d < step.needs@.len() && !names.contains((#[trigger] step.needs@[d])@)
}

/// The first of the listed steps that needs one that takes no part.
pub open spec fn first_orphan(
    steps: Seq<EffectiveStep>,
    names: Seq<Seq<char>>,
    list: Seq<usize>,
) -> Option<Seq<char>>
    decreases list.len(),
{
    if list.len() == 0 {
        None
    } else if orphaned(steps[list[0] as int], names) {
        Some(steps[list[0] as int].name@)
    } else {
        first_orphan(steps, names, list.drop_first())
    }
}

/// The state in which a run begins.
pub open spec fn begun(steps: Seq<EffectiveStep>, paths: Seq<Seq<char>>) -> RunState {
    RunState {
        pending: positions(steps).filter(applies(steps, paths)),
        running: Seq::empty(),
        results: Map::empty(),
        ordered: Seq::empty(),
        skipped: names_at(
            steps,
            positions(steps).filter(unnamed(steps, names_taking_part(steps, paths))),
        ),
    }
}

proof fn lemma_with_skipped(steps: Seq<EffectiveStep>, results: Results, failed: Seq<usize>)
    ensures
        forall|name: Seq<char>|
            #[trigger] with_skipped(steps, results, failed).contains_key(name)
                <==> results.contains_key(name) || lists(steps, failed, name),
    decreases failed.len(),
{
    if failed.len() > 0 {
        let last = steps[failed.last() as int].name@;
        let more = results.insert(last, StepResultClass::Interrupted);
        lemma_with_skipped(steps, more, failed.drop_last());
        assert forall|name: Seq<char>|
            #[trigger] with_skipped(steps, results, failed).contains_key(
                name,
            ) <==> results.contains_key(name) || lists(steps, failed, name) by {
            let rest = failed.drop_last();
            assert(with_skipped(steps, more, rest).contains_key(name) <==> more.contains_key(name)
                || lists(steps, rest, name));
            if lists(steps, rest, name) {
                let k = choose|k: int|
                    0 <= k < rest.len() && steps[#[trigger] rest[k] as int].name@ == name;
                assert(failed[k] == rest[k]);
            }
            if lists(steps, failed, name) {
                let k = choose|k: int|
                    0 <= k < failed.len() && steps[#[trigger] failed[k] as int].name@ == name;
                if k < rest.len() {
                    assert(rest[k] == failed[k]);
                }
            }
            if name == last {
                assert(steps[failed[failed.len() - 1] as int].name@ == name);
                assert(lists(steps, failed, name));
            }
        }
    }
}

/// Splitting a list by a filter and its opposite loses no name.
proof fn lemma_lists_split(
    steps: Seq<EffectiveStep>,
    list: Seq<usize>,
    kept: spec_fn(usize) -> bool,
    dropped: spec_fn(usize) -> bool,
    name: Seq<char>,
)
    requires
        forall|i: usize| #[trigger] kept(i) == !dropped(i),
        lists(steps, list, name),
    ensures
        lists(steps, list.filter(kept), name) || lists(steps, list.filter(dropped), name),
{
    lemma_filter_members(list, kept);
    lemma_filter_members(list, dropped);
    let k = choose|k: int| 0 <= k < list.len() && steps[#[trigger] list[k] as int].name@ == name;
    let i = list[k];
    if kept(i) {
        let part = list.filter(kept);
        assert(part.contains(i));
        let j = choose|j: int| 0 <= j < part.len() && part[j] == i;
        assert(steps[part[j] as int].name@ == name);
    } else {
        assert(dropped(i));
        let part = list.filter(dropped);
        assert(part.contains(i));
        let j = choose|j: int| 0 <= j < part.len() && part[j] == i;
        assert(steps[part[j] as int].name@ == name);
    }
}

proof fn lemma_part_takes_part(
    steps: Seq<EffectiveStep>,
    names: Seq<Seq<char>>,
    list: Seq<usize>,
    kept: spec_fn(usize) -> bool,
)
    requires
        taking_part(steps, names, list),
    ensures
        taking_part(steps, names, list.filter(kept)),
{
    lemma_filter_members(list, kept);
    let part = list.filter(kept);
    assert forall|k: int| 0 <= k < part.len() implies (#[trigger] part[k]) < steps.len()
        && names.contains(steps[part[k] as int].name@) by {
        assert(list.contains(part[k]));
        let j = choose|j: int| 0 <= j < list.len() && list[j] == part[k];
        assert(list[j] < steps.len());
    }
}

/// Passing over steps keeps a run sound, and leaves none that is to be passed over.
pub proof fn lemma_without_doomed(
    steps: Seq<EffectiveStep>,
    names: Seq<Seq<char>>,
    state: RunState,
)
    requires
        sound(steps, names, state),
    ensures
        sound(steps, names, without_doomed(steps, names, state)),
        without_doomed(steps, names, state).running == state.running,
        without_doomed(steps, names, state).ordered == state.ordered,
        ({
            let after = without_doomed(steps, names, state);
            after.pending.len() == 0 || after.pending.filter(
                doomed(steps, names, ordinary_waits(steps, after.pending), after.results),
            ).len() == 0
        }),
    decreases state.pending.len(),
{
    let ordinary = ordinary_waits(steps, state.pending);
    let doom = doomed(steps, names, ordinary, state.results);
    let failed = state.pending.filter(doom);
    if state.pending.len() > 0 && failed.len() > 0 {
        let next = RunState {
            pending: state.pending.filter(negated(doom)),
            results: with_skipped(steps, state.results, failed),
            skipped: state.skipped + names_backwards(steps, failed),
            ..state
        };
        lemma_filter_split(state.pending, doom, negated(doom));
        lemma_part_takes_part(steps, names, state.pending, negated(doom));
        lemma_with_skipped(steps, state.results, failed);
        assert(accounted_for(steps, names, next)) by {
            assert forall|i: int|
                0 <= i < steps.len() && names.contains((#[trigger] steps[i]).name@) implies {
                ||| next.results.contains_key(steps[i].name@)
                ||| lists(steps, next.pending, steps[i].name@)
                ||| lists(steps, next.running, steps[i].name@)
            } by {
                let name = steps[i].name@;
                if lists(steps, state.pending, name) {
                    lemma_lists_split(steps, state.pending, doom, negated(doom), name);
                }
            }
        }
        lemma_without_doomed(steps, names, next);
    }
}

/// No step is taken up before every dependency of it that takes part has a result, and
/// an ordinary step only if all of them succeeded.
pub proof fn law_steps_wait_for_their_dependencies(
    steps: Seq<EffectiveStep>,
    names: Seq<Seq<char>>,
    concurrent: bool,
    state: RunState,
    k: int,
    d: int,
)
    requires
        sound(steps, names, state),
        0 <= k < batch(steps, names, concurrent, without_doomed(steps, names, state)).len(),
        ({
            let i = batch(steps, names, concurrent, without_doomed(steps, names, state))[k];
            0 <= d < dependencies(steps[i as int]).len()
        }),
    ensures
        ({
            let after = without_doomed(steps, names, state);
            let step = steps[batch(steps, names, concurrent, after)[k] as int];
            let name = dependencies(step)[d];
            &&& names.contains(name) ==> after.results.contains_key(name)
            &&& !step.final_step && after.results.contains_key(name) ==> after.results[name]
                == StepResultClass::Success
        }),
{
    let after = without_doomed(steps, names, state);
    lemma_without_doomed(steps, names, state);
    let ordinary = ordinary_waits(steps, after.pending);
    let can = ready(steps, names, ordinary, after.results);
    let doom = doomed(steps, names, ordinary, after.results);
    let all = after.pending.filter(can);
    lemma_filter_members(after.pending, can);
    lemma_filter_members(after.pending, doom);
    let i = batch(steps, names, concurrent, after)[k];
    assert(i == all[k]);
    assert(can(i));
    assert(after.pending.contains(i));
    let step = steps[i as int];
    let name = dependencies(step)[d];
    if !step.final_step && after.results.contains_key(name) && after.results[name]
        != StepResultClass::Success {
        assert(let_down(step, after.results));
        assert(doom(i));
        let j = choose|j: int| 0 <= j < after.pending.len() && after.pending[j] == i;
        assert(doom(after.pending[j]));
        assert(after.pending.filter(doom).contains(i));
    }
}

/// Final steps are taken up only when no ordinary step waits any more.
pub proof fn law_final_steps_come_last(
    steps: Seq<EffectiveStep>,
    names: Seq<Seq<char>>,
    concurrent: bool,
    state: RunState,
    k: int,
    p: int,
)
    requires
        0 <= k < batch(steps, names, concurrent, state).len(),
        steps[batch(steps, names, concurrent, state)[k] as int].final_step,
        0 <= p < state.pending.len(),
    ensures
        steps[state.pending[p] as int].final_step,
{
    let ordinary = ordinary_waits(steps, state.pending);
    let can = ready(steps, names, ordinary, state.results);
    lemma_filter_members(state.pending, can);
    let all = state.pending.filter(can);
    assert(batch(steps, names, concurrent, state)[k] == all[k]);
    assert(can(all[k]));
}

/// Among the listed steps of one kind there is one of lowest rank.
proof fn lemma_lowest(
    steps: Seq<EffectiveStep>,
    list: Seq<usize>,
    final_step: bool,
    rank: spec_fn(Seq<char>) -> nat,
) -> (r: int)
    requires
        exists|k: int|
            0 <= k < list.len() && steps[#[trigger] list[k] as int].final_step == final_step,
    ensures
        0 <= r < list.len(),
        steps[list[r] as int].final_step == final_step,
        forall|k: int|
            0 <= k < list.len() && steps[#[trigger] list[k] as int].final_step == final_step
                ==> rank(steps[list[r] as int].name@) <= rank(steps[list[k] as int].name@),
    decreases list.len(),
{
    let last = list.len() - 1;
    let rest = list.drop_last();
    if exists|k: int|
        0 <= k < rest.len() && steps[#[trigger] rest[k] as int].final_step == final_step {
        let low = lemma_lowest(steps, rest, final_step, rank);
        assert(rest[low] == list[low]);
        let r = if steps[list[last] as int].final_step == final_step && rank(
            steps[list[last] as int].name@,
        ) < rank(steps[list[low] as int].name@) {
            last
        } else {
            low
        };
        assert forall|k: int|
            0 <= k < list.len() && steps[#[trigger] list[k] as int].final_step
                == final_step implies rank(steps[list[r] as int].name@) <= rank(
            steps[list[k] as int].name@,
        ) by {
            if k < last {
                assert(rest[k] == list[k]);
            }
        }
        r
    } else {
        let k = choose|k: int|
            0 <= k < list.len() && steps[#[trigger] list[k] as int].final_step == final_step;
        assert forall|j: int|
            0 <= j < list.len() && steps[#[trigger] list[j] as int].final_step
                == final_step implies j == last by {
            if j < last {
                assert(rest[j] == list[j]);
            }
        }
        last
    }
}

/// With a step graph that a configuration may have, a run whose steps under way are all
/// through always gets on: as long as steps wait, one can be taken up.
pub proof fn law_accepted_graphs_never_stall(
    steps: Seq<EffectiveStep>,
    names: Seq<Seq<char>>,
    state: RunState,
)
    requires
        graph_fault(steps) is None,
        sound(steps, names, state),
        state.running.len() == 0,
    ensures
        !stalls(steps, names, state),
{
    if state.pending.len() > 0 {
        let ordinary = ordinary_waits(steps, state.pending);
        let can = ready(steps, names, ordinary, state.results);
        let rank = choose|rank: spec_fn(Seq<char>) -> nat| ranks(steps, rank);
        if !ordinary {
            assert(steps[state.pending[0] as int].final_step == !ordinary);
        }
        let low = lemma_lowest(steps, state.pending, !ordinary, rank);
        let i = state.pending[low];
        let step = steps[i as int];
        assert forall|d: int|
            0 <= d < dependencies(step).len() implies !names.contains(
            #[trigger] dependencies(step)[d],
        ) || state.results.contains_key(dependencies(step)[d]) by {
            let name = dependencies(step)[d];
            crate::config_graph::lemma_no_fault_at(steps, 0, i as int, d);
            assert(is_step(steps, name));
            if names.contains(name) && !state.results.contains_key(name) {
                let j = choose|j: int| 0 <= j < steps.len() && (#[trigger] steps[j]).name@ == name;
                assert(names.contains(steps[j].name@));
                assert(lists(steps, state.pending, name));
                let k = choose|k: int|
                    0 <= k < state.pending.len() && steps[#[trigger] state.pending[k] as int].name@
                        == name;
                let other = state.pending[k] as int;
                assert(rank(dependencies(steps[i as int])[d]) < rank(steps[i as int].name@));
                if ordinary {
                    assert(last_named(steps, name, other)) by {
                        assert forall|m: int| other < m < steps.len() implies (
                        #[trigger] steps[m]).name@ != name by {
                            assert(steps[other].name@ != steps[m].name@);
                        }
                    }
                    assert(!steps[other].final_step);
                } else {
                    assert(steps[state.pending[k] as int].final_step);
                }
            }
        }
        assert(settled(step, names, state.results));
        assert(can(i));
        lemma_filter_members(state.pending, can);
        assert(state.pending.filter(can).contains(state.pending[low]));
    }
}

/// The outcomes of steps, by name.
pub open spec fn named_results(ordered: Seq<(String, StepResult)>) -> Seq<(Seq<char>, StepResult)> {
    ordered.map_values(|entry: (String, StepResult)| (entry.0@, entry.1))
}

impl View for BuildsetRun {
    type V = RunState;

    closed spec fn view(&self) -> RunState {
        RunState {
            pending: self.pending@,
            running: self.running@,
            results: self.results@,
            ordered: named_results(self.ordered@),
            skipped: texts(self.skipped@),
        }
    }
}

fn step_settled(
    step: &EffectiveStep,
    names: &Vec<String>,
    results: &TextMap<StepResultClass>,
) -> (r: bool)
    ensures
        r == settled(*step, texts(names@), results@),
{
    let total: u128 = step.needs.len() as u128 + step.soft_needs.len() as u128;
    let mut d: u128 = 0;
    while d < total
        invariant
            d <= total == dependencies(*step).len(),
            forall|e: int|
                0 <= e < d ==> !texts(names@).contains(#[trigger] dependencies(*step)[e])
                    || results@.contains_key(dependencies(*step)[e]),
        decreases total - d,
    {
        let name = dependency_at(step, d);
        if contains_text(names, name.as_str()) && results.get(name.as_str()).is_none() {
            return false;
        }
        d += 1;
    }
    true
}

fn step_let_down(step: &EffectiveStep, results: &TextMap<StepResultClass>) -> (r: bool)
    ensures
        r == let_down(*step, results@),
{
    let total: u128 = step.needs.len() as u128 + step.soft_needs.len() as u128;
    let mut d: u128 = 0;
    while d < total
        invariant
            d <= total == dependencies(*step).len(),
            forall|e: int|
                0 <= e < d ==> !(results@.contains_key(#[trigger] dependencies(*step)[e])
                    && results@[dependencies(*step)[e]] != StepResultClass::Success),
        decreases total - d,
    {
        let name = dependency_at(step, d);
        if let Some(class) = results.get(name.as_str()) {
            if *class != StepResultClass::Success {
                return true;
            }
        }
        d += 1;
    }
    false
}

fn some_ordinary(steps: &Vec<EffectiveStep>, pending: &Vec<usize>) -> (r: bool)
    requires
        forall|k: int| 0 <= k < pending@.len() ==> (#[trigger] pending@[k]) < steps@.len(),
    ensures
        r == ordinary_waits(steps@, pending@),
{
    let mut k: usize = 0;
    while k < pending.len()
        invariant
            k <= pending@.len(),
            forall|j: int| 0 <= j < pending@.len() ==> (#[trigger] pending@[j]) < steps@.len(),
            forall|j: int| 0 <= j < k ==> steps@[#[trigger] pending@[j] as int].final_step,
        decreases pending@.len() - k,
    {
        if !steps[pending[k]].final_step {
            return true;
        }
        k += 1;
    }
    false
}

fn holds(list: &Vec<usize>, wanted: usize) -> (r: bool)
    ensures
        r == list@.contains(wanted),
{
    let mut k: usize = 0;
    while k < list.len()
        invariant
            k <= list@.len(),
            forall|j: int| 0 <= j < k ==> #[trigger] list@[j] != wanted,
        decreases list@.len() - k,
    {
        if list[k] == wanted {
            return true;
        }
        k += 1;
    }
    false
}

fn without(list: &Vec<usize>, taken: &Vec<usize>) -> (r: Vec<usize>)
    ensures
        r@ == left_waiting(list@, taken@),
{
    let ghost kept = |i: usize| !taken@.contains(i);
    let mut out: Vec<usize> = Vec::new();
    let mut k: usize = 0;
    proof {
        lemma_filter_ends(list@, kept);
    }
    while k < list.len()
        invariant
            k <= list@.len(),
            kept == (|i: usize| !taken@.contains(i)),
            out@ == list@.take(k as int).filter(kept),
        decreases list@.len() - k,
    {
        proof {
            lemma_filter_step(list@, kept, k as int);
        }
        if !holds(taken, list[k]) {
            out.push(list[k]);
        }
        k += 1;
    }
    proof {
        lemma_filter_ends(list@, kept);
    }
    out
}

/// The exit code or signal of a step as it stands in messages.
pub open spec fn option_text(value: Option<i32>) -> Seq<char> {
    match value {
        Some(number) => "Some("@ + signed_decimal(number as int) + ")"@,
        None => "None"@,
    }
}

fn option_string(value: Option<i32>) -> (r: String)
    ensures
        r@ == option_text(value),
{
    match value {
        Some(number) => concat3("Some(", signed_string(number).as_str(), ")"),
        None => "None".to_owned(),
    }
}

/// What is said of a step that was ended from outside.
pub open spec fn ended_text(name: Seq<char>, result: StepResult) -> Seq<char> {
    "step `"@ + name + "` was externally terminated (exit "@ + option_text(result.exit_code)
        + ", signal "@ + option_text(result.signal) + ")"@
}

/// The outcome brings the whole run down.
pub open spec fn breaks_off(outcome: Result<StepResult, RunnerError>) -> bool {
    match outcome {
        Ok(result) => result.class == StepResultClass::Interrupted,
        Err(_) => true,
    }
}

/// The first outcome that brings the run down stands at `k`.
pub open spec fn first_break(outcomes: Seq<Result<StepResult, RunnerError>>, k: int) -> bool {
    &&& 0 <= k < outcomes.len()
    &&& breaks_off(outcomes[k])
    &&& forall|j: int| 0 <= j < k ==> !breaks_off(#[trigger] outcomes[j])
}

pub open spec fn none_breaks(outcomes: Seq<Result<StepResult, RunnerError>>) -> bool {
    forall|j: int| 0 <= j < outcomes.len() ==> !breaks_off(#[trigger] outcomes[j])
}

/// The results with those of the first `n` steps of a batch added.
pub open spec fn with_outcomes(
    steps: Seq<EffectiveStep>,
    state: RunState,
    outcomes: Seq<Result<StepResult, RunnerError>>,
    n: nat,
) -> RunState
    decreases n,
{
    if n == 0 {
        state
    } else {
        let before = with_outcomes(steps, state, outcomes, (n - 1) as nat);
        let name = steps[state.running[n - 1] as int].name@;
        let result = outcomes[n - 1]->Ok_0;
        RunState {
            results: before.results.insert(name, result.class),
            ordered: before.ordered.push((name, result)),
            ..before
        }
    }
}

proof fn lemma_with_outcomes(
    steps: Seq<EffectiveStep>,
    state: RunState,
    outcomes: Seq<Result<StepResult, RunnerError>>,
    n: nat,
)
    requires
        n <= state.running.len(),
    ensures
        with_outcomes(steps, state, outcomes, n).pending == state.pending,
        with_outcomes(steps, state, outcomes, n).running == state.running,
        with_outcomes(steps, state, outcomes, n).skipped == state.skipped,
        forall|name: Seq<char>|
            state.results.contains_key(name) ==> #[trigger] with_outcomes(
                steps,
                state,
                outcomes,
                n,
            ).results.contains_key(name),
        forall|k: int|
            0 <= k < n ==> with_outcomes(steps, state, outcomes, n).results.contains_key(
                steps[#[trigger] state.running[k] as int].name@,
            ),
    decreases n,
{
    if n > 0 {
        lemma_with_outcomes(steps, state, outcomes, (n - 1) as nat);
    }
}

/// The results with a failure for each of the first `n` steps that takes part and
/// whose required artifacts are missing.
pub open spec fn with_missing(
    steps: Seq<EffectiveStep>,
    names: Seq<Seq<char>>,
    missing: Seq<bool>,
    state: RunState,
    n: nat,
) -> RunState
    decreases n,
{
    if n == 0 {
        state
    } else {
        let before = with_missing(steps, names, missing, state, (n - 1) as nat);
        let name = steps[n - 1].name@;
        if names.contains(name) && missing[n - 1] {
            RunState {
                results: before.results.insert(name, StepResultClass::ExitFailure),
                ordered: with_failure(before.ordered, name),
                ..before
            }
        } else {
            before
        }
    }
}

/// The outcomes with the first of that name turned into a failure.
pub open spec fn with_failure(
    ordered: Seq<(Seq<char>, StepResult)>,
    name: Seq<char>,
) -> Seq<(Seq<char>, StepResult)>
    decreases ordered.len(),
{
    if ordered.len() == 0 {
        ordered
    } else if ordered[0].0 == name {
        ordered.update(
            0,
            (name, StepResult { class: StepResultClass::ExitFailure, ..ordered[0].1 }),
        )
    } else {
        seq![ordered[0]] + with_failure(ordered.drop_first(), name)
    }
}

proof fn lemma_with_failure(ordered: Seq<(Seq<char>, StepResult)>, name: Seq<char>, k: int)
    requires
        0 <= k <= ordered.len(),
        forall|j: int| 0 <= j < k ==> (#[trigger] ordered[j]).0 != name,
    ensures
        k == ordered.len() ==> with_failure(ordered, name) == ordered,
        k < ordered.len() && ordered[k].0 == name ==> with_failure(ordered, name)
            == ordered.update(
            k,
            (name, StepResult { class: StepResultClass::ExitFailure, ..ordered[k].1 }),
        ),
    decreases ordered.len(),
{
    if ordered.len() > 0 && k > 0 {
        let rest = ordered.drop_first();
        assert(ordered[0].0 != name);
        assert forall|j: int| 0 <= j < k - 1 implies (#[trigger] rest[j]).0 != name by {
            assert(ordered[j + 1].0 != name);
        }
        lemma_with_failure(rest, name, k - 1);
        if k == ordered.len() {
            assert(seq![ordered[0]] + rest =~= ordered);
        } else if ordered[k].0 == name {
            let changed = (name, StepResult { class: StepResultClass::ExitFailure, ..ordered[k].1 });
            assert(seq![ordered[0]] + rest.update(k - 1, changed) =~= ordered.update(k, changed));
        }
    }
}

/// A step that votes takes part.
pub open spec fn someone_votes(steps: Seq<EffectiveStep>, names: Seq<Seq<char>>) -> bool {
    exists|i: int|
        0 <= i < steps.len() && (#[trigger] steps[i]).voting && names.contains(steps[i].name@)
}

/// A step that takes part and votes did not succeed.
pub open spec fn some_vote_fails(
    steps: Seq<EffectiveStep>,
    names: Seq<Seq<char>>,
    results: Results,
) -> bool {
    exists|i: int|
        0 <= i < steps.len() && (#[trigger] steps[i]).voting && names.contains(steps[i].name@) && !(
        results.contains_key(steps[i].name@) && results[steps[i].name@]
            == StepResultClass::Success)
}

/// A step that takes part and does not vote did not succeed.
pub open spec fn someone_warns(
    steps: Seq<EffectiveStep>,
    names: Seq<Seq<char>>,
    results: Results,
) -> bool {
    exists|i: int|
        0 <= i < steps.len() && !(#[trigger] steps[i]).voting && names.contains(steps[i].name@)
            && results.contains_key(steps[i].name@) && results[steps[i].name@]
            != StepResultClass::Success
}

/// The vote goes against the change: nobody votes where somebody has to, or a vote fails.
pub open spec fn vote_fails(
    config: EffectiveConfig,
    names: Seq<Seq<char>>,
    results: Results,
) -> bool {
    ||| !config.allow_no_job && !someone_votes(config.steps@, names)
    ||| some_vote_fails(config.steps@, names, results)
}

/// What the steps of a buildset amount to, before the workspace is looked at.
#[derive(Clone, Copy, Debug, PartialEq, Eq, Structural)]
pub struct Judgement {
    pub voting_failed: bool,
    pub warning: bool,
}

/// What a buildset run came to.
#[derive(Clone, Debug, PartialEq, Eq)]
pub struct BuildsetResult {
    pub passed: bool,
    pub passed_with_warnings: bool,
    pub steps: Vec<(String, StepResult)>,
    pub skipped: Vec<String>,
    pub workspace_verified: bool,
    pub workspace_verification_error: Option<String>,
}

impl Judgement {
    /// The buildset passes, with a workspace that is still what was tested or not.
    pub open spec fn passes(self, workspace_sound: bool) -> bool {
        !self.voting_failed && workspace_sound
    }

    /// The buildset passes, but not without a warning.
    pub open spec fn passes_with_warnings(self, workspace_sound: bool) -> bool {
        self.passes(workspace_sound) && self.warning
    }
}

impl BuildsetRun {
    /// The names of the steps that take part.
    pub closed spec fn names(self) -> Seq<Seq<char>> {
        texts(self.names@)
    }

    /// The run is one of these steps.
    pub open spec fn wf(self, steps: Seq<EffectiveStep>) -> bool {
        sound(steps, self.names(), self@)
    }

    /// Begins a run for a change of the given paths.
    pub fn start(config: &EffectiveConfig, changed_paths: &[String]) -> (r: Result<
        BuildsetRun,
        RunnerError,
    >)
        ensures
            r is Ok <==> selection_fault(config.steps@, 0) is None && first_orphan(
                config.steps@,
                names_taking_part(config.steps@, texts(changed_paths@)),
                begun(config.steps@, texts(changed_paths@)).pending,
            ) is None,
            r matches Ok(run) ==> {
                &&& run.wf(config.steps@)
                &&& run.names() == names_taking_part(config.steps@, texts(changed_paths@))
                &&& run@ == begun(config.steps@, texts(changed_paths@))
            },
            r matches Err(error) ==> (selection_fault(config.steps@, 0) matches Some(fault)
                ==> exists|cause: ConfigError|
                cause@ == fault && error.interrupted_by(#[trigger] cause.text())),
            r matches Err(error) ==> (selection_fault(config.steps@, 0) is None
                ==> error.interrupted_by(
                "applicable step `"@ + first_orphan(
                    config.steps@,
                    names_taking_part(config.steps@, texts(changed_paths@)),
                    begun(config.steps@, texts(changed_paths@)).pending,
                )->0 + "` has a skipped hard dependency"@,
            )),
    {
        let steps = &config.steps;
        let ghost paths = texts(changed_paths@);
        let ghost all = positions(steps@);
        let ghost pred = applies(steps@, paths);
        let mut pending: Vec<usize> = Vec::new();
        let mut names: Vec<String> = Vec::new();
        let mut i: usize = 0;
        proof {
            lemma_filter_ends(all, pred);
        }
        while i < steps.len()
            invariant
                i <= steps@.len(),
                steps@ == config.steps@,
                paths == texts(changed_paths@),
                all == positions(steps@),
                pred == applies(steps@, paths),
                selection_fault(steps@, i as int) == selection_fault(steps@, 0),
                pending@ == all.take(i as int).filter(pred),
                texts(names@) == names_at(steps@, pending@),
            decreases steps@.len() - i,
        {
            proof {
                lemma_filter_step(all, pred, i as int);
            }
            match steps[i].is_applicable(changed_paths) {
                Ok(selected) => {
                    assert(all[i as int] == i);
                    if selected {
                        let ghost before = (pending@, names@);
                        pending.push(i);
                        names.push(steps[i].name.as_str().to_owned());
                        proof {
                            let name = steps@[i as int].name@;
                            assert(texts(names@) =~= texts(before.1).push(name));
                            assert(names_at(steps@, pending@) =~= names_at(steps@, before.0).push(
                                name,
                            ));
                        }
                    }
                },
                Err(error) => {
                    return Err(RunnerError::Interrupted(error.message()));
                },
            }
            i += 1;
        }
        proof {
            lemma_filter_ends(all, pred);
            lemma_filter_members(all, pred);
            assert(selection_fault(steps@, 0) is None);
        }
        let ghost sought = texts(names@);
        let mut skipped: Vec<String> = Vec::new();
        let ghost left = unnamed(steps@, sought);
        let mut j: usize = 0;
        proof {
            lemma_filter_ends(all, left);
            assert(texts(skipped@) =~= names_at(steps@, all.take(0).filter(left)));
        }
        while j < steps.len()
            invariant
                j <= steps@.len(),
                all == positions(steps@),
                sought == texts(names@),
                left == unnamed(steps@, sought),
                texts(skipped@) == names_at(steps@, all.take(j as int).filter(left)),
            decreases steps@.len() - j,
        {
            proof {
                lemma_filter_step(all, left, j as int);
                assert(all[j as int] == j);
            }
            if !contains_text(&names, steps[j].name.as_str()) {
                let ghost before = skipped@;
                skipped.push(steps[j].name.as_str().to_owned());
                proof {
                    let name = steps@[j as int].name@;
                    assert(texts(skipped@) =~= texts(before).push(name));
                    assert(names_at(steps@, all.take(j + 1).filter(left)) =~= names_at(
                        steps@,
                        all.take(j as int).filter(left),
                    ).push(name));
                }
            }
            j += 1;
        }
        proof {
            lemma_filter_ends(all, left);
        }
        let mut k: usize = 0;
        assert(pending@.skip(0) =~= pending@);
        while k < pending.len()
            invariant
                k <= pending@.len(),
                steps@ == config.steps@,
                sought == texts(names@),
                selection_fault(config.steps@, 0) is None,
                paths == texts(changed_paths@),
                sought == names_taking_part(config.steps@, paths),
                pending@ == begun(config.steps@, paths).pending,
                forall|m: int| 0 <= m < pending@.len() ==> (#[trigger] pending@[m]) < steps@.len(),
                first_orphan(steps@, sought, pending@) == first_orphan(
                    steps@,
                    sought,
                    pending@.skip(k as int),
                ),
            decreases pending@.len() - k,
        {
            let step = &steps[pending[k]];
            let mut d: usize = 0;
            while d < step.needs.len()
                invariant
                    k < pending@.len(),
                    d <= step.needs@.len(),
                    steps@ == config.steps@,
                    *step == steps@[pending@[k as int] as int],
                    sought == texts(names@),
                    selection_fault(config.steps@, 0) is None,
                    paths == texts(changed_paths@),
                    sought == names_taking_part(config.steps@, paths),
                    pending@ == begun(config.steps@, paths).pending,
                    first_orphan(steps@, sought, pending@) == first_orphan(
                        steps@,
                        sought,
                        pending@.skip(k as int),
                    ),
                    forall|e: int| 0 <= e < d ==> sought.contains((#[trigger] step.needs@[e])@),
                decreases step.needs@.len() - d,
            {
                if !contains_text(&names, step.needs[d].as_str()) {
                    assert(orphaned(*step, sought));
                    assert(pending@.skip(k as int)[0] == pending@[k as int]);
                    return Err(
                        RunnerError::Interrupted(
                            concat3(
                                "applicable step `",
                                step.name.as_str(),
                                "` has a skipped hard dependency",
                            ),
                        ),
                    );
                }
                d += 1;
            }
            proof {
                assert(!orphaned(*step, sought));
                assert(pending@.skip(k as int)[0] == pending@[k as int]);
                assert(pending@.skip(k as int).drop_first() =~= pending@.skip(k + 1));
            }
            k += 1;
        }
        let run = BuildsetRun {
            names,
            pending,
            running: Vec::new(),
            results: TextMap::new(),
            ordered: Vec::new(),
            skipped,
        };
        proof {
            assert(run@.ordered =~= Seq::empty());
            assert(run@.running =~= Seq::empty());
            assert(taking_part(steps@, run.names(), run@.pending)) by {
                assert forall|m: int| 0 <= m < run@.pending.len() implies (
                #[trigger] run@.pending[m]) < steps@.len() && run.names().contains(
                    steps@[run@.pending[m] as int].name@,
                ) by {
                    assert(names_at(steps@, run@.pending)[m]
                        == steps@[run@.pending[m] as int].name@);
                }
            }
            assert forall|m: int|
                0 <= m < steps@.len() && run.names().contains(
                    (#[trigger] steps@[m]).name@,
                ) implies lists(steps@, run@.pending, steps@[m].name@) by {
                let q = choose|q: int|
                    0 <= q < run.names().len() && run.names()[q] == steps@[m].name@;
                assert(names_at(steps@, run@.pending)[q] == steps@[run@.pending[q] as int].name@);
            }
        }
        Ok(run)
    }

    /// The waiting steps for which the two tests come out as asked.
    fn select(&self, steps: &Vec<EffectiveStep>, ordinary: bool, dooms: bool) -> (r: Vec<usize>)
        requires
            self.wf(steps@),
        ensures
            !dooms ==> r@ == self@.pending.filter(
                ready(steps@, self.names(), ordinary, self@.results),
            ),
            dooms ==> r@ == self@.pending.filter(
                doomed(steps@, self.names(), ordinary, self@.results),
            ),
    {
        let ghost names = self.names();
        let ghost pred = if dooms {
            doomed(steps@, names, ordinary, self@.results)
        } else {
            ready(steps@, names, ordinary, self@.results)
        };
        let mut out: Vec<usize> = Vec::new();
        let mut k: usize = 0;
        proof {
            lemma_filter_ends(self@.pending, pred);
        }
        while k < self.pending.len()
            invariant
                k <= self.pending@.len(),
                self.wf(steps@),
                names == self.names(),
                pred == if dooms {
                    doomed(steps@, names, ordinary, self@.results)
                } else {
                    ready(steps@, names, ordinary, self@.results)
                },
                out@ == self@.pending.take(k as int).filter(pred),
            decreases self.pending@.len() - k,
        {
            proof {
                lemma_filter_step(self@.pending, pred, k as int);
            }
            let i: usize = self.pending[k];
            assert(i == self@.pending[k as int]);
            let step = &steps[i];
            if step.final_step != ordinary && step_settled(step, &self.names, &self.results) && (
            !dooms || (!step.final_step && step_let_down(step, &self.results))) {
                out.push(i);
            }
            k += 1;
        }
        proof {
            lemma_filter_ends(self@.pending, pred);
        }
        out
    }

    /// Passes over the listed steps, the last one first, and keeps the rest waiting.
    fn pass_over(&mut self, steps: &Vec<EffectiveStep>, failed: &Vec<usize>, rest: Vec<usize>)
        requires
            forall|k: int| 0 <= k < failed@.len() ==> (#[trigger] failed@[k]) < steps@.len(),
        ensures
            final(self).names() == old(self).names(),
            final(self)@ == (RunState {
                pending: rest@,
                results: with_skipped(steps@, old(self)@.results, failed@),
                skipped: old(self)@.skipped + names_backwards(steps@, failed@),
                ..old(self)@
            }),
    {
        let mut k: usize = failed.len();
        proof {
            assert(failed@.take(k as int) =~= failed@);
        }
        while k > 0
            invariant
                k <= failed@.len(),
                forall|j: int| 0 <= j < failed@.len() ==> (#[trigger] failed@[j]) < steps@.len(),
                self.names == old(self).names,
                self.pending == old(self).pending,
                self.running == old(self).running,
                self.ordered == old(self).ordered,
                with_skipped(steps@, self.results@, failed@.take(k as int)) == with_skipped(
                    steps@,
                    old(self).results@,
                    failed@,
                ),
                texts(self.skipped@) + names_backwards(steps@, failed@.take(k as int)) == texts(
                    old(self).skipped@,
                ) + names_backwards(steps@, failed@),
            decreases k,
        {
            let ghost part = failed@.take(k as int);
            let ghost before = self.skipped@;
            k -= 1;
            let name = &steps[failed[k]].name;
            self.skipped.push(name.as_str().to_owned());
            self.results.insert(name.as_str().to_owned(), StepResultClass::Interrupted);
            proof {
                assert(part.last() == failed@[k as int]);
                assert(part.drop_last() =~= failed@.take(k as int));
                assert(texts(self.skipped@) =~= texts(before).push(name@));
                assert(texts(self.skipped@) + names_backwards(steps@, failed@.take(k as int))
                    =~= texts(before) + names_backwards(steps@, part));
            }
        }
        self.pending = rest;
        proof {
            assert(texts(self.skipped@) + names_backwards(steps@, failed@.take(0))
                =~= texts(self.skipped@));
        }
    }

    /// What comes next, once the steps under way are through. A run of steps with a graph
    /// that a configuration may have never stalls.
    pub fn next(&mut self, config: &EffectiveConfig) -> (r: Result<BuildsetAction, RunnerError>)
        requires
            old(self).wf(config.steps@),
            old(self)@.running.len() == 0,
        ensures
            final(self).wf(config.steps@),
            final(self).names() == old(self).names(),
            r is Err <==> stalls(
                config.steps@,
                old(self).names(),
                without_doomed(config.steps@, old(self).names(), old(self)@),
            ),
            r matches Err(error) ==> error.interrupted_by("step DAG made no scheduling progress"@),
            r matches Ok(BuildsetAction::Conclude) ==> {
                &&& final(self)@ == without_doomed(config.steps@, old(self).names(), old(self)@)
                &&& final(self)@.pending.len() == 0
            },
            r matches Ok(BuildsetAction::Run { steps }) ==> {
                let after = without_doomed(config.steps@, old(self).names(), old(self)@);
                &&& steps@ == batch(
                    config.steps@,
                    old(self).names(),
                    config.allow_concurrent_roots,
                    after,
                )
                &&& steps@.len() > 0
                &&& final(self)@ == (RunState {
                    pending: left_waiting(after.pending, steps@),
                    running: steps@,
                    ..after
                })
            },
            graph_fault(config.steps@) is None ==> r is Ok,
    {
        let steps = &config.steps;
        let ghost names = self.names();
        let ghost end = without_doomed(steps@, names, old(self)@);
        proof {
            lemma_without_doomed(steps@, names, self@);
            if graph_fault(steps@) is None {
                law_accepted_graphs_never_stall(steps@, names, end);
            }
        }
        while self.pending.len() > 0
            invariant
                steps@ == config.steps@,
                self.wf(steps@),
                self.names() == names,
                names == old(self).names(),
                self@.running.len() == 0,
                self@.running == end.running,
                end == without_doomed(steps@, names, old(self)@),
                without_doomed(steps@, names, self@) == end,
                sound(steps@, names, end),
                graph_fault(steps@) is None ==> !stalls(steps@, names, end),
            decreases self.pending@.len(),
        {
            assert forall|k: int| 0 <= k < self.pending@.len() implies (
            #[trigger] self.pending@[k]) < steps@.len() by {
                assert(self@.pending[k] < steps@.len());
            }
            let ordinary = some_ordinary(steps, &self.pending);
            let ghost doom = doomed(steps@, names, ordinary, self@.results);
            let ghost can = ready(steps@, names, ordinary, self@.results);
            let runnable = self.select(steps, ordinary, false);
            if runnable.len() == 0 {
                proof {
                    lemma_filter_members(self@.pending, doom);
                    lemma_filter_members(self@.pending, can);
                    if self@.pending.filter(doom).len() > 0 {
                        let i = self@.pending.filter(doom)[0];
                        let j = choose|j: int|
                            0 <= j < self@.pending.len() && self@.pending[j] == i;
                        assert(can(self@.pending[j]));
                        assert(self@.pending.filter(can).contains(i));
                    }
                    assert(end == self@);
                }
                return Err(
                    RunnerError::Interrupted("step DAG made no scheduling progress".to_owned()),
                );
            }
            let failed = self.select(steps, ordinary, true);
            if failed.len() > 0 {
                let ghost before = self@;
                let rest = without(&self.pending, &failed);
                proof {
                    lemma_filter_members(before.pending, doom);
                    lemma_filter_split(before.pending, doom, negated(doom));
                    lemma_part_takes_part(steps@, names, before.pending, doom);
                    lemma_part_takes_part(steps@, names, before.pending, negated(doom));
                    lemma_with_skipped(steps@, before.results, failed@);
                    assert forall|k: int| 0 <= k < before.pending.len() implies (
                    !failed@.contains(#[trigger] before.pending[k])) == negated(doom)(
                        before.pending[k],
                    ) by {
                        let i = before.pending[k];
                        if doom(i) {
                            assert(failed@.contains(i));
                        } else if failed@.contains(i) {
                            let q = choose|q: int| 0 <= q < failed@.len() && failed@[q] == i;
                            assert(doom(failed@[q]));
                        }
                    }
                    crate::seqs::lemma_filter_agree(
                        before.pending,
                        |i: usize| !failed@.contains(i),
                        negated(doom),
                    );
                    assert(rest@ == before.pending.filter(negated(doom)));
                }
                self.pass_over(steps, &failed, rest);
                proof {
                    assert forall|i: int|
                        0 <= i < steps@.len() && names.contains((#[trigger] steps@[i]).name@) implies {
                        ||| self@.results.contains_key(steps@[i].name@)
                        ||| lists(steps@, self@.pending, steps@[i].name@)
                        ||| lists(steps@, self@.running, steps@[i].name@)
                    } by {
                        let name = steps@[i].name@;
                        if lists(steps@, before.pending, name) {
                            lemma_lists_split(steps@, before.pending, doom, negated(doom), name);
                        }
                    }
                }
                continue;
            }
            assert(end == self@);
            let mut runnable = runnable;
            if !config.allow_concurrent_roots {
                runnable.truncate(1);
                assert(runnable@ =~= seq![self@.pending.filter(can)[0]]);
            }
            let ghost before = self@;
            self.pending = without(&self.pending, &runnable);
            proof {
                let taken = runnable@;
                let kept = |i: usize| !taken.contains(i);
                let gone = |i: usize| taken.contains(i);
                lemma_filter_members(before.pending, can);
                lemma_part_takes_part(steps@, names, before.pending, can);
                lemma_part_takes_part(steps@, names, before.pending, kept);
                assert(taking_part(steps@, names, taken)) by {
                    assert forall|k: int| 0 <= k < taken.len() implies (#[trigger] taken[k])
                        < steps@.len() && names.contains(steps@[taken[k] as int].name@) by {
                        assert(taken[k] == before.pending.filter(can)[k]);
                    }
                }
                assert forall|i: int|
                    0 <= i < steps@.len() && names.contains((#[trigger] steps@[i]).name@) implies {
                    ||| before.results.contains_key(steps@[i].name@)
                    ||| lists(steps@, left_waiting(before.pending, taken), steps@[i].name@)
                    ||| lists(steps@, taken, steps@[i].name@)
                } by {
                    let name = steps@[i].name@;
                    if lists(steps@, before.pending, name) {
                        lemma_lists_split(steps@, before.pending, kept, gone, name);
                        if lists(steps@, before.pending.filter(gone), name) {
                            let part = before.pending.filter(gone);
                            lemma_filter_members(before.pending, gone);
                            let k = choose|k: int|
                                0 <= k < part.len() && steps@[#[trigger] part[k] as int].name@
                                    == name;
                            assert(gone(part[k]));
                            let q = choose|q: int| 0 <= q < taken.len() && taken[q] == part[k];
                            assert(steps@[taken[q] as int].name@ == name);
                        }
                    }
                }
            }
            self.running = copy_positions(&runnable);
            return Ok(BuildsetAction::Run { steps: runnable });
        }
        assert(end == self@);
        Ok(BuildsetAction::Conclude)
    }

    /// Takes in how the steps under way ended, in the order in which they were handed
    /// out. A step that was ended from outside, or could not be run, breaks the run off.
    pub fn finish(
        &mut self,
        config: &EffectiveConfig,
        outcomes: Vec<Result<StepResult, RunnerError>>,
    ) -> (r: Result<(), RunnerError>)
        requires
            old(self).wf(config.steps@),
            outcomes@.len() == old(self)@.running.len(),
        ensures
            final(self).names() == old(self).names(),
            r is Ok <==> none_breaks(outcomes@),
            r is Ok ==> {
                &&& final(self).wf(config.steps@)
                &&& final(self)@ == (RunState {
                    running: Seq::empty(),
                    ..with_outcomes(config.steps@, old(self)@, outcomes@, outcomes@.len())
                })
            },
            r matches Err(error) ==> exists|k: int| #[trigger]
                first_break(outcomes@, k) && match outcomes@[k] {
                    Err(cause) => error == cause,
                    Ok(result) => error.interrupted_by(
                        ended_text(
                            config.steps@[old(self)@.running[k] as int].name@,
                            result,
                        ),
                    ),
                },
    {
        let steps = &config.steps;
        let ghost all = outcomes@;
        let ghost start = self@;
        let mut waiting = outcomes;
        let total: usize = waiting.len();
        let mut k: usize = 0;
        while waiting.len() > 0
            invariant
                steps@ == config.steps@,
                all == outcomes@,
                total == all.len(),
                start == old(self)@,
                sound(steps@, old(self).names(), start),
                k + waiting@.len() == all.len() == start.running.len(),
                all.len() == self.running@.len(),
                waiting@ == all.skip(k as int),
                self.names == old(self).names,
                self@ == with_outcomes(steps@, start, all, k as nat),
                self@.running == start.running,
                forall|j: int| 0 <= j < k ==> !breaks_off(#[trigger] all[j]),
            decreases waiting@.len(),
        {
            let outcome = waiting.remove(0);
            assert(outcome == all[k as int]);
            assert(waiting@ =~= all.skip(k + 1));
            assert(start.running[k as int] < steps@.len());
            assert(self.running@[k as int] == start.running[k as int]);
            let name = &steps[self.running[k]].name;
            match outcome {
                Err(error) => {
                    assert(first_break(all, k as int));
                    return Err(error);
                },
                Ok(result) => {
                    if result.class == StepResultClass::Interrupted {
                        let mut text = concat3(
                            "step `",
                            name.as_str(),
                            "` was externally terminated (exit ",
                        );
                        text.append(option_string(result.exit_code).as_str());
                        text.append(", signal ");
                        text.append(option_string(result.signal).as_str());
                        text.append(")");
                        assert(first_break(all, k as int));
                        return Err(RunnerError::Interrupted(text));
                    }
                    let ghost before = self.ordered@;
                    self.results.insert(name.as_str().to_owned(), result.class);
                    self.ordered.push((name.as_str().to_owned(), result));
                    proof {
                        assert(named_results(self.ordered@) =~= named_results(before).push(
                            (name@, result),
                        ));
                    }
                },
            }
            k += 1;
        }
        proof {
            lemma_with_outcomes(steps@, start, all, all.len());
            let names = old(self).names();
            let after = self@;
            assert forall|i: int|
                0 <= i < steps@.len() && names.contains((#[trigger] steps@[i]).name@) implies {
                ||| after.results.contains_key(steps@[i].name@)
                ||| lists(steps@, after.pending, steps@[i].name@)
            } by {
                let name = steps@[i].name@;
                if start.results.contains_key(name) {
                    assert(with_outcomes(steps@, start, all, all.len()).results.contains_key(name));
                }
                if lists(steps@, start.running, name) {
                    let q = choose|q: int|
                        0 <= q < start.running.len()
                            && steps@[#[trigger] start.running[q] as int].name@ == name;
                    assert(after.results.contains_key(steps@[start.running[q] as int].name@));
                }
            }
        }
        self.running = Vec::new();
        assert(self@.running =~= Seq::empty());
        Ok(())
    }

    /// Turns the first outcome of that name into a failure.
    fn fail(&mut self, name: &str)
        ensures
            final(self).names == old(self).names,
            final(self).pending == old(self).pending,
            final(self).running == old(self).running,
            final(self).skipped == old(self).skipped,
            final(self).results@ == old(self).results@.insert(name@, StepResultClass::ExitFailure),
            named_results(final(self).ordered@) == with_failure(
                named_results(old(self).ordered@),
                name@,
            ),
    {
        let ghost all = named_results(self.ordered@);
        self.results.insert(name.to_owned(), StepResultClass::ExitFailure);
        let mut k: usize = 0;
        while k < self.ordered.len()
            invariant
                k <= self.ordered@.len(),
                self.names == old(self).names,
                self.pending == old(self).pending,
                self.running == old(self).running,
                self.skipped == old(self).skipped,
                self.ordered == old(self).ordered,
                self.results@ == old(self).results@.insert(name@, StepResultClass::ExitFailure),
                all == named_results(self.ordered@),
                forall|j: int| 0 <= j < k ==> (#[trigger] all[j]).0 != name@,
            decreases self.ordered@.len() - k,
        {
            assert(all[k as int].0 == self.ordered@[k as int].0@);
            if str_equal(self.ordered[k].0.as_str(), name) {
                let ghost before = self.ordered@;
                let mut entry = self.ordered.remove(k);
                entry.1.class = StepResultClass::ExitFailure;
                self.ordered.insert(k, entry);
                proof {
                    lemma_with_failure(all, name@, k as int);
                    assert(self.ordered@ =~= before.update(k as int, entry));
                    assert(named_results(self.ordered@) =~= all.update(
                        k as int,
                        (
                            name@,
                            StepResult {
                                class: StepResultClass::ExitFailure,
                                ..all[k as int].1
                            },
                        ),
                    ));
                }
                return ;
            }
            k += 1;
        }
        proof {
            lemma_with_failure(all, name@, all.len() as int);
        }
    }

    /// Judges the steps, once all are through. `missing` says, for each step of the
    /// configuration, whether artifacts that it has to leave behind are missing; a step
    /// that takes part fails for it.
    pub fn judge(&mut self, config: &EffectiveConfig, missing: &Vec<bool>) -> (r: Judgement)
        requires
            missing@.len() == config.steps@.len(),
        ensures
            final(self).names() == old(self).names(),
            final(self)@ == with_missing(
                config.steps@,
                old(self).names(),
                missing@,
                old(self)@,
                config.steps@.len(),
            ),
            r.voting_failed == vote_fails(*config, old(self).names(), final(self)@.results),
            r.warning == someone_warns(config.steps@, old(self).names(), final(self)@.results),
    {
        let steps = &config.steps;
        let ghost names = self.names();
        let mut i: usize = 0;
        while i < steps.len()
            invariant
                i <= steps@.len() == missing@.len(),
                steps@ == config.steps@,
                names == self.names(),
                self.names == old(self).names,
                self@ == with_missing(steps@, names, missing@, old(self)@, i as nat),
            decreases steps@.len() - i,
        {
            if missing[i] && contains_text(&self.names, steps[i].name.as_str()) {
                self.fail(steps[i].name.as_str());
            }
            i += 1;
        }
        let mut votes = false;
        let mut failed = false;
        let mut warning = false;
        let mut j: usize = 0;
        while j < steps.len()
            invariant
                j <= steps@.len(),
                names == self.names(),
                votes <==> exists|m: int|
                    0 <= m < j && (#[trigger] steps@[m]).voting && names.contains(steps@[m].name@),
                failed <==> exists|m: int|
                    0 <= m < j && (#[trigger] steps@[m]).voting && names.contains(steps@[m].name@)
                        && !(self@.results.contains_key(steps@[m].name@)
                        && self@.results[steps@[m].name@] == StepResultClass::Success),
                warning <==> exists|m: int|
                    0 <= m < j && !(#[trigger] steps@[m]).voting && names.contains(steps@[m].name@)
                        && self@.results.contains_key(steps@[m].name@)
                        && self@.results[steps@[m].name@] != StepResultClass::Success,
            decreases steps@.len() - j,
        {
            if contains_text(&self.names, steps[j].name.as_str()) {
                let class: Option<&StepResultClass> = self.results.get(steps[j].name.as_str());
                let (known, good) = match class {
                    Some(class) => (true, *class == StepResultClass::Success),
                    None => (false, false),
                };
                if steps[j].voting {
                    votes = true;
                    if !good {
                        failed = true;
                    }
                } else if known && !good {
                    warning = true;
                }
            }
            j += 1;
        }
        Judgement { voting_failed: (!config.allow_no_job && !votes) || failed, warning }
    }

    /// The result of the run. `workspace_error` says what is wrong with the workspace; it
    /// counts only where the vote did not fail.
    pub fn seal(self, judgement: Judgement, workspace_error: Option<String>) -> (r: BuildsetResult)
        ensures
            r.passed == (!judgement.voting_failed && workspace_error is None),
            r.passed == judgement.passes(workspace_error is None),
            r.passed_with_warnings == judgement.passes_with_warnings(workspace_error is None),
            r.passed_with_warnings == (r.passed && judgement.warning),
            r.workspace_verified == r.passed,
            judgement.voting_failed ==> r.workspace_verification_error is None,
            !judgement.voting_failed ==> r.workspace_verification_error == workspace_error,
            named_results(r.steps@) == self@.ordered,
            texts(r.skipped@) == self@.skipped,
    {
        let error: Option<String> = if judgement.voting_failed {
            None
        } else {
            workspace_error
        };
        let verified = !judgement.voting_failed && error.is_none();
        BuildsetResult {
            passed: verified,
            passed_with_warnings: verified && judgement.warning,
            steps: self.ordered,
            skipped: self.skipped,
            workspace_verified: verified,
            workspace_verification_error: error,
        }
    }
}

fn copy_positions(list: &Vec<usize>) -> (r: Vec<usize>)
    ensures
        r@ == list@,
{
    let mut out: Vec<usize> = Vec::new();
    let mut k: usize = 0;
    while k < list.len()
        invariant
            k <= list@.len(),
            out@ == list@.take(k as int),
        decreases list@.len() - k,
    {
        out.push(list[k]);
        k += 1;
        assert(list@.take(k as int) =~= list@.take(k - 1).push(list@[k - 1]));
    }
    assert(list@.take(k as int) =~= list@);
    out
}

/// When every step is through, each that takes part has a result.
pub proof fn law_every_step_gets_a_result(
    steps: Seq<EffectiveStep>,
    names: Seq<Seq<char>>,
    state: RunState,
    i: int,
)
    requires
        sound(steps, names, state),
        state.pending.len() == 0,
        state.running.len() == 0,
        0 <= i < steps.len(),
        names.contains(steps[i].name@),
    ensures
        state.results.contains_key(steps[i].name@),
{
}

/// A vote that does not fail is one in which every step that takes part and votes
/// succeeded, and some step votes unless the configuration does without.
pub proof fn law_a_pass_needs_every_vote(
    config: EffectiveConfig,
    names: Seq<Seq<char>>,
    results: Results,
    i: int,
)
    requires
        !vote_fails(config, names, results),
    ensures
        0 <= i < config.steps@.len() && config.steps@[i].voting && names.contains(
            config.steps@[i].name@,
        ) ==> results.contains_key(config.steps@[i].name@) && results[config.steps@[i].name@]
            == StepResultClass::Success,
        config.allow_no_job || someone_votes(config.steps@, names),
{
}

/// Whether or not a step succeeded, missing artifacts make it fail.
pub proof fn law_missing_artifacts_fail_a_step(
    steps: Seq<EffectiveStep>,
    names: Seq<Seq<char>>,
    missing: Seq<bool>,
    state: RunState,
    i: int,
    n: nat,
)
    requires
        0 <= i < n <= steps.len() == missing.len(),
        names.contains(steps[i].name@),
        missing[i],
    ensures
        with_missing(steps, names, missing, state, n).results.contains_key(steps[i].name@),
        with_missing(steps, names, missing, state, n).results[steps[i].name@]
            == StepResultClass::ExitFailure,
    decreases n,
{
    if i < n - 1 {
        law_missing_artifacts_fail_a_step(steps, names, missing, state, i, (n - 1) as nat);
    }
}

} // verus!
