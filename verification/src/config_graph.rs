//! The dependencies between the steps of a configuration.

use crate::config_model::{ConfigError, EffectiveStep};
#[allow(unused_imports)]
use crate::config_model::ConfigFault;
use crate::text::{concat3, str_equal};
#[allow(unused_imports)]
use crate::text::texts;
use vstd::prelude::*;

verus! {

/// All that a step waits for: what it needs, then what it needs softly.
pub open spec fn dependencies(step: EffectiveStep) -> Seq<Seq<char>> {
    texts(step.needs@) + texts(step.soft_needs@)
}

/// Position `i` is the last at which a step has the given name.
pub open spec fn last_named(steps: Seq<EffectiveStep>, name: Seq<char>, i: int) -> bool {
    &&& 0 <= i < steps.len()
    &&& steps[i].name@ == name
    &&& forall|j: int| i < j < steps.len() ==> (#[trigger] steps[j]).name@ != name
}

/// Some step has the given name.
pub open spec fn is_step(steps: Seq<EffectiveStep>, name: Seq<char>) -> bool {
    exists|i: int| 0 <= i < steps.len() && (#[trigger] steps[i]).name@ == name
}

/// The step of that name is a final one.
pub open spec fn is_final(steps: Seq<EffectiveStep>, name: Seq<char>) -> bool {
    exists|i: int| #[trigger] last_named(steps, name, i) && steps[i].final_step
}

/// Why dependency `d` of step `i` is refused.
pub open spec fn dependency_fault(steps: Seq<EffectiveStep>, i: int, d: int) -> Option<
    ConfigFault,
> {
    let step = steps[i];
    let name = dependencies(step)[d];
    if !is_step(steps, name) {
        Some(
            ConfigFault::InvalidStep {
                step: step.name@,
                message: "unknown dependency `"@ + name + "`"@,
            },
        )
    } else if name == step.name@ {
        Some(
            ConfigFault::InvalidStep {
                step: step.name@,
                message: "a step cannot depend on itself"@,
            },
        )
    } else if is_final(steps, name) && !step.final_step {
        Some(
            ConfigFault::InvalidStep {
                step: step.name@,
                message: "a non-final step cannot depend on a final step"@,
            },
        )
    } else {
        None
    }
}

/// Why the first dependency of step `i`, from position `d` on, that is refused is refused.
pub open spec fn step_dependencies_fault(steps: Seq<EffectiveStep>, i: int, d: int) -> Option<
    ConfigFault,
>
    decreases dependencies(steps[i]).len() - d,
{
    if d >= dependencies(steps[i]).len() {
        None
    } else {
        match dependency_fault(steps, i, d) {
            Some(fault) => Some(fault),
            None => step_dependencies_fault(steps, i, d + 1),
        }
    }
}

/// Why the first dependency of the steps from `i` on that is refused is refused.
pub open spec fn dependencies_fault(steps: Seq<EffectiveStep>, i: int) -> Option<ConfigFault>
    decreases steps.len() - i,
{
    if i >= steps.len() {
        None
    } else {
        match step_dependencies_fault(steps, i, 0) {
            Some(fault) => Some(fault),
            None => dependencies_fault(steps, i + 1),
        }
    }
}

/// No two steps have the same name.
pub open spec fn distinct_names(steps: Seq<EffectiveStep>) -> bool {
    forall|i: int, j: int|
        0 <= i < j < steps.len() ==> (#[trigger] steps[i]).name@ != (#[trigger] steps[j]).name@
}

/// Under the ranking every step comes after all that it waits for.
pub open spec fn ranks(steps: Seq<EffectiveStep>, rank: spec_fn(Seq<char>) -> nat) -> bool {
    forall|i: int, d: int|
        0 <= i < steps.len() && 0 <= d < dependencies(steps[i]).len() ==> rank(
            #[trigger] dependencies(steps[i])[d],
        ) < rank(steps[i].name@)
}

/// The steps can be put into an order in which each comes after all that it waits for.
pub open spec fn acyclic(steps: Seq<EffectiveStep>) -> bool {
    exists|rank: spec_fn(Seq<char>) -> nat| ranks(steps, rank)
}

/// Why a step graph is refused.
pub open spec fn graph_fault(steps: Seq<EffectiveStep>) -> Option<ConfigFault> {
    match dependencies_fault(steps, 0) {
        Some(fault) => Some(fault),
        None => if distinct_names(steps) && acyclic(steps) {
            None
        } else {
            Some(ConfigFault::Invalid("step dependency graph contains a cycle"@))
        },
    }
}

/// The last step with the given name.
fn find_step(steps: &Vec<EffectiveStep>, name: &str) -> (r: Option<usize>)
    ensures
        r is Some <==> is_step(steps@, name@),
        r matches Some(i) ==> last_named(steps@, name@, i as int),
{
    let mut i: usize = steps.len();
    while i > 0
        invariant
            i <= steps@.len(),
            forall|j: int| i <= j < steps@.len() ==> (#[trigger] steps@[j]).name@ != name@,
        decreases i,
    {
        i -= 1;
        if str_equal(steps[i].name.as_str(), name) {
            return Some(i);
        }
    }
    None
}

/// The `d`th dependency of a step.
pub(crate) fn dependency_at(step: &EffectiveStep, d: u128) -> (r: &String)
    requires
        d < dependencies(*step).len(),
    ensures
        r@ == dependencies(*step)[d as int],
{
    let first: u128 = step.needs.len() as u128;
    if d < first {
        &step.needs[d as usize]
    } else {
        let rest: u128 = d - first;
        assert(rest < step.soft_needs@.len());
        let total = step.soft_needs.len();
        assert(rest < total);
        &step.soft_needs[rest as usize]
    }
}

fn dependency_error(step: &EffectiveStep, message: String) -> (r: ConfigError)
    ensures
        r@ == (ConfigFault::InvalidStep { step: step.name@, message: message@ }),
{
    ConfigError::InvalidStep { step: step.name.clone(), message }
}

/// Checks each dependency by itself.
fn check_dependencies(steps: &Vec<EffectiveStep>) -> (r: Result<(), ConfigError>)
    ensures
        r is Ok <==> dependencies_fault(steps@, 0) is None,
        r matches Err(error) ==> Some(error@) == dependencies_fault(steps@, 0),
{
    let ghost all = steps@;
    let mut i: usize = 0;
    while i < steps.len()
        invariant
            i <= steps@.len(),
            all == steps@,
            dependencies_fault(all, i as int) == dependencies_fault(all, 0),
        decreases steps@.len() - i,
    {
        let step = &steps[i];
        assert(*step == all[i as int]);
        let count: u128 = step.needs.len() as u128 + step.soft_needs.len() as u128;
        let mut d: u128 = 0;
        while d < count
            invariant
                i < steps@.len(),
                all == steps@,
                *step == all[i as int],
                count == dependencies(*step).len(),
                d <= count,
                dependencies_fault(all, i as int) == dependencies_fault(all, 0),
                step_dependencies_fault(all, i as int, d as int) == step_dependencies_fault(
                    all,
                    i as int,
                    0,
                ),
            decreases count - d,
        {
            let name = dependency_at(step, d);
            match find_step(steps, name.as_str()) {
                None => {
                    return Err(
                        dependency_error(
                            step,
                            concat3("unknown dependency `", name.as_str(), "`"),
                        ),
                    );
                },
                Some(found) => {
                    if str_equal(name.as_str(), step.name.as_str()) {
                        return Err(
                            dependency_error(step, "a step cannot depend on itself".to_owned()),
                        );
                    }
                    proof {
                        lemma_last_named_unique(all, name@);
                        assert(is_final(all, name@) == all[found as int].final_step);
                    }
                    if steps[found].final_step && !step.final_step {
                        return Err(
                            dependency_error(
                                step,
                                "a non-final step cannot depend on a final step".to_owned(),
                            ),
                        );
                    }
                },
            }
            d += 1;
        }
        i += 1;
    }
    Ok(())
}

proof fn lemma_last_named_unique(steps: Seq<EffectiveStep>, name: Seq<char>)
    ensures
        forall|i: int, j: int|
            #[trigger] last_named(steps, name, i) && #[trigger] last_named(steps, name, j) ==> i
                == j,
{
}

/// Whether no two steps have the same name.
fn names_distinct(steps: &Vec<EffectiveStep>) -> (r: bool)
    ensures
        r == distinct_names(steps@),
{
    let mut i: usize = 0;
    while i < steps.len()
        invariant
            i <= steps@.len(),
            forall|a: int, b: int|
                0 <= a < b < steps@.len() && a < i ==> (#[trigger] steps@[a]).name@ != (
                #[trigger] steps@[b]).name@,
        decreases steps@.len() - i,
    {
        match find_step(steps, steps[i].name.as_str()) {
            Some(last) => {
                if last != i {
                    return false;
                }
            },
            None => {
                assert(steps@[i as int].name@ == steps@[i as int].name@);
                assert(false);
            },
        }
        i += 1;
    }
    true
}

/// Step `j` has the name and has been placed before place `at`.
spec fn provides(
    steps: Seq<EffectiveStep>,
    placed: Seq<Option<usize>>,
    name: Seq<char>,
    at: int,
    j: int,
) -> bool {
    &&& 0 <= j < steps.len()
    &&& steps[j].name@ == name
    &&& placed[j] matches Some(before) && before < at
}

/// Dependency `d` of step `i` has been placed before place `at`.
spec fn satisfied(
    steps: Seq<EffectiveStep>,
    placed: Seq<Option<usize>>,
    i: int,
    d: int,
    at: int,
) -> bool {
    exists|j: int| #[trigger] provides(steps, placed, dependencies(steps[i])[d], at, j)
}

/// All that step `i` waits for has been placed before place `at`.
spec fn unblocked(
    steps: Seq<EffectiveStep>,
    placed: Seq<Option<usize>>,
    i: int,
    at: int,
) -> bool {
    forall|d: int|
        0 <= d < dependencies(steps[i]).len() ==> #[trigger] satisfied(steps, placed, i, d, at)
}

/// If step `i` has been placed, then so has, before it, all that it waits for.
spec fn placed_in_order(
    steps: Seq<EffectiveStep>,
    placed: Seq<Option<usize>>,
    i: int,
) -> bool {
    placed[i] matches Some(at) ==> unblocked(steps, placed, i, at as int)
}

/// When every step that has not been placed waits for another such step, a ranking
/// would have to rank each of them above every number.
proof fn lemma_stuck_has_no_ranking(
    steps: Seq<EffectiveStep>,
    placed: Seq<Option<usize>>,
    at: int,
    rank: spec_fn(Seq<char>) -> nat,
    i: int,
    bound: nat,
)
    requires
        placed.len() == steps.len(),
        distinct_names(steps),
        dependencies_fault(steps, 0) is None,
        ranks(steps, rank),
        forall|k: int|
            0 <= k < steps.len() && #[trigger] placed[k] is None ==> !unblocked(
                steps,
                placed,
                k,
                at,
            ),
        forall|k: int|
            0 <= k < steps.len() ==> (#[trigger] placed[k] matches Some(place) ==> place < at),
        0 <= i < steps.len(),
        placed[i] is None,
    ensures
        rank(steps[i].name@) > bound,
    decreases bound,
{
    if rank(steps[i].name@) <= bound {
        assert(!unblocked(steps, placed, i, at));
        let d = choose|d: int|
            0 <= d < dependencies(steps[i]).len() && !#[trigger] satisfied(steps, placed, i, d, at);
        let name = dependencies(steps[i])[d];
        lemma_no_fault_at(steps, 0, i, d);
        assert(is_step(steps, name));
        let j = choose|j: int| 0 <= j < steps.len() && (#[trigger] steps[j]).name@ == name;
        assert(!provides(steps, placed, name, at, j));
        assert(placed[j] is None);
        assert(rank(name) < rank(steps[i].name@));
        if bound > 0 {
            lemma_stuck_has_no_ranking(steps, placed, at, rank, j, (bound - 1) as nat);
        }
    }
}

/// Where no dependency is refused, none is.
pub proof fn lemma_no_fault_at(steps: Seq<EffectiveStep>, from: int, i: int, d: int)
    requires
        0 <= from <= i < steps.len(),
        dependencies_fault(steps, from) is None,
        0 <= d < dependencies(steps[i]).len(),
    ensures
        dependency_fault(steps, i, d) is None,
    decreases i - from,
{
    if from < i {
        lemma_no_fault_at(steps, from + 1, i, d);
    } else {
        lemma_no_fault_in(steps, i, 0, d);
    }
}

proof fn lemma_no_fault_in(steps: Seq<EffectiveStep>, i: int, from: int, d: int)
    requires
        0 <= from <= d < dependencies(steps[i]).len(),
        step_dependencies_fault(steps, i, from) is None,
    ensures
        dependency_fault(steps, i, d) is None,
    decreases d - from,
{
    if from < d {
        lemma_no_fault_in(steps, i, from + 1, d);
    }
}

/// Whether all that a step waits for has been placed.
fn is_unblocked(
    steps: &Vec<EffectiveStep>,
    placed: &Vec<Option<usize>>,
    i: usize,
    at: usize,
) -> (r: bool)
    requires
        i < steps@.len(),
        placed@.len() == steps@.len(),
        distinct_names(steps@),
        forall|k: int|
            0 <= k < steps@.len() ==> (#[trigger] placed@[k] matches Some(place) ==> place < at),
    ensures
        r == unblocked(steps@, placed@, i as int, at as int),
{
    let step = &steps[i];
    let count: u128 = step.needs.len() as u128 + step.soft_needs.len() as u128;
    let mut d: u128 = 0;
    while d < count
        invariant
            i < steps@.len(),
            placed@.len() == steps@.len(),
            distinct_names(steps@),
            *step == steps@[i as int],
            count == dependencies(*step).len(),
            d <= count,
            forall|k: int|
                0 <= k < steps@.len() ==> (#[trigger] placed@[k] matches Some(place) ==> place < at),
            forall|e: int|
                0 <= e < d ==> #[trigger] satisfied(steps@, placed@, i as int, e, at as int),
        decreases count - d,
    {
        let name = dependency_at(step, d);
        let mut ready = false;
        match find_step(steps, name.as_str()) {
            Some(j) => {
                ready = placed[j].is_some();
                proof {
                    assert(placed@[j as int] is Some ==> provides(
                        steps@,
                        placed@,
                        name@,
                        at as int,
                        j as int,
                    ));
                }
            },
            None => {},
        }
        if !ready {
            assert(!satisfied(steps@, placed@, i as int, d as int, at as int));
            return false;
        }
        assert(satisfied(steps@, placed@, i as int, d as int, at as int));
        d += 1;
    }
    true
}

/// Whether the steps can be put into an order in which each comes after all that
/// it waits for: places, round by round, every step that nothing holds up.
fn can_be_ordered(steps: &Vec<EffectiveStep>) -> (r: bool)
    requires
        distinct_names(steps@),
        dependencies_fault(steps@, 0) is None,
    ensures
        r == acyclic(steps@),
{
    let ghost all = steps@;
    let mut placed: Vec<Option<usize>> = Vec::new();
    let mut i: usize = 0;
    while i < steps.len()
        invariant
            i <= steps@.len(),
            placed@.len() == i,
            placed_count(placed@) == 0,
            forall|k: int| 0 <= k < i ==> #[trigger] placed@[k] is None,
        decreases steps@.len() - i,
    {
        let ghost before = placed@;
        placed.push(None);
        assert(placed@.drop_last() =~= before);
        i += 1;
    }
    let mut count: usize = 0;
    let mut moving = true;
    while moving && count < steps.len()
        invariant
            all == steps@,
            placed@.len() == all.len(),
            distinct_names(all),
            dependencies_fault(all, 0) is None,
            count <= all.len(),
            count == placed_count(placed@),
            forall|k: int| 0 <= k < all.len() ==> placed_in_order(all, placed@, k),
            forall|k: int|
                0 <= k < all.len() ==> (#[trigger] placed@[k] matches Some(at) ==> at < count),
            !moving ==> forall|k: int|
                0 <= k < all.len() && #[trigger] placed@[k] is None ==> !unblocked(
                    all,
                    placed@,
                    k,
                    count as int,
                ),
        decreases all.len() - count, (if moving { 1int } else { 0int }),
    {
        let ghost start = placed@;
        moving = false;
        let mut k: usize = 0;
        while k < steps.len()
            invariant
                all == steps@,
                k <= all.len(),
                placed@.len() == all.len(),
                distinct_names(all),
                dependencies_fault(all, 0) is None,
                count == placed_count(placed@),
                placed_count(start) <= count,
                moving ==> placed_count(start) < count,
                !moving ==> placed@ == start,
                forall|m: int| 0 <= m < all.len() ==> placed_in_order(all, placed@, m),
                forall|m: int|
                    0 <= m < all.len() ==> (#[trigger] placed@[m] matches Some(at) ==> at < count),
                !moving ==> forall|m: int|
                    0 <= m < k && #[trigger] placed@[m] is None ==> !unblocked(
                        all,
                        placed@,
                        m,
                        count as int,
                    ),
            decreases all.len() - k,
        {
            if placed[k].is_none() && is_unblocked(steps, &placed, k, count) {
                let ghost before = placed@;
                proof {
                    lemma_placed_count_set(before, k as int, count);
                    lemma_placed_count_bound(before.update(k as int, Some(count)));
                }
                placed.set(k, Some(count));
                proof {
                    assert(placed@ =~= before.update(k as int, Some(count)));
                    assert forall|m: int| 0 <= m < all.len() implies placed_in_order(
                        all,
                        placed@,
                        m,
                    ) by {
                        lemma_place_keeps_order(all, before, k as int, count, m);
                    }
                }
                count += 1;
                moving = true;
            }
            k += 1;
        }
        proof {
            lemma_placed_count_bound(placed@);
        }
    }
    if count == steps.len() {
        proof {
            lemma_all_placed(placed@);
            let rank = |name: Seq<char>|
                {
                    let j = choose|j: int| 0 <= j < all.len() && (#[trigger] all[j]).name@ == name;
                    placed@[j]->0 as nat
                };
            assert forall|i: int, d: int|
                0 <= i < all.len() && 0 <= d < dependencies(all[i]).len() implies rank(
                #[trigger] dependencies(all[i])[d],
            ) < rank(all[i].name@) by {
                assert(placed_in_order(all, placed@, i));
                assert(placed@[i] is Some);
                let name = dependencies(all[i])[d];
                let at = placed@[i]->0 as int;
                assert(satisfied(all, placed@, i, d, at));
                let j = choose|j: int| #[trigger] provides(all, placed@, name, at, j);
                let rj = choose|rj: int| 0 <= rj < all.len() && (#[trigger] all[rj]).name@ == name;
                assert(all[j].name@ == name);
                assert(rj == j);
                let ri = choose|ri: int|
                    0 <= ri < all.len() && (#[trigger] all[ri]).name@ == all[i].name@;
                assert(ri == i);
            }
            assert(ranks(all, rank));
        }
        true
    } else {
        proof {
            if acyclic(all) {
                let rank = choose|rank: spec_fn(Seq<char>) -> nat| ranks(all, rank);
                lemma_some_unplaced(placed@);
                let i = choose|i: int| 0 <= i < placed@.len() && #[trigger] placed@[i] is None;
                lemma_stuck_has_no_ranking(
                    all,
                    placed@,
                    count as int,
                    rank,
                    i,
                    rank(all[i].name@),
                );
            }
        }
        false
    }
}

/// How many steps have been placed.
spec fn placed_count(placed: Seq<Option<usize>>) -> nat
    decreases placed.len(),
{
    if placed.len() == 0 {
        0
    } else {
        placed_count(placed.drop_last()) + if placed.last() is Some {
            1nat
        } else {
            0nat
        }
    }
}

proof fn lemma_placed_count_bound(placed: Seq<Option<usize>>)
    ensures
        placed_count(placed) <= placed.len(),
    decreases placed.len(),
{
    if placed.len() > 0 {
        lemma_placed_count_bound(placed.drop_last());
    }
}

proof fn lemma_placed_count_set(placed: Seq<Option<usize>>, k: int, at: usize)
    requires
        0 <= k < placed.len(),
        placed[k] is None,
    ensures
        placed_count(placed.update(k, Some(at))) == placed_count(placed) + 1,
    decreases placed.len(),
{
    let after = placed.update(k, Some(at));
    if k == placed.len() - 1 {
        assert(after.drop_last() =~= placed.drop_last());
    } else {
        assert(after.drop_last() =~= placed.drop_last().update(k, Some(at)));
        lemma_placed_count_set(placed.drop_last(), k, at);
    }
}

proof fn lemma_all_placed(placed: Seq<Option<usize>>)
    requires
        placed_count(placed) == placed.len(),
    ensures
        forall|k: int| 0 <= k < placed.len() ==> #[trigger] placed[k] is Some,
    decreases placed.len(),
{
    if placed.len() > 0 {
        let rest = placed.drop_last();
        lemma_placed_count_bound(rest);
        lemma_all_placed(rest);
        assert forall|k: int| 0 <= k < placed.len() implies #[trigger] placed[k] is Some by {
            if k < rest.len() {
                assert(rest[k] is Some);
            }
        }
    }
}

proof fn lemma_some_unplaced(placed: Seq<Option<usize>>)
    requires
        placed_count(placed) < placed.len(),
    ensures
        exists|k: int| 0 <= k < placed.len() && #[trigger] placed[k] is None,
    decreases placed.len(),
{
    if placed.last() is None {
        assert(placed[placed.len() - 1] is None);
    } else {
        let rest = placed.drop_last();
        lemma_some_unplaced(rest);
        let k = choose|k: int| 0 <= k < rest.len() && #[trigger] rest[k] is None;
        assert(placed[k] is None);
    }
}

/// Placing a step that nothing holds up keeps every placed step behind what it waits for.
proof fn lemma_place_keeps_order(
    steps: Seq<EffectiveStep>,
    placed: Seq<Option<usize>>,
    k: int,
    at: usize,
    m: int,
)
    requires
        placed.len() == steps.len(),
        0 <= k < steps.len(),
        0 <= m < steps.len(),
        placed[k] is None,
        unblocked(steps, placed, k, at as int),
        placed_in_order(steps, placed, m),
    ensures
        placed_in_order(steps, placed.update(k, Some(at)), m),
{
    let after = placed.update(k, Some(at));
    if after[m] is Some {
        let place = after[m]->0 as int;
        assert forall|d: int| 0 <= d < dependencies(steps[m]).len() implies #[trigger] satisfied(
            steps,
            after,
            m,
            d,
            place,
        ) by {
            assert(satisfied(steps, placed, m, d, place));
            let name = dependencies(steps[m])[d];
            let j = choose|j: int| #[trigger] provides(steps, placed, name, place, j);
            assert(provides(steps, after, name, place, j));
        }
    }
}

/// Checks the dependencies between steps: each must name another step, no step that
/// is not final may wait for one that is, and there must be no cycle.
pub fn validate_graph(steps: &Vec<EffectiveStep>) -> (r: Result<(), ConfigError>)
    ensures
        r is Ok <==> graph_fault(steps@) is None,
        r matches Err(error) ==> Some(error@) == graph_fault(steps@),
{
    match check_dependencies(steps) {
        Ok(()) => {},
        Err(error) => {
            return Err(error);
        },
    }
    if names_distinct(steps) && can_be_ordered(steps) {
        Ok(())
    } else {
        Err(ConfigError::Invalid("step dependency graph contains a cycle".to_owned()))
    }
}

} // verus!
