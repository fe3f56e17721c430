//! What a configuration file says is what takes effect.

#[allow(unused_imports)]
use crate::config::{
    artifact_names, artifacts_fault, config_takes_effect, effective_needs, effective_resources, effective_runner,
    file_fault, first_overlap, first_repeated, selected, step_fault, step_takes_effect,
    steps_fault, whole_fault,
};
#[allow(unused_imports)]
use crate::config_graph::{
    acyclic, dependencies, dependencies_fault, distinct_names, graph_fault, is_final, is_step,
    lemma_no_fault_at, ranks, step_dependencies_fault,
};
#[allow(unused_imports)]
use crate::config_model::{
    ArtifactFile, ConfigFile, EffectiveCommand, EffectiveConfig, EffectiveResources, EffectiveStep, ResourceFile,
    StepFile,
};
#[allow(unused_imports)]
use crate::config_rules::{
    any_path_matches, digits_value, duration_nanos, environment_fault, filters_select, is_digit,
    is_environment_name, is_letter, is_name, is_name_char, leading_digits, path_fault,
    patterns_fault, reservations_fault, resources_fault,
};
#[allow(unused_imports)]
use crate::seqs::lemma_filter_members;
#[allow(unused_imports)]
use crate::text::{is_sorted_set, texts};
use vstd::prelude::*;

verus! {

/// Every resource that the file gives as a number other than zero is in effect as it was
/// written. Zero gives way to the default, except for the pools of tokens and memory, where
/// it stands.
pub proof fn law_resources_are_as_written(file: ConfigFile, config: EffectiveConfig)
    requires
        config_takes_effect(file, config),
    ensures
        ({
            let given = file.resources;
            let used = config.resources;
            &&& given.max_buildsets != 0 ==> used.max_buildsets == given.max_buildsets
            &&& given.repository_concurrency != 0 ==> used.repository_concurrency
                == given.repository_concurrency
            &&& given.scheduler_weight != 0 ==> used.scheduler_weight == given.scheduler_weight
            &&& given.volume_warning_bytes != 0 ==> used.volume_warning_bytes
                == given.volume_warning_bytes
            &&& given.volume_critical_bytes != 0 ==> used.volume_critical_bytes
                == given.volume_critical_bytes
            &&& given.volume_emergency_bytes != 0 ==> used.volume_emergency_bytes
                == given.volume_emergency_bytes
            &&& used.cpu_tokens == given.cpu_tokens
            &&& used.memory_bytes == given.memory_bytes
            &&& given.max_buildsets == 0 ==> used.max_buildsets == 4
            &&& given.repository_concurrency == 0 ==> used.repository_concurrency == 2
            &&& given.scheduler_weight == 0 ==> used.scheduler_weight == 1
            &&& given.volume_warning_bytes == 0 ==> used.volume_warning_bytes == 15 * 0x4000_0000
            &&& given.volume_critical_bytes == 0 ==> used.volume_critical_bytes == 10 * 0x4000_0000
            &&& given.volume_emergency_bytes == 0 ==> used.volume_emergency_bytes == 0x2000_0000
        }),
{
}

/// One setting of the resources never changes another.
pub proof fn law_resources_are_set_one_by_one(a: ResourceFile, b: ResourceFile)
    ensures
        ({
            let x = effective_resources(a);
            let y = effective_resources(b);
            &&& a.max_buildsets == b.max_buildsets ==> x.max_buildsets == y.max_buildsets
            &&& a.cpu_tokens == b.cpu_tokens <==> x.cpu_tokens == y.cpu_tokens
            &&& a.memory_bytes == b.memory_bytes <==> x.memory_bytes == y.memory_bytes
            &&& a.repository_concurrency == b.repository_concurrency ==> x.repository_concurrency
                == y.repository_concurrency
            &&& a.scheduler_weight == b.scheduler_weight ==> x.scheduler_weight
                == y.scheduler_weight
            &&& a.volume_warning_bytes == b.volume_warning_bytes ==> x.volume_warning_bytes
                == y.volume_warning_bytes
            &&& a.volume_critical_bytes == b.volume_critical_bytes ==> x.volume_critical_bytes
                == y.volume_critical_bytes
            &&& a.volume_emergency_bytes == b.volume_emergency_bytes ==> x.volume_emergency_bytes
                == y.volume_emergency_bytes
        }),
{
}

/// What the file says of itself, of its remote and of its cache is in effect as it was
/// written, and a runner that is given is the one that is used.
pub proof fn law_sections_are_as_written(file: ConfigFile, config: EffectiveConfig)
    requires
        config_takes_effect(file, config),
    ensures
        config.version == 1,
        config.allow_no_job == file.allow_no_job,
        config.allow_concurrent_roots == file.allow_concurrent_roots,
        config.sync_user_master == file.sync_user_master,
        config.remote.enabled == file.remote.enabled,
        config.remote.name@ == file.remote.name@,
        config.remote.branch@ == file.remote.branch@,
        config.cache.epoch == file.cache.epoch,
        config.cache.paths@.len() == file.cache.paths@.len(),
        forall|i: int|
            0 <= i < config.cache.paths@.len() ==> (#[trigger] config.cache.paths@[i]).policy
                == file.cache.paths@[i].policy,
        file.runner matches Some(runner) ==> texts(config.runner@) == texts(runner@),
        file.runner is None ==> texts(config.runner@) == seq!["/bin/sh"@, "-c"@],
        config.steps@.len() == file.step@.len(),
{
}

/// Each step stands where the file has it, and all that the file says of it is in effect as
/// it was written: whether it votes, whether it is final, what it runs, what it reserves,
/// where it applies, what it keeps.
pub proof fn law_steps_are_as_written(file: ConfigFile, config: EffectiveConfig, i: int)
    requires
        config_takes_effect(file, config),
        0 <= i < file.step@.len(),
    ensures
        ({
            let given = file.step@[i];
            let used = config.steps@[i];
            &&& used.name@ == given.name@
            &&& used.voting == given.voting
            &&& used.final_step == given.final_step
            &&& used.cpu_tokens == given.cpu_tokens
            &&& used.memory_bytes == given.memory_bytes
            &&& used.rss_limit_bytes == given.rss_limit_bytes
            &&& texts(used.includes@) == texts(given.includes@)
            &&& texts(used.excludes@) == texts(given.excludes@)
            &&& used.environment@ == given.environment@
            &&& duration_nanos(given.timeout@) == Ok::<nat, Seq<char>>(used.timeout_ns as nat)
            &&& given.run matches Some(run) ==> (used.command matches EffectiveCommand::Shell {
                script,
            } && script@ == run@)
            &&& given.run is None ==> (used.command matches EffectiveCommand::Argv { argv }
                && given.argv is Some && texts(argv@) == texts(given.argv->0@))
            &&& used.artifacts@.len() == given.artifact@.len()
            &&& forall|k: int|
                0 <= k < used.artifacts@.len() ==> {
                    &&& (#[trigger] used.artifacts@[k]).name@ == given.artifact@[k].name@
                    &&& texts(used.artifacts@[k].patterns@) == texts(given.artifact@[k].patterns@)
                    &&& used.artifacts@[k].required == given.artifact@[k].required
                    &&& used.artifacts@[k].retention_days == given.artifact@[k].retention_days
                }
        }),
{
    assert(step_takes_effect(
        file.step@[i],
        effective_needs(file.step@, i),
        config.steps@[i],
    ));
}

/// Lists that stand for sets keep their members: what a step needs softly, the semaphores
/// that it takes, and the variables that it removes.
pub proof fn law_sets_keep_their_members(
    file: ConfigFile,
    config: EffectiveConfig,
    i: int,
    name: Seq<char>,
)
    requires
        config_takes_effect(file, config),
        0 <= i < file.step@.len(),
    ensures
        texts(config.steps@[i].soft_needs@).contains(name) <==> texts(
            file.step@[i].soft_needs@,
        ).contains(name),
        texts(config.steps@[i].semaphores@).contains(name) <==> texts(
            file.step@[i].semaphores@,
        ).contains(name),
        texts(config.steps@[i].remove_environment@).contains(name) <==> texts(
            file.step@[i].remove_environment@,
        ).contains(name),
{
    let given = file.step@[i];
    let used = config.steps@[i];
    assert(step_takes_effect(given, effective_needs(file.step@, i), used));
    assert(texts(used.soft_needs@).to_set().contains(name) <==> texts(
        given.soft_needs@,
    ).to_set().contains(name));
    assert(texts(used.semaphores@).to_set().contains(name) <==> texts(
        given.semaphores@,
    ).to_set().contains(name));
    assert(texts(used.remove_environment@).to_set().contains(name) <==> texts(
        given.remove_environment@,
    ).to_set().contains(name));
}

/// Where no step says what it waits for, the steps run one after another: each needs the one
/// before it, and the first needs none. Where one does, each needs what it says.
pub proof fn law_steps_run_in_sequence_by_default(
    file: ConfigFile,
    config: EffectiveConfig,
    i: int,
)
    requires
        config_takes_effect(file, config),
        0 <= i < file.step@.len(),
    ensures
        (forall|k: int|
            0 <= k < file.step@.len() ==> (#[trigger] file.step@[k]).needs@.len() == 0
                && file.step@[k].soft_needs@.len() == 0) ==> texts(config.steps@[i].needs@)
            == if i == 0 {
            Seq::<Seq<char>>::empty()
        } else {
            seq![file.step@[i - 1].name@]
        },
        (exists|k: int|
            0 <= k < file.step@.len() && ((#[trigger] file.step@[k]).needs@.len() > 0
                || file.step@[k].soft_needs@.len() > 0)) ==> texts(config.steps@[i].needs@)
            == texts(file.step@[i].needs@),
{
    assert(step_takes_effect(
        file.step@[i],
        effective_needs(file.step@, i),
        config.steps@[i],
    ));
    if forall|k: int|
        0 <= k < file.step@.len() ==> (#[trigger] file.step@[k]).needs@.len() == 0
            && file.step@[k].soft_needs@.len() == 0 {
        assert(file.step@[i].needs@.len() == 0);
        assert(texts(file.step@[i].needs@) =~= Seq::<Seq<char>>::empty());
    }
}

proof fn lemma_no_step_fault(steps: Seq<StepFile>, from: int, i: int)
    requires
        0 <= from <= i < steps.len(),
        steps_fault(steps, from) is None,
    ensures
        step_fault(steps[i], effective_needs(steps, i)) is None,
    decreases i - from,
{
    if from < i {
        lemma_no_step_fault(steps, from + 1, i);
    }
}

/// Every step of a configuration that is accepted has a proper name, one command, and a
/// timeout between one second and seven days; what it needs, it does not need softly too.
pub proof fn law_accepted_steps_can_run(file: ConfigFile, config: EffectiveConfig, i: int)
    requires
        file_fault(file) is None,
        config_takes_effect(file, config),
        0 <= i < file.step@.len(),
    ensures
        is_name(file.step@[i].name@),
        1_000_000_000 <= config.steps@[i].timeout_ns <= 7 * 24 * 3600 * 1_000_000_000,
        file.step@[i].run is Some <==> file.step@[i].argv is None,
        file.step@[i].run matches Some(run) ==> run@.len() > 0 && !run@.contains('\0'),
        file.step@[i].argv matches Some(argv) ==> argv@.len() > 0 && argv@[0]@.len() > 0,
        texts(file.step@[i].semaphores@).no_duplicates(),
        texts(file.step@[i].soft_needs@).no_duplicates(),
        texts(file.step@[i].remove_environment@).no_duplicates(),
{
    lemma_no_step_fault(file.step@, 0, i);
    let given = file.step@[i];
    assert(step_takes_effect(given, effective_needs(file.step@, i), config.steps@[i]));
    if given.argv is Some {
        assert(texts(given.argv->0@)[0] == given.argv->0@[0]@);
    }
}

/// A configuration that is accepted can be carried out: it has version one, a runner, and a
/// step that votes unless it may have none; steps have different names and wait only for
/// others that exist, in no circle; and no step that is not final waits for one that is.
pub proof fn law_accepted_files_are_sound(file: ConfigFile, config: EffectiveConfig)
    requires
        file_fault(file) is None,
        config_takes_effect(file, config),
        whole_fault(file, config.steps@) is None,
    ensures
        file.version == 1,
        config.runner@.len() > 0,
        !file.allow_no_job ==> exists|i: int|
            0 <= i < config.steps@.len() && (#[trigger] config.steps@[i]).voting,
        distinct_names(config.steps@),
        acyclic(config.steps@),
        forall|i: int, d: int|
            0 <= i < config.steps@.len() && 0 <= d < dependencies(config.steps@[i]).len() ==> {
                let name = #[trigger] dependencies(config.steps@[i])[d];
                &&& is_step(config.steps@, name)
                &&& name != config.steps@[i].name@
                &&& is_final(config.steps@, name) ==> config.steps@[i].final_step
            },
{
    assert(texts(config.runner@).len() == config.runner@.len());
    assert forall|i: int, d: int|
        0 <= i < config.steps@.len() && 0 <= d < dependencies(config.steps@[i]).len() implies {
        let name = #[trigger] dependencies(config.steps@[i])[d];
        &&& is_step(config.steps@, name)
        &&& name != config.steps@[i].name@
        &&& is_final(config.steps@, name) ==> config.steps@[i].final_step
    } by {
        lemma_no_fault_at(config.steps@, 0, i, d);
    }
}

proof fn lemma_reservation(
    steps: Seq<EffectiveStep>,
    resources: EffectiveResources,
    from: int,
    i: int,
)
    requires
        0 <= from <= i < steps.len(),
        reservations_fault(steps, resources, from) is None,
    ensures
        steps[i].cpu_tokens <= resources.cpu_tokens,
        steps[i].memory_bytes <= resources.memory_bytes,
        steps[i].rss_limit_bytes matches Some(limit) ==> limit >= 1024 * 1024,
    decreases i - from,
{
    if from < i {
        lemma_reservation(steps, resources, from + 1, i);
    }
}

/// The resources of a configuration that is accepted are within their bounds, no step
/// reserves more than a pool has, and no limit of memory is below a mebibyte.
pub proof fn law_accepted_resources_are_in_bounds(
    file: ConfigFile,
    config: EffectiveConfig,
    i: int,
)
    requires
        config_takes_effect(file, config),
        whole_fault(file, config.steps@) is None,
    ensures
        1 <= config.resources.max_buildsets <= 64,
        1 <= config.resources.repository_concurrency <= config.resources.max_buildsets,
        1 <= config.resources.scheduler_weight <= 100,
        config.resources.volume_warning_bytes > config.resources.volume_critical_bytes,
        config.resources.volume_critical_bytes >= 1024 * 1024 * 1024,
        0 < config.resources.volume_emergency_bytes <= config.resources.volume_critical_bytes,
        0 <= i < config.steps@.len() ==> config.steps@[i].cpu_tokens
            <= config.resources.cpu_tokens,
        0 <= i < config.steps@.len() ==> config.steps@[i].memory_bytes
            <= config.resources.memory_bytes,
        0 <= i < config.steps@.len() ==> (config.steps@[i].rss_limit_bytes matches Some(limit)
            ==> limit >= 1024 * 1024),
{
    if 0 <= i < config.steps@.len() {
        lemma_reservation(config.steps@, config.resources, 0, i);
    }
}

proof fn lemma_reservations_fit(
    steps: Seq<EffectiveStep>,
    resources: EffectiveResources,
    from: int,
)
    requires
        0 <= from,
        forall|i: int|
            0 <= i < steps.len() ==> (#[trigger] steps[i]).cpu_tokens <= resources.cpu_tokens
                && steps[i].memory_bytes <= resources.memory_bytes && (
            steps[i].rss_limit_bytes matches Some(limit) ==> limit >= 1024 * 1024),
    ensures
        reservations_fault(steps, resources, from) is None,
    decreases steps.len() - from,
{
    if from < steps.len() {
        assert(steps[from].cpu_tokens <= resources.cpu_tokens);
        lemma_reservations_fit(steps, resources, from + 1);
    }
}

/// Resources within their bounds are never refused, if the reservations of all steps fit.
pub proof fn law_resources_in_bounds_are_accepted(
    steps: Seq<EffectiveStep>,
    resources: EffectiveResources,
)
    requires
        1 <= resources.max_buildsets <= 64,
        1 <= resources.repository_concurrency <= resources.max_buildsets,
        1 <= resources.scheduler_weight <= 100,
        resources.volume_warning_bytes > resources.volume_critical_bytes,
        resources.volume_critical_bytes >= 1024 * 1024 * 1024,
        0 < resources.volume_emergency_bytes <= resources.volume_critical_bytes,
        forall|i: int|
            0 <= i < steps.len() ==> (#[trigger] steps[i]).cpu_tokens <= resources.cpu_tokens
                && steps[i].memory_bytes <= resources.memory_bytes && (
            steps[i].rss_limit_bytes matches Some(limit) ==> limit >= 1024 * 1024),
    ensures
        resources_fault(steps, resources) is None,
{
    lemma_reservations_fit(steps, resources, 0);
}

proof fn lemma_dependencies_accepted(steps: Seq<EffectiveStep>, i: int, d: int)
    requires
        0 <= i < steps.len(),
        0 <= d,
        forall|k: int|
            0 <= k < dependencies(steps[i]).len() ==> {
                let name = #[trigger] dependencies(steps[i])[k];
                &&& is_step(steps, name)
                &&& name != steps[i].name@
                &&& is_final(steps, name) ==> steps[i].final_step
            },
    ensures
        step_dependencies_fault(steps, i, d) is None,
    decreases dependencies(steps[i]).len() - d,
{
    if d < dependencies(steps[i]).len() {
        let name = dependencies(steps[i])[d];
        assert(is_step(steps, name));
        lemma_dependencies_accepted(steps, i, d + 1);
    }
}

proof fn lemma_all_dependencies_accepted(steps: Seq<EffectiveStep>, from: int)
    requires
        0 <= from,
        forall|i: int, d: int|
            0 <= i < steps.len() && 0 <= d < dependencies(steps[i]).len() ==> {
                let name = #[trigger] dependencies(steps[i])[d];
                &&& is_step(steps, name)
                &&& name != steps[i].name@
                &&& is_final(steps, name) ==> steps[i].final_step
            },
    ensures
        dependencies_fault(steps, from) is None,
    decreases steps.len() - from,
{
    if from < steps.len() {
        lemma_dependencies_accepted(steps, from, 0);
        lemma_all_dependencies_accepted(steps, from + 1);
    }
}

/// Steps with different names that wait only for others that exist, in no circle, and not
/// for final ones unless they are final themselves, are never refused for what they wait
/// for.
pub proof fn law_sound_graphs_are_accepted(steps: Seq<EffectiveStep>)
    requires
        distinct_names(steps),
        acyclic(steps),
        forall|i: int, d: int|
            0 <= i < steps.len() && 0 <= d < dependencies(steps[i]).len() ==> {
                let name = #[trigger] dependencies(steps[i])[d];
                &&& is_step(steps, name)
                &&& name != steps[i].name@
                &&& is_final(steps, name) ==> steps[i].final_step
            },
    ensures
        graph_fault(steps) is None,
{
    lemma_all_dependencies_accepted(steps, 0);
}

/// A circle of two steps that wait for each other, softly or not, is always refused; so is a
/// step that waits for itself.
pub proof fn law_circles_are_refused(steps: Seq<EffectiveStep>, i: int, j: int, d: int, e: int)
    requires
        0 <= i < steps.len(),
        0 <= j < steps.len(),
        0 <= d < dependencies(steps[i]).len(),
        0 <= e < dependencies(steps[j]).len(),
        dependencies(steps[i])[d] == steps[j].name@,
        dependencies(steps[j])[e] == steps[i].name@,
    ensures
        graph_fault(steps) is Some,
{
    if graph_fault(steps) is None {
        let rank = choose|rank: spec_fn(Seq<char>) -> nat| ranks(steps, rank);
        assert(rank(dependencies(steps[i])[d]) < rank(steps[i].name@));
        assert(rank(dependencies(steps[j])[e]) < rank(steps[j].name@));
    }
}

/// What a step waits for is what it needs and what it needs softly, and nothing else.
pub proof fn law_soft_needs_are_waited_for(step: EffectiveStep, name: Seq<char>)
    ensures
        dependencies(step).contains(name) <==> texts(step.needs@).contains(name) || texts(
            step.soft_needs@,
        ).contains(name),
{
    let needs = texts(step.needs@);
    let soft = texts(step.soft_needs@);
    let all = dependencies(step);
    if needs.contains(name) {
        let i = choose|i: int| 0 <= i < needs.len() && needs[i] == name;
        assert(all[i] == name);
    }
    if soft.contains(name) {
        let i = choose|i: int| 0 <= i < soft.len() && soft[i] == name;
        assert(all[needs.len() + i] == name);
    }
    if all.contains(name) {
        let i = choose|i: int| 0 <= i < all.len() && all[i] == name;
        if i < needs.len() {
            assert(needs[i] == name);
        } else {
            assert(soft[i - needs.len()] == name);
        }
    }
}

/// A step with a proper name, one command, a timeout within its bounds, no contradictions,
/// and proper patterns, artifacts and paths is never refused.
pub proof fn law_proper_steps_are_accepted(step: StepFile, needs: Seq<Seq<char>>)
    requires
        is_name(step.name@),
        (step.run is Some && step.argv is None && step.run->0@.len() > 0
            && !step.run->0@.contains('\0')) || (step.run is None && step.argv is Some
            && step.argv->0@.len() > 0 && step.argv->0@[0]@.len() > 0 && forall|i: int|
            0 <= i < step.argv->0@.len() ==> !(#[trigger] step.argv->0@[i])@.contains('\0')),
        duration_nanos(step.timeout@) matches Ok(nanos) && 1_000_000_000 <= nanos <= 604_800
            * 1_000_000_000,
        forall|i: int|
            0 <= i < needs.len() ==> !texts(step.soft_needs@).contains(#[trigger] needs[i]),
        environment_fault(step.name@, step.environment, texts(step.remove_environment@)) is None,
        patterns_fault(texts(step.includes@)) is None,
        patterns_fault(texts(step.excludes@)) is None,
        forall|k: int|
            0 <= k < step.artifact@.len() ==> {
                &&& is_name((#[trigger] step.artifact@[k]).name@)
                &&& step.artifact@[k].patterns@.len() > 0
                &&& step.artifact@[k].retention_days > 0
                &&& patterns_fault(texts(step.artifact@[k].patterns@)) is None
            },
        artifact_names(step.artifact@).no_duplicates(),
        path_fault(step.working_directory@) is None,
        texts(step.soft_needs@).no_duplicates(),
        texts(step.semaphores@).no_duplicates(),
        forall|i: int|
            0 <= i < step.semaphores@.len() ==> is_name((#[trigger] step.semaphores@[i])@),
        texts(step.remove_environment@).no_duplicates(),
    ensures
        step_fault(step, needs) is None,
{
    lemma_no_overlap(needs, texts(step.soft_needs@));
    lemma_artifacts_accepted(step.name@, step.artifact@, 0);
    lemma_none_repeated(artifact_names(step.artifact@), 0);
    let semaphores = texts(step.semaphores@);
    assert forall|i: int| 0 <= i < semaphores.len() implies is_name(#[trigger] semaphores[i]) by {
        assert(semaphores[i] == step.semaphores@[i]@);
    }
    if step.argv is Some {
        let argv = texts(step.argv->0@);
        assert(argv[0] == step.argv->0@[0]@);
        assert forall|i: int| 0 <= i < argv.len() implies !(#[trigger] argv[i]).contains('\0') by {
            assert(argv[i] == step.argv->0@[i]@);
        }
    }
}

proof fn lemma_no_overlap(needs: Seq<Seq<char>>, soft: Seq<Seq<char>>)
    requires
        forall|i: int| 0 <= i < needs.len() ==> !soft.contains(#[trigger] needs[i]),
    ensures
        first_overlap(needs, soft) is None,
    decreases needs.len(),
{
    if needs.len() > 0 {
        assert(!soft.contains(needs[0]));
        assert forall|i: int| 0 <= i < needs.len() - 1 implies !soft.contains(
            #[trigger] needs.drop_first()[i],
        ) by {
            assert(needs.drop_first()[i] == needs[i + 1]);
        }
        lemma_no_overlap(needs.drop_first(), soft);
    }
}

proof fn lemma_artifacts_accepted(step: Seq<char>, artifacts: Seq<ArtifactFile>, k: int)
    requires
        0 <= k,
        forall|k: int|
            0 <= k < artifacts.len() ==> {
                &&& is_name((#[trigger] artifacts[k]).name@)
                &&& artifacts[k].patterns@.len() > 0
                &&& artifacts[k].retention_days > 0
                &&& patterns_fault(texts(artifacts[k].patterns@)) is None
            },
    ensures
        artifacts_fault(step, artifacts, k) is None,
    decreases artifacts.len() - k,
{
    if k < artifacts.len() {
        assert(is_name(artifacts[k].name@));
        lemma_artifacts_accepted(step, artifacts, k + 1);
    }
}

proof fn lemma_none_repeated(names: Seq<Seq<char>>, k: int)
    requires
        0 <= k,
        names.no_duplicates(),
    ensures
        first_repeated(names, k) is None,
    decreases names.len() - k,
{
    if k < names.len() {
        if names.take(k).contains(names[k]) {
            let i = choose|i: int| 0 <= i < k && names.take(k)[i] == names[k];
            assert(names[i] == names[k]);
        }
        lemma_none_repeated(names, k + 1);
    }
}

/// A file is refused for its version only if that is not one, and is never accepted then.
pub proof fn law_only_version_one_is_accepted(file: ConfigFile)
    ensures
        file_fault(file) is None ==> file.version == 1,
        file_fault(file) is None ==> file.allow_no_job || file.step@.len() > 0,
        file.version != 1 ==> file_fault(file) is Some,
{
}

/// A letter or a digit is a name; a name is still one when it is cut short, or when another
/// is put behind it, with or without a dot, a dash or an underscore between, as long as it
/// has no more than sixty-four characters; and it never has more, nor a slash or a space.
pub proof fn law_names_are_plain(a: Seq<char>, b: Seq<char>, n: int, c: char)
    ensures
        is_letter(c) || is_digit(c) ==> is_name(seq![c]),
        is_name(a) && 1 <= n <= a.len() ==> is_name(a.take(n)),
        is_name(a) && is_name(b) && a.len() + b.len() <= 64 ==> is_name(a + b),
        is_name(a) && is_name(b) && (c == '.' || c == '-' || c == '_') && a.len() + b.len() < 64
            ==> is_name(a.push(c) + b),
        is_name(a) ==> 1 <= a.len() <= 64 && !a.contains('/') && !a.contains(' ')
            && !a.contains('\0'),
        is_name(a) ==> a[0] != '.' && a[0] != '-' && a[0] != '_',
{
    if is_name(a) {
        assert forall|i: int| 0 <= i < a.len() implies is_name_char(#[trigger] a[i]) by {}
        if is_name(b) {
            assert forall|i: int| 0 <= i < b.len() implies is_name_char(#[trigger] b[i]) by {}
            assert forall|i: int| 0 < i < (a + b).len() implies is_name_char(
                #[trigger] (a + b)[i],
            ) by {
                if i < a.len() {
                    assert((a + b)[i] == a[i]);
                } else {
                    assert((a + b)[i] == b[i - a.len()]);
                }
            }
            let joined = a.push(c) + b;
            if c == '.' || c == '-' || c == '_' {
                assert forall|i: int| 0 < i < joined.len() implies is_name_char(
                    #[trigger] joined[i],
                ) by {
                    if i < a.len() {
                        assert(joined[i] == a[i]);
                    } else if i == a.len() {
                        assert(joined[i] == c);
                    } else {
                        assert(joined[i] == b[i - a.len() - 1]);
                    }
                }
                assert(joined[0] == a[0]);
            }
            assert((a + b)[0] == a[0]);
        }
        if 1 <= n <= a.len() {
            assert forall|i: int| 0 < i < n implies is_name_char(#[trigger] a.take(n)[i]) by {
                assert(a.take(n)[i] == a[i]);
            }
        }
        if a.contains('/') {
            let i = choose|i: int| 0 <= i < a.len() && a[i] == '/';
            assert(is_name_char(a[i]));
        }
        if a.contains(' ') {
            let i = choose|i: int| 0 <= i < a.len() && a[i] == ' ';
            assert(is_name_char(a[i]));
        }
        if a.contains('\0') {
            let i = choose|i: int| 0 <= i < a.len() && a[i] == '\0';
            assert(is_name_char(a[i]));
        }
    }
}

/// A name is the same name to the check in capitals and in small letters: only the kind of
/// a character counts.
pub proof fn law_letters_and_digits(c: char)
    ensures
        is_letter(c) <==> ('a' <= c && c <= 'z') || ('A' <= c && c <= 'Z'),
        is_digit(c) <==> '0' <= c && c <= '9',
        is_environment_name(seq![c]) <==> is_letter(c) || c == '_',
{
}

spec fn all_digits(digits: Seq<char>) -> bool {
    forall|i: int| 0 <= i < digits.len() ==> is_digit(#[trigger] digits[i])
}

proof fn lemma_digits_lead(digits: Seq<char>, unit: Seq<char>)
    requires
        all_digits(digits),
        unit.len() > 0,
        !is_digit(unit[0]),
    ensures
        leading_digits(digits + unit) == digits.len(),
    decreases digits.len(),
{
    let whole = digits + unit;
    if digits.len() > 0 {
        let rest = digits.drop_first();
        assert(whole[0] == digits[0]);
        assert forall|i: int| 0 <= i < rest.len() implies is_digit(#[trigger] rest[i]) by {
            assert(rest[i] == digits[i + 1]);
        }
        lemma_digits_lead(rest, unit);
        assert(whole.drop_first() =~= rest + unit);
    } else {
        assert(whole =~= unit);
    }
}

proof fn lemma_duration(digits: Seq<char>, unit: Seq<char>)
    requires
        all_digits(digits),
        digits.len() > 0,
        unit.len() > 0,
        !is_digit(unit[0]),
    ensures
        leading_digits(digits + unit) == digits.len(),
        (digits + unit).take(digits.len() as int) == digits,
        (digits + unit).skip(digits.len() as int) == unit,
{
    lemma_digits_lead(digits, unit);
    assert((digits + unit).take(digits.len() as int) =~= digits);
    assert((digits + unit).skip(digits.len() as int) =~= unit);
}

/// A duration is a number and a unit: so many seconds of a thousand million nanoseconds. As
/// many minutes are sixty times as long, as many hours sixty times that, as many days
/// twenty-four times that. What does not fit into sixty-four bits is refused.
pub proof fn law_durations_are_numbers_of_units(digits: Seq<char>)
    requires
        digits.len() > 0,
        forall|i: int| 0 <= i < digits.len() ==> is_digit(#[trigger] digits[i]),
    ensures
        ({
            let n = digits_value(digits);
            &&& n * 1_000_000_000 <= u64::MAX ==> duration_nanos(digits + "s"@) == Ok::<
                nat,
                Seq<char>,
            >(n * 1_000_000_000)
            &&& n * 60 * 1_000_000_000 <= u64::MAX ==> duration_nanos(digits + "m"@) == Ok::<
                nat,
                Seq<char>,
            >(n * 60 * 1_000_000_000)
            &&& n * 3600 * 1_000_000_000 <= u64::MAX ==> duration_nanos(digits + "h"@) == Ok::<
                nat,
                Seq<char>,
            >(n * 3600 * 1_000_000_000)
            &&& n * 24 * 3600 * 1_000_000_000 <= u64::MAX ==> duration_nanos(digits + "d"@)
                == Ok::<nat, Seq<char>>(n * 24 * 3600 * 1_000_000_000)
            &&& n * 1_000_000_000 > u64::MAX ==> duration_nanos(digits + "s"@) is Err
            &&& n * 60 * 1_000_000_000 > u64::MAX ==> duration_nanos(digits + "m"@) is Err
            &&& n * 3600 * 1_000_000_000 > u64::MAX ==> duration_nanos(digits + "h"@) is Err
            &&& n * 24 * 3600 * 1_000_000_000 > u64::MAX ==> duration_nanos(digits + "d"@) is Err
        }),
{
    reveal_strlit("s");
    reveal_strlit("m");
    reveal_strlit("h");
    reveal_strlit("d");
    assert("s"@[0] == 's' && "m"@[0] == 'm' && "h"@[0] == 'h' && "d"@[0] == 'd');
    lemma_duration(digits, "s"@);
    lemma_duration(digits, "m"@);
    lemma_duration(digits, "h"@);
    lemma_duration(digits, "d"@);
    assert("s"@ != "m"@ && "s"@ != "h"@ && "s"@ != "d"@ && "m"@ != "h"@ && "m"@ != "d"@ && "h"@
        != "d"@);
}

/// One more digit makes a number ten times what it was, and that digit more.
pub proof fn law_digits_count_by_tens(digits: Seq<char>, c: char)
    requires
        is_digit(c),
    ensures
        digits_value(Seq::<char>::empty()) == 0,
        digits_value(digits.push(c)) == 10 * digits_value(digits) + (c as nat - 48),
{
    assert(digits.push(c).drop_last() =~= digits);
}

/// A duration without a unit, or without a number, is refused, and so is any other unit.
pub proof fn law_durations_need_a_unit(digits: Seq<char>, unit: Seq<char>)
    requires
        forall|i: int| 0 <= i < digits.len() ==> is_digit(#[trigger] digits[i]),
        unit.len() > 0,
        !is_digit(unit[0]),
    ensures
        duration_nanos(unit) is Err,
        unit != "s"@ && unit != "m"@ && unit != "h"@ && unit != "d"@ ==> duration_nanos(
            digits + unit,
        ) is Err,
        duration_nanos(digits) is Err,
{
    lemma_digits_lead(digits, unit);
    lemma_digits_lead(Seq::empty(), unit);
    assert(Seq::<char>::empty() + unit =~= unit);
    assert((digits + unit).skip(digits.len() as int) =~= unit);
    lemma_only_digits(digits);
}

proof fn lemma_only_digits(digits: Seq<char>)
    requires
        all_digits(digits),
    ensures
        leading_digits(digits) == digits.len(),
    decreases digits.len(),
{
    if digits.len() > 0 {
        let rest = digits.drop_first();
        assert forall|i: int| 0 <= i < rest.len() implies is_digit(#[trigger] rest[i]) by {
            assert(rest[i] == digits[i + 1]);
        }
        lemma_only_digits(rest);
    }
}

/// A step without filters applies to every change. One path that is excluded keeps a step
/// from applying, whatever else changed; and without exclusions, more changed paths never
/// keep it from applying.
pub proof fn law_filters_choose_steps(
    includes: Seq<Seq<char>>,
    excludes: Seq<Seq<char>>,
    paths: Seq<Seq<char>>,
    more: Seq<Seq<char>>,
)
    ensures
        filters_select(Seq::empty(), Seq::empty(), paths),
        any_path_matches(excludes, paths) ==> !filters_select(includes, excludes, paths),
        includes.len() > 0 && !any_path_matches(includes, paths) ==> !filters_select(
            includes,
            excludes,
            paths,
        ),
        (includes.len() == 0 || any_path_matches(includes, paths)) && !any_path_matches(
            excludes,
            paths,
        ) ==> filters_select(includes, excludes, paths),
        filters_select(includes, Seq::empty(), paths) ==> filters_select(
            includes,
            Seq::empty(),
            paths + more,
        ),
{
    let none = Seq::<Seq<char>>::empty();
    assert(!any_path_matches(none, paths));
    assert(!any_path_matches(none, paths + more));
    if includes.len() > 0 && any_path_matches(includes, paths) {
        let (p, i) = choose|p: int, i: int|
            0 <= p < paths.len() && 0 <= i < includes.len()
                && #[trigger] crate::outside::glob_matches(
                crate::config_rules::pattern_rule(includes[i]),
                paths[p],
            );
        assert((paths + more)[p] == paths[p]);
        assert(crate::outside::glob_matches(
            crate::config_rules::pattern_rule(includes[i]),
            (paths + more)[p],
        ));
    }
}

/// The steps that apply to a change are those whose filters choose it, and no others.
pub proof fn law_applicable_steps_are_chosen(
    steps: Seq<EffectiveStep>,
    paths: Seq<Seq<char>>,
    i: int,
)
    requires
        0 <= i < steps.len(),
    ensures
        filters_select(texts(steps[i].includes@), texts(steps[i].excludes@), paths) ==> selected(
            steps,
            paths,
        ).contains(steps[i]),
        forall|k: int|
            0 <= k < selected(steps, paths).len() ==> filters_select(
                texts((#[trigger] selected(steps, paths)[k]).includes@),
                texts(selected(steps, paths)[k].excludes@),
                paths,
            ) && steps.contains(selected(steps, paths)[k]),
{
    let pred = |step: EffectiveStep|
        filters_select(texts(step.includes@), texts(step.excludes@), paths);
    lemma_filter_members(steps, pred);
    if pred(steps[i]) {
        assert(steps.filter(pred).contains(steps[i]));
    }
    assert forall|k: int| 0 <= k < selected(steps, paths).len() implies filters_select(
        texts((#[trigger] selected(steps, paths)[k]).includes@),
        texts(selected(steps, paths)[k].excludes@),
        paths,
    ) && steps.contains(selected(steps, paths)[k]) by {
        assert(pred(steps.filter(pred)[k]));
    }
}

} // verus!
