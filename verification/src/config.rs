//! From a configuration file to a configuration in effect.

use crate::config_graph::validate_graph;
#[allow(unused_imports)]
use crate::config_graph::graph_fault;
use crate::config_json::graph_digest;
#[allow(unused_imports)]
use crate::config_json::{config_tree, steps_tree, tree_digest};
use crate::config_model::{
    ArtifactFile, CachePathFile, ConfigError, ConfigFile, EffectiveArtifact, EffectiveCache,
    EffectiveCachePath, EffectiveCommand, EffectiveConfig, EffectiveRemote, EffectiveResources,
    EffectiveStep, ResourceFile, StepFile, DEFAULT_MAX_BUILDSETS, DEFAULT_REPOSITORY_CONCURRENCY,
    DEFAULT_SCHEDULER_WEIGHT, DEFAULT_VOLUME_CRITICAL_BYTES, DEFAULT_VOLUME_EMERGENCY_BYTES,
    DEFAULT_VOLUME_WARNING_BYTES,
};
#[allow(unused_imports)]
use crate::config_model::ConfigFault;
use crate::config_rules::{
    normalize_relative, parse_duration, sorted_names, sorted_unique, validate_environment,
    validate_name, validate_patterns, validate_resources, MAX_TIMEOUT_NS, MIN_TIMEOUT_NS,
};
#[allow(unused_imports)]
use crate::config_rules::{
    duplicates_complaint, duration_nanos, environment_fault, filters_fault, filters_select, is_name,
    name_complaint, names_fault, path_fault, patterns_fault, plain_path,
    resources_fault,
};
#[allow(unused_imports)]
use crate::seqs::{lemma_filter_ends, lemma_filter_step};
use crate::text::{clone_texts, concat3, contains_char, contains_text};
#[allow(unused_imports)]
use crate::text::{is_sorted_set, texts};
use vstd::prelude::*;

verus! {

/// The script may be run by a shell: it is not empty and holds no NUL character.
pub open spec fn script_ok(script: Seq<char>) -> bool {
    script.len() > 0 && !script.contains('\0')
}

/// The arguments may be executed: there is a program, and no NUL character.
pub open spec fn argv_ok(argv: Seq<Seq<char>>) -> bool {
    &&& argv.len() > 0
    &&& argv[0].len() > 0
    &&& forall|i: int| 0 <= i < argv.len() ==> !(#[trigger] argv[i]).contains('\0')
}

/// The step has one command, a script or arguments, and it may be run.
pub open spec fn command_ok(step: StepFile) -> bool {
    match (step.run, step.argv) {
        (Some(script), None) => script_ok(script@),
        (None, Some(argv)) => argv_ok(texts(argv@)),
        _ => false,
    }
}

/// The first of the needs that is also needed softly.
pub open spec fn first_overlap(needs: Seq<Seq<char>>, soft: Seq<Seq<char>>) -> Option<Seq<char>>
    decreases needs.len(),
{
    if needs.len() == 0 {
        None
    } else if soft.contains(needs[0]) {
        Some(needs[0])
    } else {
        first_overlap(needs.drop_first(), soft)
    }
}

/// Why an artifact is refused.
pub open spec fn artifact_fault(step: Seq<char>, artifact: ArtifactFile) -> Option<ConfigFault> {
    let name = artifact.name@;
    if !is_name(name) {
        Some(
            ConfigFault::InvalidStep {
                step,
                message: "artifact `"@ + name + "`: "@ + name_complaint(),
            },
        )
    } else if artifact.patterns@.len() == 0 {
        Some(
            ConfigFault::InvalidStep {
                step,
                message: "artifact `"@ + name + "` needs at least one pattern"@,
            },
        )
    } else if artifact.retention_days == 0 {
        Some(
            ConfigFault::InvalidStep {
                step,
                message: "artifact `"@ + name + "` retention_days must be at least one"@,
            },
        )
    } else {
        patterns_fault(texts(artifact.patterns@))
    }
}

/// Why the first artifact from position `k` on that is refused is refused.
pub open spec fn artifacts_fault(
    step: Seq<char>,
    artifacts: Seq<ArtifactFile>,
    k: int,
) -> Option<ConfigFault>
    decreases artifacts.len() - k,
{
    if k >= artifacts.len() {
        None
    } else {
        match artifact_fault(step, artifacts[k]) {
            Some(fault) => Some(fault),
            None => artifacts_fault(step, artifacts, k + 1),
        }
    }
}

/// The names of artifacts.
pub open spec fn artifact_names(artifacts: Seq<ArtifactFile>) -> Seq<Seq<char>> {
    artifacts.map_values(|artifact: ArtifactFile| artifact.name@)
}

/// The first name, from position `k` on, that was declared before.
pub open spec fn first_repeated(names: Seq<Seq<char>>, k: int) -> Option<Seq<char>>
    decreases names.len() - k,
{
    if k >= names.len() {
        None
    } else if names.take(k).contains(names[k]) {
        Some(names[k])
    } else {
        first_repeated(names, k + 1)
    }
}

/// Why a step is refused, given what it needs.
pub open spec fn step_fault(step: StepFile, needs: Seq<Seq<char>>) -> Option<ConfigFault> {
    let name = step.name@;
    let soft = texts(step.soft_needs@);
    if !is_name(name) {
        Some(ConfigFault::InvalidStep { step: name, message: name_complaint() })
    } else if !command_ok(step) {
        Some(
            ConfigFault::InvalidStep {
                step: name,
                message: "exactly one nonempty `run` or `argv` is required"@,
            },
        )
    } else if let Err(message) = duration_nanos(step.timeout@) {
        Some(ConfigFault::InvalidStep { step: name, message })
    } else if !(MIN_TIMEOUT_NS <= duration_nanos(step.timeout@)->Ok_0 <= MAX_TIMEOUT_NS) {
        Some(
            ConfigFault::InvalidStep {
                step: name,
                message: "timeout must be between one second and seven days"@,
            },
        )
    } else if let Some(both) = first_overlap(needs, soft) {
        Some(
            ConfigFault::InvalidStep {
                step: name,
                message: "dependency `"@ + both + "` occurs in both needs and soft_needs"@,
            },
        )
    } else if let Some(fault) = environment_fault(name, step.environment, texts(step.remove_environment@)) {
        Some(fault)
    } else if let Some(fault) = patterns_fault(texts(step.includes@)) {
        Some(fault)
    } else if let Some(fault) = patterns_fault(texts(step.excludes@)) {
        Some(fault)
    } else if let Some(fault) = artifacts_fault(name, step.artifact@, 0) {
        Some(fault)
    } else if let Some(repeated) = first_repeated(artifact_names(step.artifact@), 0) {
        Some(
            ConfigFault::InvalidStep {
                step: name,
                message: "artifact name `"@ + repeated + "` is declared more than once"@,
            },
        )
    } else if let Some(fault) = path_fault(step.working_directory@) {
        Some(fault)
    } else if !soft.no_duplicates() {
        Some(duplicates_complaint())
    } else if let Some(fault) = names_fault(texts(step.semaphores@)) {
        Some(fault)
    } else if !texts(step.remove_environment@).no_duplicates() {
        Some(duplicates_complaint())
    } else {
        None
    }
}

/// The command in effect is the one that the file gives.
pub open spec fn command_takes_effect(step: StepFile, command: EffectiveCommand) -> bool {
    match command {
        EffectiveCommand::Shell { script } => step.run matches Some(run) && script@ == run@,
        EffectiveCommand::Argv { argv } => step.run is None && (step.argv matches Some(given)
            && texts(argv@) == texts(given@)),
    }
}

/// The artifact in effect is the one that the file gives.
pub open spec fn artifact_takes_effect(file: ArtifactFile, artifact: EffectiveArtifact) -> bool {
    &&& artifact.name@ == file.name@
    &&& texts(artifact.patterns@) == texts(file.patterns@)
    &&& artifact.required == file.required
    &&& artifact.retention_days == file.retention_days
}

/// What a step of a file becomes: paths in plain form, sets sorted, the timeout in
/// nanoseconds, everything else as given.
pub open spec fn step_takes_effect(
    file: StepFile,
    needs: Seq<Seq<char>>,
    step: EffectiveStep,
) -> bool {
    &&& step.name@ == file.name@
    &&& command_takes_effect(file, step.command)
    &&& step.working_directory@ == plain_path(file.working_directory@)
    &&& texts(step.needs@) == needs
    &&& is_sorted_set(texts(file.soft_needs@), texts(step.soft_needs@))
    &&& step.voting == file.voting
    &&& step.final_step == file.final_step
    &&& duration_nanos(file.timeout@) == Ok::<nat, Seq<char>>(step.timeout_ns as nat)
    &&& step.cpu_tokens == file.cpu_tokens
    &&& step.memory_bytes == file.memory_bytes
    &&& step.rss_limit_bytes == file.rss_limit_bytes
    &&& is_sorted_set(texts(file.semaphores@), texts(step.semaphores@))
    &&& texts(step.includes@) == texts(file.includes@)
    &&& texts(step.excludes@) == texts(file.excludes@)
    &&& step.environment == file.environment
    &&& is_sorted_set(texts(file.remove_environment@), texts(step.remove_environment@))
    &&& step.artifacts@.len() == file.artifact@.len()
    &&& forall|i: int|
        0 <= i < step.artifacts@.len() ==> artifact_takes_effect(
            file.artifact@[i],
            #[trigger] step.artifacts@[i],
        )
}

fn step_error(step: &str, message: String) -> (r: ConfigError)
    ensures
        r@ == (ConfigFault::InvalidStep { step: step@, message: message@ }),
{
    ConfigError::InvalidStep { step: step.to_owned(), message }
}

/// The command of a step.
fn normalize_command(step: &StepFile) -> (r: Option<EffectiveCommand>)
    ensures
        r is Some <==> command_ok(*step),
        r matches Some(command) ==> command_takes_effect(*step, command),
{
    match (&step.run, &step.argv) {
        (Some(script), None) => {
            if script.as_str().is_empty() || contains_char(script.as_str(), '\0') {
                None
            } else {
                Some(EffectiveCommand::Shell { script: script.clone() })
            }
        },
        (None, Some(argv)) => {
            let ghost all = texts(argv@);
            if argv.is_empty() {
                return None;
            }
            assert(all[0] == argv@[0]@);
            if argv[0].as_str().is_empty() {
                return None;
            }
            let mut i: usize = 0;
            while i < argv.len()
                invariant
                    i <= argv@.len(),
                    all == texts(argv@),
                    *step == (StepFile { run: None, argv: Some(*argv), ..*step }),
                    forall|j: int| 0 <= j < i ==> !(#[trigger] all[j]).contains('\0'),
                decreases argv@.len() - i,
            {
                assert(all[i as int] == argv@[i as int]@);
                if contains_char(argv[i].as_str(), '\0') {
                    assert(!argv_ok(all));
                    return None;
                }
                i += 1;
            }
            Some(EffectiveCommand::Argv { argv: clone_texts(argv) })
        },
        _ => None,
    }
}

fn find_overlap(needs: &Vec<String>, soft: &Vec<String>) -> (r: Option<String>)
    ensures
        r is Some <==> first_overlap(texts(needs@), texts(soft@)) is Some,
        r matches Some(name) ==> first_overlap(texts(needs@), texts(soft@)) == Some(name@),
{
    let ghost all = texts(needs@);
    let mut i: usize = 0;
    assert(all.skip(0) =~= all);
    while i < needs.len()
        invariant
            i <= needs@.len(),
            all == texts(needs@),
            first_overlap(all.skip(i as int), texts(soft@)) == first_overlap(all, texts(soft@)),
        decreases needs@.len() - i,
    {
        proof {
            assert(all.skip(i as int).drop_first() =~= all.skip(i + 1));
            assert(all.skip(i as int)[0] == needs@[i as int]@);
        }
        if contains_text(soft, needs[i].as_str()) {
            return Some(needs[i].clone());
        }
        i += 1;
    }
    None
}

/// Checks the artifacts of a step and takes them over.
fn normalize_artifacts(step: &str, artifacts: &Vec<ArtifactFile>) -> (r: Result<
    Vec<EffectiveArtifact>,
    ConfigError,
>)
    ensures
        ({
            let repeated = first_repeated(artifact_names(artifacts@), 0);
            &&& r is Ok <==> artifacts_fault(step@, artifacts@, 0) is None && repeated is None
            &&& r matches Ok(out) ==> out@.len() == artifacts@.len() && forall|i: int|
                0 <= i < out@.len() ==> artifact_takes_effect(artifacts@[i], #[trigger] out@[i])
            &&& r matches Err(error) ==> match artifacts_fault(step@, artifacts@, 0) {
                Some(fault) => error@ == fault,
                None => error@ == (ConfigFault::InvalidStep {
                    step: step@,
                    message: "artifact name `"@ + repeated->0 + "` is declared more than once"@,
                }),
            }
        }),
{
    let mut out: Vec<EffectiveArtifact> = Vec::new();
    let mut i: usize = 0;
    while i < artifacts.len()
        invariant
            i <= artifacts@.len(),
            artifacts_fault(step@, artifacts@, i as int) == artifacts_fault(step@, artifacts@, 0),
            out@.len() == i,
            forall|j: int|
                0 <= j < i ==> artifact_takes_effect(artifacts@[j], #[trigger] out@[j]),
        decreases artifacts@.len() - i,
    {
        let artifact = &artifacts[i];
        match validate_name(artifact.name.as_str()) {
            Ok(()) => {},
            Err(message) => {
                return Err(
                    step_error(
                        step,
                        concat3("artifact `", artifact.name.as_str(), "`: ").concat(
                            message.as_str(),
                        ),
                    ),
                );
            },
        }
        if artifact.patterns.is_empty() {
            return Err(
                step_error(
                    step,
                    concat3("artifact `", artifact.name.as_str(), "` needs at least one pattern"),
                ),
            );
        }
        if artifact.retention_days == 0 {
            return Err(
                step_error(
                    step,
                    concat3(
                        "artifact `",
                        artifact.name.as_str(),
                        "` retention_days must be at least one",
                    ),
                ),
            );
        }
        match validate_patterns(&artifact.patterns) {
            Ok(()) => {},
            Err(error) => {
                return Err(error);
            },
        }
        out.push(
            EffectiveArtifact {
                name: artifact.name.clone(),
                patterns: clone_texts(&artifact.patterns),
                required: artifact.required,
                retention_days: artifact.retention_days,
            },
        );
        i += 1;
    }
    let ghost names = artifact_names(artifacts@);
    let mut seen: Vec<String> = Vec::new();
    let mut k: usize = 0;
    assert(texts(seen@) =~= names.take(0));
    while k < artifacts.len()
        invariant
            k <= artifacts@.len(),
            artifacts_fault(step@, artifacts@, 0) is None,
            names == artifact_names(artifacts@),
            texts(seen@) == names.take(k as int),
            first_repeated(names, k as int) == first_repeated(names, 0),
        decreases artifacts@.len() - k,
    {
        let name = &artifacts[k].name;
        assert(names[k as int] == name@);
        if contains_text(&seen, name.as_str()) {
            return Err(
                step_error(
                    step,
                    concat3("artifact name `", name.as_str(), "` is declared more than once"),
                ),
            );
        }
        let ghost before = texts(seen@);
        seen.push(name.clone());
        k += 1;
        proof {
            assert(texts(seen@) =~= before.push(name@));
            assert(names.take(k as int) =~= names.take(k - 1).push(names[k - 1]));
        }
    }
    Ok(out)
}

/// Brings a step into effect, given what it needs.
pub fn normalize_step(step: StepFile, needs: Vec<String>) -> (r: Result<EffectiveStep, ConfigError>)
    ensures
        r is Ok <==> step_fault(step, texts(needs@)) is None,
        r matches Ok(effective) ==> step_takes_effect(step, texts(needs@), effective),
        r matches Err(error) ==> Some(error@) == step_fault(step, texts(needs@)),
{
    match validate_name(step.name.as_str()) {
        Ok(()) => {},
        Err(message) => {
            return Err(step_error(step.name.as_str(), message));
        },
    }
    let command = match normalize_command(&step) {
        Some(command) => command,
        None => {
            return Err(
                step_error(
                    step.name.as_str(),
                    "exactly one nonempty `run` or `argv` is required".to_owned(),
                ),
            );
        },
    };
    let timeout_ns: u64 = match parse_duration(step.timeout.as_str()) {
        Ok(nanos) => nanos,
        Err(message) => {
            return Err(step_error(step.name.as_str(), message));
        },
    };
    if timeout_ns < MIN_TIMEOUT_NS || timeout_ns > MAX_TIMEOUT_NS {
        return Err(
            step_error(
                step.name.as_str(),
                "timeout must be between one second and seven days".to_owned(),
            ),
        );
    }
    match find_overlap(&needs, &step.soft_needs) {
        Some(name) => {
            return Err(
                step_error(
                    step.name.as_str(),
                    concat3("dependency `", name.as_str(), "` occurs in both needs and soft_needs"),
                ),
            );
        },
        None => {},
    }
    match validate_environment(step.name.as_str(), &step.environment, &step.remove_environment) {
        Ok(()) => {},
        Err(error) => {
            return Err(error);
        },
    }
    match validate_patterns(&step.includes) {
        Ok(()) => {},
        Err(error) => {
            return Err(error);
        },
    }
    match validate_patterns(&step.excludes) {
        Ok(()) => {},
        Err(error) => {
            return Err(error);
        },
    }
    let artifacts = match normalize_artifacts(step.name.as_str(), &step.artifact) {
        Ok(artifacts) => artifacts,
        Err(error) => {
            return Err(error);
        },
    };
    let working_directory = match normalize_relative(step.working_directory.as_str()) {
        Ok(path) => path,
        Err(error) => {
            return Err(error);
        },
    };
    let soft_needs = match sorted_unique(&step.soft_needs) {
        Ok(sorted) => sorted,
        Err(error) => {
            return Err(error);
        },
    };
    let semaphores = match sorted_names(&step.semaphores) {
        Ok(sorted) => sorted,
        Err(error) => {
            return Err(error);
        },
    };
    let remove_environment = match sorted_unique(&step.remove_environment) {
        Ok(sorted) => sorted,
        Err(error) => {
            return Err(error);
        },
    };
    Ok(
        EffectiveStep {
            name: step.name,
            command,
            working_directory,
            needs,
            soft_needs,
            voting: step.voting,
            final_step: step.final_step,
            timeout_ns,
            cpu_tokens: step.cpu_tokens,
            memory_bytes: step.memory_bytes,
            rss_limit_bytes: step.rss_limit_bytes,
            semaphores,
            includes: step.includes,
            excludes: step.excludes,
            environment: step.environment,
            remove_environment,
            artifacts,
        },
    )
}

/// The runner in effect: the one given, or a shell.
pub open spec fn effective_runner(file: ConfigFile) -> Seq<Seq<char>> {
    match file.runner {
        Some(runner) => texts(runner@),
        None => seq!["/bin/sh"@, "-c"@],
    }
}

/// A runner has arguments, none of them empty or with a NUL character.
pub open spec fn runner_ok(runner: Seq<Seq<char>>) -> bool {
    &&& runner.len() > 0
    &&& forall|i: int|
        0 <= i < runner.len() ==> (#[trigger] runner[i]).len() > 0 && !runner[i].contains('\0')
}

/// Some step says what it waits for.
pub open spec fn any_explicit_edges(steps: Seq<StepFile>) -> bool {
    exists|i: int|
        0 <= i < steps.len() && ((#[trigger] steps[i]).needs@.len() > 0 || steps[i].soft_needs@.len()
            > 0)
}

/// What step `i` needs: what it says, or, where no step says anything, the step before it.
pub open spec fn effective_needs(steps: Seq<StepFile>, i: int) -> Seq<Seq<char>> {
    if !any_explicit_edges(steps) && i > 0 {
        seq![steps[i - 1].name@]
    } else {
        texts(steps[i].needs@)
    }
}

/// Why the first step from position `i` on that is refused is refused.
pub open spec fn steps_fault(steps: Seq<StepFile>, i: int) -> Option<ConfigFault>
    decreases steps.len() - i,
{
    if i >= steps.len() {
        None
    } else {
        match step_fault(steps[i], effective_needs(steps, i)) {
            Some(fault) => Some(fault),
            None => steps_fault(steps, i + 1),
        }
    }
}

/// Each step of the file has taken effect.
pub open spec fn steps_take_effect(file: Seq<StepFile>, steps: Seq<EffectiveStep>) -> bool {
    &&& steps.len() == file.len()
    &&& forall|i: int|
        0 <= i < steps.len() ==> step_takes_effect(
            file[i],
            effective_needs(file, i),
            #[trigger] steps[i],
        )
}

pub open spec fn or_default_u16(value: u16, default: u16) -> u16 {
    if value == 0 {
        default
    } else {
        value
    }
}

pub open spec fn or_default_u64(value: u64, default: u64) -> u64 {
    if value == 0 {
        default
    } else {
        value
    }
}

/// The resources in effect: zero gives way to the default, except for pools.
pub open spec fn effective_resources(file: ResourceFile) -> EffectiveResources {
    EffectiveResources {
        max_buildsets: or_default_u16(file.max_buildsets, DEFAULT_MAX_BUILDSETS),
        cpu_tokens: file.cpu_tokens,
        memory_bytes: file.memory_bytes,
        repository_concurrency: or_default_u16(
            file.repository_concurrency,
            DEFAULT_REPOSITORY_CONCURRENCY,
        ),
        scheduler_weight: or_default_u16(file.scheduler_weight, DEFAULT_SCHEDULER_WEIGHT),
        volume_warning_bytes: or_default_u64(
            file.volume_warning_bytes,
            DEFAULT_VOLUME_WARNING_BYTES,
        ),
        volume_critical_bytes: or_default_u64(
            file.volume_critical_bytes,
            DEFAULT_VOLUME_CRITICAL_BYTES,
        ),
        volume_emergency_bytes: or_default_u64(
            file.volume_emergency_bytes,
            DEFAULT_VOLUME_EMERGENCY_BYTES,
        ),
    }
}

/// Why the first cached path from position `k` on that is refused is refused.
pub open spec fn cache_fault(paths: Seq<CachePathFile>, k: int) -> Option<ConfigFault>
    decreases paths.len() - k,
{
    if k >= paths.len() {
        None
    } else {
        match path_fault(paths[k].path@) {
            Some(fault) => Some(fault),
            None => cache_fault(paths, k + 1),
        }
    }
}

/// Why a file is refused before its steps are looked at together.
pub open spec fn file_fault(file: ConfigFile) -> Option<ConfigFault> {
    if file.version != 1 {
        Some(ConfigFault::UnsupportedVersion(file.version))
    } else if !runner_ok(effective_runner(file)) {
        Some(ConfigFault::Invalid("runner must contain nonempty NUL-free arguments"@))
    } else if file.step@.len() == 0 && !file.allow_no_job {
        Some(
            ConfigFault::Invalid("at least one step is required unless allow_no_job is true"@),
        )
    } else {
        steps_fault(file.step@, 0)
    }
}

/// Some step counts for the outcome.
pub open spec fn any_voting(steps: Seq<EffectiveStep>) -> bool {
    exists|i: int| 0 <= i < steps.len() && (#[trigger] steps[i]).voting
}

/// Why a file is refused whose steps have taken effect as given.
pub open spec fn whole_fault(file: ConfigFile, steps: Seq<EffectiveStep>) -> Option<ConfigFault> {
    if let Some(fault) = graph_fault(steps) {
        Some(fault)
    } else if !file.allow_no_job && !any_voting(steps) {
        Some(
            ConfigFault::Invalid("a gate configuration requires at least one voting step"@),
        )
    } else if let Some(fault) = resources_fault(steps, effective_resources(file.resources)) {
        Some(fault)
    } else {
        cache_fault(file.cache.paths@, 0)
    }
}

/// The cached paths in effect are those of the file, in plain form.
pub open spec fn cache_takes_effect(
    file: Seq<CachePathFile>,
    paths: Seq<EffectiveCachePath>,
) -> bool {
    &&& paths.len() == file.len()
    &&& forall|i: int|
        0 <= i < paths.len() ==> (#[trigger] paths[i]).path@ == plain_path(file[i].path@)
            && paths[i].policy == file[i].policy
}

/// The configuration is the one that the file describes.
pub open spec fn config_takes_effect(file: ConfigFile, config: EffectiveConfig) -> bool {
    &&& config.version == 1
    &&& texts(config.runner@) == effective_runner(file)
    &&& config.allow_no_job == file.allow_no_job
    &&& config.allow_concurrent_roots == file.allow_concurrent_roots
    &&& config.sync_user_master == file.sync_user_master
    &&& steps_take_effect(file.step@, config.steps@)
    &&& config.resources == effective_resources(file.resources)
    &&& config.remote.enabled == file.remote.enabled
    &&& config.remote.name@ == file.remote.name@
    &&& config.remote.branch@ == file.remote.branch@
    &&& config.cache.epoch == file.cache.epoch
    &&& cache_takes_effect(file.cache.paths@, config.cache.paths@)
    &&& config.step_graph_digest@ == tree_digest(steps_tree(config.steps@))
    &&& config.digest@ == tree_digest(config_tree(config))
}

fn runner_of(file: &ConfigFile) -> (r: Option<Vec<String>>)
    ensures
        r is Some <==> runner_ok(effective_runner(*file)),
        r matches Some(runner) ==> texts(runner@) == effective_runner(*file),
{
    let runner: Vec<String> = match &file.runner {
        Some(runner) => clone_texts(runner),
        None => {
            let mut shell: Vec<String> = Vec::new();
            shell.push("/bin/sh".to_owned());
            shell.push("-c".to_owned());
            assert(texts(shell@) =~= seq!["/bin/sh"@, "-c"@]);
            shell
        },
    };
    let ghost all = texts(runner@);
    assert(all == effective_runner(*file));
    if runner.is_empty() {
        return None;
    }
    let mut i: usize = 0;
    while i < runner.len()
        invariant
            i <= runner@.len(),
            all == texts(runner@),
            all == effective_runner(*file),
            forall|j: int|
                0 <= j < i ==> (#[trigger] all[j]).len() > 0 && !all[j].contains('\0'),
        decreases runner@.len() - i,
    {
        assert(all[i as int] == runner@[i as int]@);
        if runner[i].as_str().is_empty() || contains_char(runner[i].as_str(), '\0') {
            return None;
        }
        i += 1;
    }
    Some(runner)
}

fn has_explicit_edges(steps: &Vec<StepFile>) -> (r: bool)
    ensures
        r == any_explicit_edges(steps@),
{
    let mut i: usize = 0;
    while i < steps.len()
        invariant
            i <= steps@.len(),
            forall|j: int|
                0 <= j < i ==> (#[trigger] steps@[j]).needs@.len() == 0
                    && steps@[j].soft_needs@.len() == 0,
        decreases steps@.len() - i,
    {
        if !steps[i].needs.is_empty() || !steps[i].soft_needs.is_empty() {
            return true;
        }
        i += 1;
    }
    false
}

/// Brings the steps of a file into effect, one by one.
#[verifier::loop_isolation(false)]
fn normalize_steps(file: Vec<StepFile>) -> (r: Result<Vec<EffectiveStep>, ConfigError>)
    ensures
        r is Ok <==> steps_fault(file@, 0) is None,
        r matches Ok(steps) ==> steps_take_effect(file@, steps@),
        r matches Err(error) ==> Some(error@) == steps_fault(file@, 0),
{
    let ghost all = file@;
    let explicit = has_explicit_edges(&file);
    let mut rest = file;
    let mut steps: Vec<EffectiveStep> = Vec::new();
    assert(all.skip(0) =~= all);
    while rest.len() > 0
        invariant
            explicit == any_explicit_edges(all),
            steps@.len() + rest@.len() == all.len(),
            rest@ == all.skip(steps@.len() as int),
            steps_fault(all, steps@.len() as int) == steps_fault(all, 0),
            forall|i: int|
                0 <= i < steps@.len() ==> step_takes_effect(
                    all[i],
                    effective_needs(all, i),
                    #[trigger] steps@[i],
                ),
        decreases rest@.len(),
    {
        let ghost at = steps@.len() as int;
        let step = rest.remove(0);
        assert(step == all[at]);
        assert(rest@ =~= all.skip(at + 1));
        let needs: Vec<String> = if !explicit && steps.len() > 0 {
            let mut before: Vec<String> = Vec::new();
            before.push(steps[steps.len() - 1].name.clone());
            proof {
                assert(step_takes_effect(all[at - 1], effective_needs(all, at - 1), steps@[at - 1]));
                assert(texts(before@) =~= seq![all[at - 1].name@]);
            }
            before
        } else {
            clone_texts(&step.needs)
        };
        assert(texts(needs@) == effective_needs(all, at));
        match normalize_step(step, needs) {
            Ok(effective) => {
                steps.push(effective);
            },
            Err(error) => {
                return Err(error);
            },
        }
    }
    Ok(steps)
}

fn number16_or(value: u16, default: u16) -> (r: u16)
    ensures
        r == or_default_u16(value, default),
{
    if value == 0 {
        default
    } else {
        value
    }
}

fn number64_or(value: u64, default: u64) -> (r: u64)
    ensures
        r == or_default_u64(value, default),
{
    if value == 0 {
        default
    } else {
        value
    }
}

fn resources_of(given: &ResourceFile) -> (r: EffectiveResources)
    ensures
        r == effective_resources(*given),
{
    EffectiveResources {
        max_buildsets: number16_or(given.max_buildsets, DEFAULT_MAX_BUILDSETS),
        cpu_tokens: given.cpu_tokens,
        memory_bytes: given.memory_bytes,
        repository_concurrency: number16_or(
            given.repository_concurrency,
            DEFAULT_REPOSITORY_CONCURRENCY,
        ),
        scheduler_weight: number16_or(given.scheduler_weight, DEFAULT_SCHEDULER_WEIGHT),
        volume_warning_bytes: number64_or(
            given.volume_warning_bytes,
            DEFAULT_VOLUME_WARNING_BYTES,
        ),
        volume_critical_bytes: number64_or(
            given.volume_critical_bytes,
            DEFAULT_VOLUME_CRITICAL_BYTES,
        ),
        volume_emergency_bytes: number64_or(
            given.volume_emergency_bytes,
            DEFAULT_VOLUME_EMERGENCY_BYTES,
        ),
    }
}

fn normalize_cache(paths: &Vec<CachePathFile>) -> (r: Result<Vec<EffectiveCachePath>, ConfigError>)
    ensures
        r is Ok <==> cache_fault(paths@, 0) is None,
        r matches Ok(out) ==> cache_takes_effect(paths@, out@),
        r matches Err(error) ==> Some(error@) == cache_fault(paths@, 0),
{
    let mut out: Vec<EffectiveCachePath> = Vec::new();
    let mut i: usize = 0;
    while i < paths.len()
        invariant
            i <= paths@.len(),
            cache_fault(paths@, i as int) == cache_fault(paths@, 0),
            out@.len() == i,
            forall|j: int|
                0 <= j < i ==> (#[trigger] out@[j]).path@ == plain_path(paths@[j].path@)
                    && out@[j].policy == paths@[j].policy,
        decreases paths@.len() - i,
    {
        match normalize_relative(paths[i].path.as_str()) {
            Ok(path) => {
                out.push(EffectiveCachePath { path, policy: paths[i].policy });
            },
            Err(error) => {
                return Err(error);
            },
        }
        i += 1;
    }
    Ok(out)
}

fn has_voting(steps: &Vec<EffectiveStep>) -> (r: bool)
    ensures
        r == any_voting(steps@),
{
    let mut i: usize = 0;
    while i < steps.len()
        invariant
            i <= steps@.len(),
            forall|j: int| 0 <= j < i ==> !(#[trigger] steps@[j]).voting,
        decreases steps@.len() - i,
    {
        if steps[i].voting {
            return true;
        }
        i += 1;
    }
    false
}

/// The configuration with its digests filled in.
fn sealed(config: EffectiveConfig) -> (r: EffectiveConfig)
    ensures
        r == (EffectiveConfig {
            digest: r.digest,
            step_graph_digest: r.step_graph_digest,
            ..config
        }),
        r.step_graph_digest@ == tree_digest(steps_tree(r.steps@)),
        r.digest@ == tree_digest(config_tree(r)),
{
    let digest = config.canonical_digest();
    let step_graph_digest = graph_digest(&config.steps);
    EffectiveConfig { digest, step_graph_digest, ..config }
}

impl EffectiveConfig {
    /// Brings a configuration file into effect.
    pub fn from_file(file: ConfigFile) -> (r: Result<EffectiveConfig, ConfigError>)
        ensures
            r matches Ok(config) ==> file_fault(file) is None && config_takes_effect(file, config)
                && whole_fault(file, config.steps@) is None,
            r matches Err(error) ==> match file_fault(file) {
                Some(fault) => error@ == fault,
                None => exists|steps: Seq<EffectiveStep>| #[trigger]
                    steps_take_effect(file.step@, steps) && whole_fault(file, steps) == Some(
                        error@,
                    ),
            },
    {
        if file.version != 1 {
            return Err(ConfigError::UnsupportedVersion(file.version));
        }
        let runner = match runner_of(&file) {
            Some(runner) => runner,
            None => {
                return Err(
                    ConfigError::Invalid(
                        "runner must contain nonempty NUL-free arguments".to_owned(),
                    ),
                );
            },
        };
        if file.step.is_empty() && !file.allow_no_job {
            return Err(
                ConfigError::Invalid(
                    "at least one step is required unless allow_no_job is true".to_owned(),
                ),
            );
        }
        let steps = match normalize_steps(file.step) {
            Ok(steps) => steps,
            Err(error) => {
                return Err(error);
            },
        };
        match validate_graph(&steps) {
            Ok(()) => {},
            Err(error) => {
                return Err(error);
            },
        }
        if !file.allow_no_job && !has_voting(&steps) {
            return Err(
                ConfigError::Invalid(
                    "a gate configuration requires at least one voting step".to_owned(),
                ),
            );
        }
        let resources = resources_of(&file.resources);
        match validate_resources(&steps, &resources) {
            Ok(()) => {},
            Err(error) => {
                return Err(error);
            },
        }
        let paths = match normalize_cache(&file.cache.paths) {
            Ok(paths) => paths,
            Err(error) => {
                return Err(error);
            },
        };
        let config = EffectiveConfig {
            version: 1,
            runner,
            allow_no_job: file.allow_no_job,
            allow_concurrent_roots: file.allow_concurrent_roots,
            sync_user_master: file.sync_user_master,
            steps,
            resources,
            remote: EffectiveRemote {
                enabled: file.remote.enabled,
                name: file.remote.name,
                branch: file.remote.branch,
            },
            cache: EffectiveCache { epoch: file.cache.epoch, paths },
            digest: String::new(),
            step_graph_digest: String::new(),
        };
        Ok(sealed(config))
    }
}

/// The steps whose filters select the change, in their order.
pub open spec fn selected(
    steps: Seq<EffectiveStep>,
    paths: Seq<Seq<char>>,
) -> Seq<EffectiveStep> {
    steps.filter(
        |step: EffectiveStep|
            filters_select(texts(step.includes@), texts(step.excludes@), paths),
    )
}

/// Why the first step from position `i` on whose filters cannot be applied stands in the way.
pub open spec fn selection_fault(steps: Seq<EffectiveStep>, i: int) -> Option<ConfigFault>
    decreases steps.len() - i,
{
    if i >= steps.len() {
        None
    } else {
        match filters_fault(texts(steps[i].includes@), texts(steps[i].excludes@)) {
            Some(fault) => Some(fault),
            None => selection_fault(steps, i + 1),
        }
    }
}

impl EffectiveConfig {
    /// The steps that apply to a change of the given paths, in order.
    pub fn applicable_steps(&self, changed_paths: &[String]) -> (r: Result<
        Vec<&EffectiveStep>,
        ConfigError,
    >)
        ensures
            r is Ok <==> selection_fault(self.steps@, 0) is None,
            r matches Ok(steps) ==> {
                &&& steps@.len() == selected(self.steps@, texts(changed_paths@)).len()
                &&& forall|i: int|
                    0 <= i < steps@.len() ==> *#[trigger] steps@[i] == selected(
                        self.steps@,
                        texts(changed_paths@),
                    )[i]
            },
            r matches Err(error) ==> Some(error@) == selection_fault(self.steps@, 0),
    {
        let ghost paths = texts(changed_paths@);
        let ghost pred = |step: EffectiveStep|
            filters_select(texts(step.includes@), texts(step.excludes@), paths);
        let mut out: Vec<&EffectiveStep> = Vec::new();
        let mut i: usize = 0;
        proof {
            lemma_filter_ends(self.steps@, pred);
        }
        while i < self.steps.len()
            invariant
                i <= self.steps@.len(),
                paths == texts(changed_paths@),
                pred == (|step: EffectiveStep|
                    filters_select(texts(step.includes@), texts(step.excludes@), paths)),
                selection_fault(self.steps@, i as int) == selection_fault(self.steps@, 0),
                out@.len() == self.steps@.take(i as int).filter(pred).len(),
                forall|k: int|
                    0 <= k < out@.len() ==> *#[trigger] out@[k] == self.steps@.take(
                        i as int,
                    ).filter(pred)[k],
            decreases self.steps@.len() - i,
        {
            proof {
                lemma_filter_step(self.steps@, pred, i as int);
            }
            match self.steps[i].is_applicable(changed_paths) {
                Ok(applies) => {
                    if applies {
                        out.push(&self.steps[i]);
                    }
                },
                Err(error) => {
                    return Err(error);
                },
            }
            i += 1;
        }
        proof {
            lemma_filter_ends(self.steps@, pred);
        }
        Ok(out)
    }
}

} // verus!
