//! Reading configuration files and stored configurations.

use crate::config_model::{
    ArtifactFile, CacheFile, CachePathFile, CachePolicy, ConfigError, ConfigFile,
    EffectiveArtifact, EffectiveCache, EffectiveCachePath, EffectiveCommand, EffectiveConfig,
    EffectiveRemote, EffectiveResources, EffectiveStep, RemoteFile, ResourceFile, StepFile,
    DEFAULT_MAX_BUILDSETS, DEFAULT_REPOSITORY_CONCURRENCY, DEFAULT_RETENTION_DAYS,
    DEFAULT_SCHEDULER_WEIGHT, DEFAULT_VOLUME_CRITICAL_BYTES, DEFAULT_VOLUME_EMERGENCY_BYTES,
    DEFAULT_VOLUME_WARNING_BYTES,
};
#[allow(unused_imports)]
use crate::config::{config_takes_effect, file_fault, steps_take_effect, whole_fault};
use crate::document::Document;
#[allow(unused_imports)]
use crate::document::{all_named, first_text, names_of, record, stranger, Tree};
use crate::outside::{json_document, parse_json, parse_toml, toml_document};
#[allow(unused_imports)]
use crate::outside::{json_parsed, toml_parsed};
use crate::text::concat3;
#[allow(unused_imports)]
use crate::text::texts;
use crate::text_map::TextMap;
use vstd::prelude::*;

verus! {

/// The contents hold nothing.
pub open spec fn is_hollow(t: Tree) -> bool {
    match t {
        Tree::List(items) => items.len() == 0,
        Tree::Table(entries) => entries.len() == 0,
        _ => false,
    }
}

/// The name of a policy in a configuration file: a text, or a table that has the name with
/// an empty table or list behind it.
pub open spec fn filed_policy(t: Tree) -> Option<Seq<char>> {
    match t {
        Tree::Text(text) => Some(text),
        Tree::Table(entries) => if entries.len() == 1 && is_hollow(entries[0].1) {
            Some(entries[0].0)
        } else {
            None
        },
        _ => None,
    }
}

/// The name of a policy, in a configuration file or in a stored configuration.
pub open spec fn policy_name(t: Tree, stored: bool) -> Option<Seq<char>> {
    if stored {
        t.as_variant()
    } else {
        filed_policy(t)
    }
}

/// The policy can be read, or is missing and may be.
pub open spec fn policy_readable(t: Tree, stored: bool) -> bool {
    match t.field("policy"@) {
        None => !stored,
        Some(value) => policy_name(value, stored) matches Some(text) && CachePolicy::known(text),
    }
}

/// The policy is the one given, or the default where it is missing.
pub open spec fn policy_reads(t: Tree, policy: CachePolicy, stored: bool) -> bool {
    match t.field("policy"@) {
        None => policy == CachePolicy::Clone,
        Some(value) => policy_name(value, stored) == Some(policy.wire_name()),
    }
}

fn read_filed_policy(document: &Document) -> (r: Option<String>)
    ensures
        r is Some <==> filed_policy(document@) is Some,
        r matches Some(text) ==> filed_policy(document@) == Some(text@),
{
    match document {
        Document::Text(text) => Some(text.as_str().to_owned()),
        Document::Table(entries) => {
            let ghost all = document@->Table_0;
            assert(all.len() == entries@.len());
            if entries.len() != 1 {
                return None;
            }
            assert(all[0] == (entries@[0].0@, entries@[0].1.tree()));
            let hollow = match &entries[0].1 {
                Document::List(items) => items.len() == 0,
                Document::Table(entries) => entries.len() == 0,
                _ => false,
            };
            if hollow {
                Some(entries[0].0.as_str().to_owned())
            } else {
                None
            }
        },
        _ => None,
    }
}

fn read_policy(document: &Document, stored: bool) -> (r: Option<CachePolicy>)
    ensures
        r is Some <==> policy_readable(document@, stored),
        r matches Some(policy) ==> policy_reads(document@, policy, stored),
{
    let value = match document.get("policy") {
        Some(value) => value,
        None => {
            return if stored {
                None
            } else {
                Some(CachePolicy::Clone)
            };
        },
    };
    let name = if stored {
        value.read_variant()
    } else {
        read_filed_policy(value)
    };
    match name {
        Some(text) => CachePolicy::parse(text.as_str()),
        None => None,
    }
}

/// The fields of an artifact of a configuration file can be read.
pub open spec fn artifact_fields_readable(t: Tree) -> bool {
    &&& t.only_fields(
        seq![
            "name"@,
            "patterns"@,
            "required"@,
            "retention_days"@,
        ],
    )
    &&& t.text_field("name"@, None) is Some
    &&& t.texts_field("patterns"@, true) is Some
    &&& t.bool_field("required"@, Some(false)) is Some
    &&& t.number_field("retention_days"@, Some(DEFAULT_RETENTION_DAYS as nat), u16::MAX as nat) is Some
}

/// Read as the fields of an artifact of a configuration file, the table gives this value.
pub open spec fn artifact_fields_read(t: Tree, out: ArtifactFile) -> bool {
    &&& t.text_field("name"@, None) == Some(out.name@)
    &&& t.texts_field("patterns"@, true) == Some(texts(out.patterns@))
    &&& t.bool_field("required"@, Some(false)) == Some(out.required)
    &&& t.number_field("retention_days"@, Some(DEFAULT_RETENTION_DAYS as nat), u16::MAX as nat) == Some(out.retention_days as nat)
}

fn read_artifact_fields(document: &Document) -> (r: Option<ArtifactFile>)
    ensures
        r is Some <==> artifact_fields_readable(document@),
        r matches Some(out) ==> artifact_fields_read(document@, out),
{
    let names = [
        "name",
        "patterns",
        "required",
        "retention_days",
    ];
    proof {
        assert(names_of(names@) =~= seq![
            "name"@,
            "patterns"@,
            "required"@,
            "retention_days"@,
        ]);
    }
    if !document.has_only(&names) {
        return None;
    }
    let name = match document.text_field("name", None) {
        Some(value) => value,
        None => {
            return None;
        },
    };
    let patterns = match document.texts_field("patterns", true) {
        Some(value) => value,
        None => {
            return None;
        },
    };
    let required = match document.bool_field("required", Some(false)) {
        Some(value) => value,
        None => {
            return None;
        },
    };
    let retention_days: u16 = match document.number_field("retention_days", Some(DEFAULT_RETENTION_DAYS as u64), u16::MAX as u64) {
        Some(value) => value as u16,
        None => {
            return None;
        },
    };
    Some(ArtifactFile { name, patterns, required, retention_days })
}

/// The fields of an artifact of a configuration file, in order.
pub open spec fn artifact_order() -> Seq<Seq<char>> {
    seq![
        "name"@,
        "patterns"@,
        "required"@,
        "retention_days"@,
    ]
}

/// The document can be read as an artifact of a configuration file.
pub open spec fn artifact_readable(t: Tree) -> bool {
    artifact_fields_readable(record(t, artifact_order(), 2, false))
}

/// Read as an artifact of a configuration file, the document gives this value.
pub open spec fn artifact_reads(t: Tree, out: ArtifactFile) -> bool {
    artifact_fields_read(record(t, artifact_order(), 2, false), out)
}

/// Reads an artifact of a configuration file.
fn read_artifact(document: &Document) -> (r: Option<ArtifactFile>)
    ensures
        r is Some <==> artifact_readable(document@),
        r matches Some(out) ==> artifact_reads(document@, out),
{
    let names = [
        "name",
        "patterns",
        "required",
        "retention_days",
    ];
    assert(names_of(names@) =~= artifact_order());
    match document.as_record(&names, 2, false) {
        Some(table) => read_artifact_fields(&table),
        None => read_artifact_fields(document),
    }
}

/// Every one of the documents can be read.
pub open spec fn all_artifact_readable(items: Seq<Tree>) -> bool {
    forall|i: int| 0 <= i < items.len() ==> artifact_readable(#[trigger] items[i])
}

/// The field lists artifacts, each of which can be read, or is missing.
pub open spec fn artifact_list_readable(t: Tree) -> bool {
    match t.field("artifact"@) {
        None => true,
        Some(Tree::List(items)) => all_artifact_readable(items),
        Some(_) => false,
    }
}

/// The values are those that the field lists.
pub open spec fn artifact_list_reads(t: Tree, out: Seq<ArtifactFile>) -> bool {
    match t.field("artifact"@) {
        Some(Tree::List(items)) => out.len() == items.len() && forall|i: int|
            0 <= i < out.len() ==> artifact_reads(items[i], #[trigger] out[i]),
        _ => out.len() == 0,
    }
}

fn read_artifact_list(document: &Document) -> (r: Option<Vec<ArtifactFile>>)
    ensures
        r is Some <==> artifact_list_readable(document@),
        r matches Some(out) ==> artifact_list_reads(document@, out@),
{
    match document.get("artifact") {
        None => Some(Vec::new()),
        Some(list) => match list {
            Document::List(items) => {
                let ghost all = list@->List_0;
                let mut out: Vec<ArtifactFile> = Vec::new();
                let mut i: usize = 0;
                while i < items.len()
                    invariant
                        i <= items@.len(),
                        all.len() == items@.len(),
                        document@.field("artifact"@) == Some(Tree::List(all)),
                        *list == Document::List(*items),
                        list@ == Tree::List(all),
                        out@.len() == i,
                        forall|j: int| 0 <= j < i ==> artifact_readable(#[trigger] all[j]),
                        forall|j: int| 0 <= j < i ==> artifact_reads(all[j], #[trigger] out@[j]),
                    decreases items@.len() - i,
                {
                    assert(all[i as int] == items@[i as int]@);
                    match read_artifact(&items[i]) {
                        Some(value) => out.push(value),
                        None => {
                            assert(!all_artifact_readable(all));
                            return None;
                        },
                    }
                    i += 1;
                }
                Some(out)
            },
            _ => None,
        },
    }
}


/// The fields of a step of a configuration file can be read.
pub open spec fn step_fields_readable(t: Tree) -> bool {
    &&& t.only_fields(
        seq![
            "name"@,
            "run"@,
            "argv"@,
            "working_directory"@,
            "needs"@,
            "soft_needs"@,
            "voting"@,
            "final"@,
            "timeout"@,
            "cpu_tokens"@,
            "memory_bytes"@,
            "rss_limit_bytes"@,
            "semaphores"@,
            "include"@,
            "exclude"@,
            "environment"@,
            "remove_environment"@,
            "artifact"@,
        ],
    )
    &&& t.text_field("name"@, None) is Some
    &&& t.optional_text("run"@) is Some
    &&& t.optional_texts("argv"@) is Some
    &&& t.text_field("working_directory"@, Some("."@)) is Some
    &&& t.texts_field("needs"@, false) is Some
    &&& t.texts_field("soft_needs"@, false) is Some
    &&& t.bool_field("voting"@, Some(true)) is Some
    &&& t.bool_field("final"@, Some(false)) is Some
    &&& t.text_field("timeout"@, Some("60m"@)) is Some
    &&& t.number_field("cpu_tokens"@, Some(0u16 as nat), u16::MAX as nat) is Some
    &&& t.number_field("memory_bytes"@, Some(0u64 as nat), u64::MAX as nat) is Some
    &&& t.optional_number("rss_limit_bytes"@, u64::MAX as nat) is Some
    &&& t.texts_field("semaphores"@, false) is Some
    &&& t.texts_field("include"@, false) is Some
    &&& t.texts_field("exclude"@, false) is Some
    &&& (t.field("environment"@) matches Some(table) ==> table.is_text_table())
    &&& t.texts_field("remove_environment"@, false) is Some
    &&& artifact_list_readable(t)
}

/// Read as the fields of a step of a configuration file, the table gives this value.
pub open spec fn step_fields_read(t: Tree, out: StepFile) -> bool {
    &&& t.text_field("name"@, None) == Some(out.name@)
    &&& t.optional_text("run"@) == Some(match out.run { Some(text) => Some(text@), None => None })
    &&& t.optional_texts("argv"@) == Some(match out.argv { Some(items) => Some(texts(items@)), None => None })
    &&& t.text_field("working_directory"@, Some("."@)) == Some(out.working_directory@)
    &&& t.texts_field("needs"@, false) == Some(texts(out.needs@))
    &&& t.texts_field("soft_needs"@, false) == Some(texts(out.soft_needs@))
    &&& t.bool_field("voting"@, Some(true)) == Some(out.voting)
    &&& t.bool_field("final"@, Some(false)) == Some(out.final_step)
    &&& t.text_field("timeout"@, Some("60m"@)) == Some(out.timeout@)
    &&& t.number_field("cpu_tokens"@, Some(0u16 as nat), u16::MAX as nat) == Some(out.cpu_tokens as nat)
    &&& t.number_field("memory_bytes"@, Some(0u64 as nat), u64::MAX as nat) == Some(out.memory_bytes as nat)
    &&& t.optional_number("rss_limit_bytes"@, u64::MAX as nat) == Some(match out.rss_limit_bytes { Some(number) => Some(number as nat), None => None })
    &&& t.texts_field("semaphores"@, false) == Some(texts(out.semaphores@))
    &&& t.texts_field("include"@, false) == Some(texts(out.includes@))
    &&& t.texts_field("exclude"@, false) == Some(texts(out.excludes@))
    &&& (match t.field("environment"@) { Some(table) => table.maps_to(out.environment@), None => out.environment@ == Map::<Seq<char>, String>::empty() })
    &&& t.texts_field("remove_environment"@, false) == Some(texts(out.remove_environment@))
    &&& artifact_list_reads(t, out.artifact@)
}

fn read_step_fields(document: &Document) -> (r: Option<StepFile>)
    ensures
        r is Some <==> step_fields_readable(document@),
        r matches Some(out) ==> step_fields_read(document@, out),
{
    let names = [
        "name",
        "run",
        "argv",
        "working_directory",
        "needs",
        "soft_needs",
        "voting",
        "final",
        "timeout",
        "cpu_tokens",
        "memory_bytes",
        "rss_limit_bytes",
        "semaphores",
        "include",
        "exclude",
        "environment",
        "remove_environment",
        "artifact",
    ];
    proof {
        assert(names_of(names@) =~= seq![
            "name"@,
            "run"@,
            "argv"@,
            "working_directory"@,
            "needs"@,
            "soft_needs"@,
            "voting"@,
            "final"@,
            "timeout"@,
            "cpu_tokens"@,
            "memory_bytes"@,
            "rss_limit_bytes"@,
            "semaphores"@,
            "include"@,
            "exclude"@,
            "environment"@,
            "remove_environment"@,
            "artifact"@,
        ]);
    }
    if !document.has_only(&names) {
        return None;
    }
    let name = match document.text_field("name", None) {
        Some(value) => value,
        None => {
            return None;
        },
    };
    let run = match document.optional_text("run") {
        Some(value) => value,
        None => {
            return None;
        },
    };
    let argv = match document.optional_texts("argv") {
        Some(value) => value,
        None => {
            return None;
        },
    };
    let working_directory = match document.text_field("working_directory", Some(".")) {
        Some(value) => value,
        None => {
            return None;
        },
    };
    let needs = match document.texts_field("needs", false) {
        Some(value) => value,
        None => {
            return None;
        },
    };
    let soft_needs = match document.texts_field("soft_needs", false) {
        Some(value) => value,
        None => {
            return None;
        },
    };
    let voting = match document.bool_field("voting", Some(true)) {
        Some(value) => value,
        None => {
            return None;
        },
    };
    let final_step = match document.bool_field("final", Some(false)) {
        Some(value) => value,
        None => {
            return None;
        },
    };
    let timeout = match document.text_field("timeout", Some("60m")) {
        Some(value) => value,
        None => {
            return None;
        },
    };
    let cpu_tokens: u16 = match document.number_field("cpu_tokens", Some(0u16 as u64), u16::MAX as u64) {
        Some(value) => value as u16,
        None => {
            return None;
        },
    };
    let memory_bytes: u64 = match document.number_field("memory_bytes", Some(0u64 as u64), u64::MAX) {
        Some(value) => value,
        None => {
            return None;
        },
    };
    let rss_limit_bytes = match document.optional_number("rss_limit_bytes", u64::MAX) {
        Some(value) => value,
        None => {
            return None;
        },
    };
    let semaphores = match document.texts_field("semaphores", false) {
        Some(value) => value,
        None => {
            return None;
        },
    };
    let includes = match document.texts_field("include", false) {
        Some(value) => value,
        None => {
            return None;
        },
    };
    let excludes = match document.texts_field("exclude", false) {
        Some(value) => value,
        None => {
            return None;
        },
    };
    let environment: TextMap<String> = match document.get("environment") {
        Some(table) => match table.read_text_map() {
            Some(map) => map,
            None => {
                return None;
            },
        },
        None => TextMap::new(),
    };
    let remove_environment = match document.texts_field("remove_environment", false) {
        Some(value) => value,
        None => {
            return None;
        },
    };
    let artifact = match read_artifact_list(document) {
        Some(value) => value,
        None => {
            return None;
        },
    };
    Some(StepFile { name, run, argv, working_directory, needs, soft_needs, voting, final_step, timeout, cpu_tokens, memory_bytes, rss_limit_bytes, semaphores, includes, excludes, environment, remove_environment, artifact })
}

/// The fields of a step of a configuration file, in order.
pub open spec fn step_order() -> Seq<Seq<char>> {
    seq![
        "name"@,
        "run"@,
        "argv"@,
        "working_directory"@,
        "needs"@,
        "soft_needs"@,
        "voting"@,
        "final"@,
        "timeout"@,
        "cpu_tokens"@,
        "memory_bytes"@,
        "rss_limit_bytes"@,
        "semaphores"@,
        "include"@,
        "exclude"@,
        "environment"@,
        "remove_environment"@,
        "artifact"@,
    ]
}

/// The document can be read as a step of a configuration file.
pub open spec fn step_readable(t: Tree) -> bool {
    step_fields_readable(record(t, step_order(), 12, false))
}

/// Read as a step of a configuration file, the document gives this value.
pub open spec fn step_reads(t: Tree, out: StepFile) -> bool {
    step_fields_read(record(t, step_order(), 12, false), out)
}

/// Reads a step of a configuration file.
fn read_step(document: &Document) -> (r: Option<StepFile>)
    ensures
        r is Some <==> step_readable(document@),
        r matches Some(out) ==> step_reads(document@, out),
{
    let names = [
        "name",
        "run",
        "argv",
        "working_directory",
        "needs",
        "soft_needs",
        "voting",
        "final",
        "timeout",
        "cpu_tokens",
        "memory_bytes",
        "rss_limit_bytes",
        "semaphores",
        "include",
        "exclude",
        "environment",
        "remove_environment",
        "artifact",
    ];
    assert(names_of(names@) =~= step_order());
    match document.as_record(&names, 12, false) {
        Some(table) => read_step_fields(&table),
        None => read_step_fields(document),
    }
}

/// Every one of the documents can be read.
pub open spec fn all_step_readable(items: Seq<Tree>) -> bool {
    forall|i: int| 0 <= i < items.len() ==> step_readable(#[trigger] items[i])
}

/// The field lists steps, each of which can be read, or is missing.
pub open spec fn step_list_readable(t: Tree) -> bool {
    match t.field("step"@) {
        None => true,
        Some(Tree::List(items)) => all_step_readable(items),
        Some(_) => false,
    }
}

/// The values are those that the field lists.
pub open spec fn step_list_reads(t: Tree, out: Seq<StepFile>) -> bool {
    match t.field("step"@) {
        Some(Tree::List(items)) => out.len() == items.len() && forall|i: int|
            0 <= i < out.len() ==> step_reads(items[i], #[trigger] out[i]),
        _ => out.len() == 0,
    }
}

fn read_step_list(document: &Document) -> (r: Option<Vec<StepFile>>)
    ensures
        r is Some <==> step_list_readable(document@),
        r matches Some(out) ==> step_list_reads(document@, out@),
{
    match document.get("step") {
        None => Some(Vec::new()),
        Some(list) => match list {
            Document::List(items) => {
                let ghost all = list@->List_0;
                let mut out: Vec<StepFile> = Vec::new();
                let mut i: usize = 0;
                while i < items.len()
                    invariant
                        i <= items@.len(),
                        all.len() == items@.len(),
                        document@.field("step"@) == Some(Tree::List(all)),
                        *list == Document::List(*items),
                        list@ == Tree::List(all),
                        out@.len() == i,
                        forall|j: int| 0 <= j < i ==> step_readable(#[trigger] all[j]),
                        forall|j: int| 0 <= j < i ==> step_reads(all[j], #[trigger] out@[j]),
                    decreases items@.len() - i,
                {
                    assert(all[i as int] == items@[i as int]@);
                    match read_step(&items[i]) {
                        Some(value) => out.push(value),
                        None => {
                            assert(!all_step_readable(all));
                            return None;
                        },
                    }
                    i += 1;
                }
                Some(out)
            },
            _ => None,
        },
    }
}


/// The fields of resources of a configuration file can be read.
pub open spec fn resources_fields_readable(t: Tree) -> bool {
    &&& t.only_fields(
        seq![
            "max_buildsets"@,
            "cpu_tokens"@,
            "memory_bytes"@,
            "repository_concurrency"@,
            "scheduler_weight"@,
            "volume_warning_bytes"@,
            "volume_critical_bytes"@,
            "volume_emergency_bytes"@,
        ],
    )
    &&& t.number_field("max_buildsets"@, Some(DEFAULT_MAX_BUILDSETS as nat), u16::MAX as nat) is Some
    &&& t.number_field("cpu_tokens"@, Some(0u16 as nat), u16::MAX as nat) is Some
    &&& t.number_field("memory_bytes"@, Some(0u64 as nat), u64::MAX as nat) is Some
    &&& t.number_field("repository_concurrency"@, Some(DEFAULT_REPOSITORY_CONCURRENCY as nat), u16::MAX as nat) is Some
    &&& t.number_field("scheduler_weight"@, Some(DEFAULT_SCHEDULER_WEIGHT as nat), u16::MAX as nat) is Some
    &&& t.number_field("volume_warning_bytes"@, Some(DEFAULT_VOLUME_WARNING_BYTES as nat), u64::MAX as nat) is Some
    &&& t.number_field("volume_critical_bytes"@, Some(DEFAULT_VOLUME_CRITICAL_BYTES as nat), u64::MAX as nat) is Some
    &&& t.number_field("volume_emergency_bytes"@, Some(DEFAULT_VOLUME_EMERGENCY_BYTES as nat), u64::MAX as nat) is Some
}

/// Read as the fields of resources of a configuration file, the table gives this value.
pub open spec fn resources_fields_read(t: Tree, out: ResourceFile) -> bool {
    &&& t.number_field("max_buildsets"@, Some(DEFAULT_MAX_BUILDSETS as nat), u16::MAX as nat) == Some(out.max_buildsets as nat)
    &&& t.number_field("cpu_tokens"@, Some(0u16 as nat), u16::MAX as nat) == Some(out.cpu_tokens as nat)
    &&& t.number_field("memory_bytes"@, Some(0u64 as nat), u64::MAX as nat) == Some(out.memory_bytes as nat)
    &&& t.number_field("repository_concurrency"@, Some(DEFAULT_REPOSITORY_CONCURRENCY as nat), u16::MAX as nat) == Some(out.repository_concurrency as nat)
    &&& t.number_field("scheduler_weight"@, Some(DEFAULT_SCHEDULER_WEIGHT as nat), u16::MAX as nat) == Some(out.scheduler_weight as nat)
    &&& t.number_field("volume_warning_bytes"@, Some(DEFAULT_VOLUME_WARNING_BYTES as nat), u64::MAX as nat) == Some(out.volume_warning_bytes as nat)
    &&& t.number_field("volume_critical_bytes"@, Some(DEFAULT_VOLUME_CRITICAL_BYTES as nat), u64::MAX as nat) == Some(out.volume_critical_bytes as nat)
    &&& t.number_field("volume_emergency_bytes"@, Some(DEFAULT_VOLUME_EMERGENCY_BYTES as nat), u64::MAX as nat) == Some(out.volume_emergency_bytes as nat)
}

fn read_resources_fields(document: &Document) -> (r: Option<ResourceFile>)
    ensures
        r is Some <==> resources_fields_readable(document@),
        r matches Some(out) ==> resources_fields_read(document@, out),
{
    let names = [
        "max_buildsets",
        "cpu_tokens",
        "memory_bytes",
        "repository_concurrency",
        "scheduler_weight",
        "volume_warning_bytes",
        "volume_critical_bytes",
        "volume_emergency_bytes",
    ];
    proof {
        assert(names_of(names@) =~= seq![
            "max_buildsets"@,
            "cpu_tokens"@,
            "memory_bytes"@,
            "repository_concurrency"@,
            "scheduler_weight"@,
            "volume_warning_bytes"@,
            "volume_critical_bytes"@,
            "volume_emergency_bytes"@,
        ]);
    }
    if !document.has_only(&names) {
        return None;
    }
    let max_buildsets: u16 = match document.number_field("max_buildsets", Some(DEFAULT_MAX_BUILDSETS as u64), u16::MAX as u64) {
        Some(value) => value as u16,
        None => {
            return None;
        },
    };
    let cpu_tokens: u16 = match document.number_field("cpu_tokens", Some(0u16 as u64), u16::MAX as u64) {
        Some(value) => value as u16,
        None => {
            return None;
        },
    };
    let memory_bytes: u64 = match document.number_field("memory_bytes", Some(0u64 as u64), u64::MAX) {
        Some(value) => value,
        None => {
            return None;
        },
    };
    let repository_concurrency: u16 = match document.number_field("repository_concurrency", Some(DEFAULT_REPOSITORY_CONCURRENCY as u64), u16::MAX as u64) {
        Some(value) => value as u16,
        None => {
            return None;
        },
    };
    let scheduler_weight: u16 = match document.number_field("scheduler_weight", Some(DEFAULT_SCHEDULER_WEIGHT as u64), u16::MAX as u64) {
        Some(value) => value as u16,
        None => {
            return None;
        },
    };
    let volume_warning_bytes: u64 = match document.number_field("volume_warning_bytes", Some(DEFAULT_VOLUME_WARNING_BYTES as u64), u64::MAX) {
        Some(value) => value,
        None => {
            return None;
        },
    };
    let volume_critical_bytes: u64 = match document.number_field("volume_critical_bytes", Some(DEFAULT_VOLUME_CRITICAL_BYTES as u64), u64::MAX) {
        Some(value) => value,
        None => {
            return None;
        },
    };
    let volume_emergency_bytes: u64 = match document.number_field("volume_emergency_bytes", Some(DEFAULT_VOLUME_EMERGENCY_BYTES as u64), u64::MAX) {
        Some(value) => value,
        None => {
            return None;
        },
    };
    Some(ResourceFile { max_buildsets, cpu_tokens, memory_bytes, repository_concurrency, scheduler_weight, volume_warning_bytes, volume_critical_bytes, volume_emergency_bytes })
}

/// The fields of resources of a configuration file, in order.
pub open spec fn resources_order() -> Seq<Seq<char>> {
    seq![
        "max_buildsets"@,
        "cpu_tokens"@,
        "memory_bytes"@,
        "repository_concurrency"@,
        "scheduler_weight"@,
        "volume_warning_bytes"@,
        "volume_critical_bytes"@,
        "volume_emergency_bytes"@,
    ]
}

/// The document can be read as the resources section.
pub open spec fn resources_readable(t: Tree) -> bool {
    resources_fields_readable(record(t, resources_order(), 0, false))
}

/// Read as the resources section, the document gives this value.
pub open spec fn resources_reads(t: Tree, out: ResourceFile) -> bool {
    resources_fields_read(record(t, resources_order(), 0, false), out)
}

/// Reads the resources section.
fn read_resources(document: &Document) -> (r: Option<ResourceFile>)
    ensures
        r is Some <==> resources_readable(document@),
        r matches Some(out) ==> resources_reads(document@, out),
{
    let names = [
        "max_buildsets",
        "cpu_tokens",
        "memory_bytes",
        "repository_concurrency",
        "scheduler_weight",
        "volume_warning_bytes",
        "volume_critical_bytes",
        "volume_emergency_bytes",
    ];
    assert(names_of(names@) =~= resources_order());
    match document.as_record(&names, 0, false) {
        Some(table) => read_resources_fields(&table),
        None => read_resources_fields(document),
    }
}

/// The section can be read, or is missing.
pub open spec fn resources_section_readable(t: Tree) -> bool {
    t.field("resources"@) matches Some(section) ==> resources_readable(section)
}

/// The value is that of the section, or the default where it is missing.
pub open spec fn resources_section_reads(t: Tree, out: ResourceFile) -> bool {
    match t.field("resources"@) {
        Some(section) => resources_reads(section, out),
        None => out == (ResourceFile {
            max_buildsets: 0,
            cpu_tokens: 0,
            memory_bytes: 0,
            repository_concurrency: 0,
            scheduler_weight: 0,
            volume_warning_bytes: 0,
            volume_critical_bytes: 0,
            volume_emergency_bytes: 0,
        }),
    }
}

fn read_resources_section(document: &Document) -> (r: Option<ResourceFile>)
    ensures
        r is Some <==> resources_section_readable(document@),
        r matches Some(out) ==> resources_section_reads(document@, out),
{
    match document.get("resources") {
        Some(section) => read_resources(section),
        None => Some(ResourceFile::default()),
    }
}


/// The fields of a remote of a configuration file can be read.
pub open spec fn remote_fields_readable(t: Tree) -> bool {
    &&& t.only_fields(
        seq![
            "enabled"@,
            "name"@,
            "branch"@,
        ],
    )
    &&& t.bool_field("enabled"@, Some(false)) is Some
    &&& t.text_field("name"@, Some("origin"@)) is Some
    &&& t.text_field("branch"@, Some("master"@)) is Some
}

/// Read as the fields of a remote of a configuration file, the table gives this value.
pub open spec fn remote_fields_read(t: Tree, out: RemoteFile) -> bool {
    &&& t.bool_field("enabled"@, Some(false)) == Some(out.enabled)
    &&& t.text_field("name"@, Some("origin"@)) == Some(out.name@)
    &&& t.text_field("branch"@, Some("master"@)) == Some(out.branch@)
}

fn read_remote_fields(document: &Document) -> (r: Option<RemoteFile>)
    ensures
        r is Some <==> remote_fields_readable(document@),
        r matches Some(out) ==> remote_fields_read(document@, out),
{
    let names = [
        "enabled",
        "name",
        "branch",
    ];
    proof {
        assert(names_of(names@) =~= seq![
            "enabled"@,
            "name"@,
            "branch"@,
        ]);
    }
    if !document.has_only(&names) {
        return None;
    }
    let enabled = match document.bool_field("enabled", Some(false)) {
        Some(value) => value,
        None => {
            return None;
        },
    };
    let name = match document.text_field("name", Some("origin")) {
        Some(value) => value,
        None => {
            return None;
        },
    };
    let branch = match document.text_field("branch", Some("master")) {
        Some(value) => value,
        None => {
            return None;
        },
    };
    Some(RemoteFile { enabled, name, branch })
}

/// The fields of a remote of a configuration file, in order.
pub open spec fn remote_order() -> Seq<Seq<char>> {
    seq![
        "enabled"@,
        "name"@,
        "branch"@,
    ]
}

/// The document can be read as the remote section.
pub open spec fn remote_readable(t: Tree) -> bool {
    remote_fields_readable(record(t, remote_order(), 0, false))
}

/// Read as the remote section, the document gives this value.
pub open spec fn remote_reads(t: Tree, out: RemoteFile) -> bool {
    remote_fields_read(record(t, remote_order(), 0, false), out)
}

/// Reads the remote section.
fn read_remote(document: &Document) -> (r: Option<RemoteFile>)
    ensures
        r is Some <==> remote_readable(document@),
        r matches Some(out) ==> remote_reads(document@, out),
{
    let names = [
        "enabled",
        "name",
        "branch",
    ];
    assert(names_of(names@) =~= remote_order());
    match document.as_record(&names, 0, false) {
        Some(table) => read_remote_fields(&table),
        None => read_remote_fields(document),
    }
}

/// The section can be read, or is missing.
pub open spec fn remote_section_readable(t: Tree) -> bool {
    t.field("remote"@) matches Some(section) ==> remote_readable(section)
}

/// The value is that of the section, or the default where it is missing.
pub open spec fn remote_section_reads(t: Tree, out: RemoteFile) -> bool {
    match t.field("remote"@) {
        Some(section) => remote_reads(section, out),
        None => !out.enabled && out.name@ == "origin"@ && out.branch@ == "master"@,
    }
}

fn read_remote_section(document: &Document) -> (r: Option<RemoteFile>)
    ensures
        r is Some <==> remote_section_readable(document@),
        r matches Some(out) ==> remote_section_reads(document@, out),
{
    match document.get("remote") {
        Some(section) => read_remote(section),
        None => Some(RemoteFile::default()),
    }
}


/// The fields of a cached path of a configuration file can be read.
pub open spec fn cache_path_fields_readable(t: Tree) -> bool {
    &&& t.only_fields(
        seq![
            "path"@,
            "policy"@,
        ],
    )
    &&& t.text_field("path"@, None) is Some
    &&& policy_readable(t, false)
}

/// Read as the fields of a cached path of a configuration file, the table gives this value.
pub open spec fn cache_path_fields_read(t: Tree, out: CachePathFile) -> bool {
    &&& t.text_field("path"@, None) == Some(out.path@)
    &&& policy_reads(t, out.policy, false)
}

fn read_cache_path_fields(document: &Document) -> (r: Option<CachePathFile>)
    ensures
        r is Some <==> cache_path_fields_readable(document@),
        r matches Some(out) ==> cache_path_fields_read(document@, out),
{
    let names = [
        "path",
        "policy",
    ];
    proof {
        assert(names_of(names@) =~= seq![
            "path"@,
            "policy"@,
        ]);
    }
    if !document.has_only(&names) {
        return None;
    }
    let path = match document.text_field("path", None) {
        Some(value) => value,
        None => {
            return None;
        },
    };
    let policy = match read_policy(document, false) {
        Some(value) => value,
        None => {
            return None;
        },
    };
    Some(CachePathFile { path, policy })
}

/// The fields of a cached path of a configuration file, in order.
pub open spec fn cache_path_order() -> Seq<Seq<char>> {
    seq![
        "path"@,
        "policy"@,
    ]
}

/// The document can be read as a cached path.
pub open spec fn cache_path_readable(t: Tree) -> bool {
    cache_path_fields_readable(record(t, cache_path_order(), 1, false))
}

/// Read as a cached path, the document gives this value.
pub open spec fn cache_path_reads(t: Tree, out: CachePathFile) -> bool {
    cache_path_fields_read(record(t, cache_path_order(), 1, false), out)
}

/// Reads a cached path.
fn read_cache_path(document: &Document) -> (r: Option<CachePathFile>)
    ensures
        r is Some <==> cache_path_readable(document@),
        r matches Some(out) ==> cache_path_reads(document@, out),
{
    let names = [
        "path",
        "policy",
    ];
    assert(names_of(names@) =~= cache_path_order());
    match document.as_record(&names, 1, false) {
        Some(table) => read_cache_path_fields(&table),
        None => read_cache_path_fields(document),
    }
}

/// Every one of the documents can be read.
pub open spec fn all_cache_path_readable(items: Seq<Tree>) -> bool {
    forall|i: int| 0 <= i < items.len() ==> cache_path_readable(#[trigger] items[i])
}

/// The field lists cached paths, each of which can be read, or is missing.
pub open spec fn cache_path_list_readable(t: Tree) -> bool {
    match t.field("paths"@) {
        None => true,
        Some(Tree::List(items)) => all_cache_path_readable(items),
        Some(_) => false,
    }
}

/// The values are those that the field lists.
pub open spec fn cache_path_list_reads(t: Tree, out: Seq<CachePathFile>) -> bool {
    match t.field("paths"@) {
        Some(Tree::List(items)) => out.len() == items.len() && forall|i: int|
            0 <= i < out.len() ==> cache_path_reads(items[i], #[trigger] out[i]),
        _ => out.len() == 0,
    }
}

fn read_cache_path_list(document: &Document) -> (r: Option<Vec<CachePathFile>>)
    ensures
        r is Some <==> cache_path_list_readable(document@),
        r matches Some(out) ==> cache_path_list_reads(document@, out@),
{
    match document.get("paths") {
        None => Some(Vec::new()),
        Some(list) => match list {
            Document::List(items) => {
                let ghost all = list@->List_0;
                let mut out: Vec<CachePathFile> = Vec::new();
                let mut i: usize = 0;
                while i < items.len()
                    invariant
                        i <= items@.len(),
                        all.len() == items@.len(),
                        document@.field("paths"@) == Some(Tree::List(all)),
                        *list == Document::List(*items),
                        list@ == Tree::List(all),
                        out@.len() == i,
                        forall|j: int| 0 <= j < i ==> cache_path_readable(#[trigger] all[j]),
                        forall|j: int| 0 <= j < i ==> cache_path_reads(all[j], #[trigger] out@[j]),
                    decreases items@.len() - i,
                {
                    assert(all[i as int] == items@[i as int]@);
                    match read_cache_path(&items[i]) {
                        Some(value) => out.push(value),
                        None => {
                            assert(!all_cache_path_readable(all));
                            return None;
                        },
                    }
                    i += 1;
                }
                Some(out)
            },
            _ => None,
        },
    }
}


/// The fields of a cache of a configuration file can be read.
pub open spec fn cache_fields_readable(t: Tree) -> bool {
    &&& t.only_fields(
        seq![
            "epoch"@,
            "paths"@,
        ],
    )
    &&& t.number_field("epoch"@, Some(0u64 as nat), u64::MAX as nat) is Some
    &&& cache_path_list_readable(t)
}

/// Read as the fields of a cache of a configuration file, the table gives this value.
pub open spec fn cache_fields_read(t: Tree, out: CacheFile) -> bool {
    &&& t.number_field("epoch"@, Some(0u64 as nat), u64::MAX as nat) == Some(out.epoch as nat)
    &&& cache_path_list_reads(t, out.paths@)
}

fn read_cache_fields(document: &Document) -> (r: Option<CacheFile>)
    ensures
        r is Some <==> cache_fields_readable(document@),
        r matches Some(out) ==> cache_fields_read(document@, out),
{
    let names = [
        "epoch",
        "paths",
    ];
    proof {
        assert(names_of(names@) =~= seq![
            "epoch"@,
            "paths"@,
        ]);
    }
    if !document.has_only(&names) {
        return None;
    }
    let epoch: u64 = match document.number_field("epoch", Some(0u64 as u64), u64::MAX) {
        Some(value) => value,
        None => {
            return None;
        },
    };
    let paths = match read_cache_path_list(document) {
        Some(value) => value,
        None => {
            return None;
        },
    };
    Some(CacheFile { epoch, paths })
}

/// The fields of a cache of a configuration file, in order.
pub open spec fn cache_order() -> Seq<Seq<char>> {
    seq![
        "epoch"@,
        "paths"@,
    ]
}

/// The document can be read as the cache section.
pub open spec fn cache_readable(t: Tree) -> bool {
    cache_fields_readable(record(t, cache_order(), 0, false))
}

/// Read as the cache section, the document gives this value.
pub open spec fn cache_reads(t: Tree, out: CacheFile) -> bool {
    cache_fields_read(record(t, cache_order(), 0, false), out)
}

/// Reads the cache section.
fn read_cache(document: &Document) -> (r: Option<CacheFile>)
    ensures
        r is Some <==> cache_readable(document@),
        r matches Some(out) ==> cache_reads(document@, out),
{
    let names = [
        "epoch",
        "paths",
    ];
    assert(names_of(names@) =~= cache_order());
    match document.as_record(&names, 0, false) {
        Some(table) => read_cache_fields(&table),
        None => read_cache_fields(document),
    }
}

/// The section can be read, or is missing.
pub open spec fn cache_section_readable(t: Tree) -> bool {
    t.field("cache"@) matches Some(section) ==> cache_readable(section)
}

/// The value is that of the section, or the default where it is missing.
pub open spec fn cache_section_reads(t: Tree, out: CacheFile) -> bool {
    match t.field("cache"@) {
        Some(section) => cache_reads(section, out),
        None => out.epoch == 0 && out.paths@.len() == 0,
    }
}

fn read_cache_section(document: &Document) -> (r: Option<CacheFile>)
    ensures
        r is Some <==> cache_section_readable(document@),
        r matches Some(out) ==> cache_section_reads(document@, out),
{
    match document.get("cache") {
        Some(section) => read_cache(section),
        None => Some(CacheFile::default()),
    }
}


/// The fields of a configuration file.
pub open spec fn config_names() -> Seq<Seq<char>> {
    seq![
        "version"@,
        "runner"@,
        "allow_no_job"@,
        "allow_concurrent_roots"@,
        "sync_user_master"@,
        "step"@,
        "resources"@,
        "remote"@,
        "cache"@,
    ]
}

/// The document can be read as a configuration file.
pub open spec fn config_readable(t: Tree) -> bool {
    &&& t.only_fields(config_names())
    &&& t.number_field("version"@, None::<nat>, u16::MAX as nat) is Some
    &&& t.optional_texts("runner"@) is Some
    &&& t.bool_field("allow_no_job"@, Some(false)) is Some
    &&& t.bool_field("allow_concurrent_roots"@, Some(false)) is Some
    &&& t.bool_field("sync_user_master"@, Some(true)) is Some
    &&& step_list_readable(t)
    &&& resources_section_readable(t)
    &&& remote_section_readable(t)
    &&& cache_section_readable(t)
}

/// Read as a configuration file, the document gives this value.
pub open spec fn config_reads(t: Tree, out: ConfigFile) -> bool {
    &&& t.number_field("version"@, None::<nat>, u16::MAX as nat) == Some(out.version as nat)
    &&& t.optional_texts("runner"@) == Some(match out.runner { Some(items) => Some(texts(items@)), None => None })
    &&& t.bool_field("allow_no_job"@, Some(false)) == Some(out.allow_no_job)
    &&& t.bool_field("allow_concurrent_roots"@, Some(false)) == Some(out.allow_concurrent_roots)
    &&& t.bool_field("sync_user_master"@, Some(true)) == Some(out.sync_user_master)
    &&& step_list_reads(t, out.step@)
    &&& resources_section_reads(t, out.resources)
    &&& remote_section_reads(t, out.remote)
    &&& cache_section_reads(t, out.cache)
}

/// Reads a configuration file.
fn read_config(document: &Document) -> (r: Option<ConfigFile>)
    ensures
        r is Some <==> config_readable(document@),
        r matches Some(out) ==> config_reads(document@, out),
{
    let names = [
        "version",
        "runner",
        "allow_no_job",
        "allow_concurrent_roots",
        "sync_user_master",
        "step",
        "resources",
        "remote",
        "cache",
    ];
    assert(names_of(names@) =~= config_names());
    if !document.has_only(&names) {
        return None;
    }
    let version: u16 = match document.number_field("version", None, u16::MAX as u64) {
        Some(value) => value as u16,
        None => {
            return None;
        },
    };
    let runner = match document.optional_texts("runner") {
        Some(value) => value,
        None => {
            return None;
        },
    };
    let allow_no_job = match document.bool_field("allow_no_job", Some(false)) {
        Some(value) => value,
        None => {
            return None;
        },
    };
    let allow_concurrent_roots = match document.bool_field("allow_concurrent_roots", Some(false)) {
        Some(value) => value,
        None => {
            return None;
        },
    };
    let sync_user_master = match document.bool_field("sync_user_master", Some(true)) {
        Some(value) => value,
        None => {
            return None;
        },
    };
    let step = match read_step_list(document) {
        Some(value) => value,
        None => {
            return None;
        },
    };
    let resources = match read_resources_section(document) {
        Some(value) => value,
        None => {
            return None;
        },
    };
    let remote = match read_remote_section(document) {
        Some(value) => value,
        None => {
            return None;
        },
    };
    let cache = match read_cache_section(document) {
        Some(value) => value,
        None => {
            return None;
        },
    };
    Some(ConfigFile { version, runner, allow_no_job, allow_concurrent_roots, sync_user_master, step, resources, remote, cache })
}

/// The field of a configuration file that is missing where it must not be, or cannot be
/// read: the first one.
pub open spec fn refused_field(t: Tree) -> Seq<char> {
    if t.number_field("version"@, None::<nat>, u16::MAX as nat) is None {
        "version"@
    } else if t.optional_texts("runner"@) is None {
        "runner"@
    } else if t.bool_field("allow_no_job"@, Some(false)) is None {
        "allow_no_job"@
    } else if t.bool_field("allow_concurrent_roots"@, Some(false)) is None {
        "allow_concurrent_roots"@
    } else if t.bool_field("sync_user_master"@, Some(true)) is None {
        "sync_user_master"@
    } else if !step_list_readable(t) {
        "step"@
    } else if !resources_section_readable(t) {
        "resources"@
    } else if !remote_section_readable(t) {
        "remote"@
    } else {
        "cache"@
    }
}

/// What is said of a document that cannot be read as a configuration file.
pub open spec fn config_complaint(t: Tree) -> Seq<char> {
    match t {
        Tree::Table(entries) => match stranger(entries, config_names()) {
            Some(name) => "unknown field `"@ + name + "`"@,
            None => "missing or malformed field `"@ + refused_field(t) + "`"@,
        },
        _ => "the configuration is no table"@,
    }
}

fn find_refused(document: &Document) -> (r: &'static str)
    ensures
        r@ == refused_field(document@),
{
    if document.number_field("version", None, u16::MAX as u64).is_none() {
        "version"
    } else if document.optional_texts("runner").is_none() {
        "runner"
    } else if document.bool_field("allow_no_job", Some(false)).is_none() {
        "allow_no_job"
    } else if document.bool_field("allow_concurrent_roots", Some(false)).is_none() {
        "allow_concurrent_roots"
    } else if document.bool_field("sync_user_master", Some(true)).is_none() {
        "sync_user_master"
    } else if read_step_list(document).is_none() {
        "step"
    } else if read_resources_section(document).is_none() {
        "resources"
    } else if read_remote_section(document).is_none() {
        "remote"
    } else {
        "cache"
    }
}

/// Says why a document cannot be read as a configuration file.
fn complain(document: &Document) -> (r: String)
    ensures
        r@ == config_complaint(document@),
{
    match document {
        Document::Table(_) => {
            let names = [
                "version",
                "runner",
                "allow_no_job",
                "allow_concurrent_roots",
                "sync_user_master",
                "step",
                "resources",
                "remote",
                "cache",
            ];
            assert(names_of(names@) =~= config_names());
            match document.unknown_field(&names) {
                Some(name) => concat3("unknown field `", name.as_str(), "`"),
                None => {
                    proof {
                        lemma_no_stranger(document@->Table_0, config_names());
                    }
                    concat3("missing or malformed field `", find_refused(document), "`")
                },
            }
        },
        _ => "the configuration is no table".to_owned(),
    }
}

proof fn lemma_no_stranger(entries: Seq<(Seq<char>, Tree)>, names: Seq<Seq<char>>)
    requires
        all_named(entries, names),
    ensures
        stranger(entries, names) is None,
    decreases entries.len(),
{
    if entries.len() > 0 {
        assert(names.contains(entries[0].0));
        lemma_no_stranger(entries.drop_first(), names);
    }
}

/// The fields of a stored command can be read.
pub open spec fn stored_command_fields_readable(t: Tree) -> bool {
    match t.text_field("kind"@, None) {
        Some(kind) => if kind == "shell"@ {
            t.text_field("script"@, None) is Some
        } else {
            kind == "argv"@ && t.texts_field("argv"@, true) is Some
        },
        None => false,
    }
}

/// Read as the fields of a stored command, the table gives this value.
pub open spec fn stored_command_fields_read(t: Tree, command: EffectiveCommand) -> bool {
    match command {
        EffectiveCommand::Shell { script } => t.text_field("kind"@, None) == Some("shell"@)
            && t.text_field("script"@, None) == Some(script@),
        EffectiveCommand::Argv { argv } => t.text_field("kind"@, None) == Some("argv"@)
            && t.texts_field("argv"@, true) == Some(texts(argv@)),
    }
}

fn read_stored_command_fields(document: &Document) -> (r: Option<EffectiveCommand>)
    ensures
        r is Some <==> stored_command_fields_readable(document@),
        r matches Some(command) ==> stored_command_fields_read(document@, command),
{
    match document.text_field("kind", None) {
        Some(kind) => if crate::text::str_equal(kind.as_str(), "shell") {
            match document.text_field("script", None) {
                Some(script) => Some(EffectiveCommand::Shell { script }),
                None => None,
            }
        } else if crate::text::str_equal(kind.as_str(), "argv") {
            match document.texts_field("argv", true) {
                Some(argv) => Some(EffectiveCommand::Argv { argv }),
                None => None,
            }
        } else {
            None
        },
        None => None,
    }
}

/// A stored command, which may be written as a list of its kind and what is to be run.
pub open spec fn stored_command_record(t: Tree) -> Tree {
    if first_text(t) == Some("shell"@) {
        record(t, seq!["kind"@, "script"@], 2, true)
    } else {
        record(t, seq!["kind"@, "argv"@], 2, true)
    }
}

/// The document can be read as a stored command.
pub open spec fn stored_command_readable(t: Tree) -> bool {
    stored_command_fields_readable(stored_command_record(t))
}

/// Read as a stored command, the document gives this value.
pub open spec fn stored_command_reads(t: Tree, command: EffectiveCommand) -> bool {
    stored_command_fields_read(stored_command_record(t), command)
}

fn read_stored_command(document: &Document) -> (r: Option<EffectiveCommand>)
    ensures
        r is Some <==> stored_command_readable(document@),
        r matches Some(command) ==> stored_command_reads(document@, command),
{
    let shell = match document.read_first_text() {
        Some(kind) => crate::text::str_equal(kind.as_str(), "shell"),
        None => false,
    };
    let names = [
        "kind",
        if shell {
            "script"
        } else {
            "argv"
        },
    ];
    proof {
        if shell {
            assert(names_of(names@) =~= seq!["kind"@, "script"@]);
        } else {
            assert(names_of(names@) =~= seq!["kind"@, "argv"@]);
        }
    }
    match document.as_record(&names, 2, true) {
        Some(table) => read_stored_command_fields(&table),
        None => read_stored_command_fields(document),
    }
}

/// The command of a stored step can be read.
pub open spec fn command_field_readable(t: Tree) -> bool {
    t.field("command"@) matches Some(command) && stored_command_readable(command)
}

/// The command is that of the stored step.
pub open spec fn command_field_reads(t: Tree, command: EffectiveCommand) -> bool {
    t.field("command"@) matches Some(stored) && stored_command_reads(stored, command)
}

fn read_command_field(document: &Document) -> (r: Option<EffectiveCommand>)
    ensures
        r is Some <==> command_field_readable(document@),
        r matches Some(command) ==> command_field_reads(document@, command),
{
    match document.get("command") {
        Some(command) => read_stored_command(command),
        None => None,
    }
}

/// The fields of a stored artifact can be read.
pub open spec fn stored_artifact_fields_readable(t: Tree) -> bool {
    &&& t is Table
    &&& t.text_field("name"@, None) is Some
    &&& t.texts_field("patterns"@, true) is Some
    &&& t.bool_field("required"@, None) is Some
    &&& t.number_field("retention_days"@, None::<nat>, u16::MAX as nat) is Some
}

/// Read as the fields of a stored artifact, the table gives this value.
pub open spec fn stored_artifact_fields_read(t: Tree, out: EffectiveArtifact) -> bool {
    &&& t.text_field("name"@, None) == Some(out.name@)
    &&& t.texts_field("patterns"@, true) == Some(texts(out.patterns@))
    &&& t.bool_field("required"@, None) == Some(out.required)
    &&& t.number_field("retention_days"@, None::<nat>, u16::MAX as nat) == Some(out.retention_days as nat)
}

fn read_stored_artifact_fields(document: &Document) -> (r: Option<EffectiveArtifact>)
    ensures
        r is Some <==> stored_artifact_fields_readable(document@),
        r matches Some(out) ==> stored_artifact_fields_read(document@, out),
{
    match document {
        Document::Table(_) => {},
        _ => {
            return None;
        },
    }
    let name = match document.text_field("name", None) {
        Some(value) => value,
        None => {
            return None;
        },
    };
    let patterns = match document.texts_field("patterns", true) {
        Some(value) => value,
        None => {
            return None;
        },
    };
    let required = match document.bool_field("required", None) {
        Some(value) => value,
        None => {
            return None;
        },
    };
    let retention_days: u16 = match document.number_field("retention_days", None, u16::MAX as u64) {
        Some(value) => value as u16,
        None => {
            return None;
        },
    };
    Some(EffectiveArtifact { name, patterns, required, retention_days })
}

/// The fields of a stored artifact, in order.
pub open spec fn stored_artifact_order() -> Seq<Seq<char>> {
    seq![
        "name"@,
        "patterns"@,
        "required"@,
        "retention_days"@,
    ]
}

/// The document can be read as a stored artifact.
pub open spec fn stored_artifact_readable(t: Tree) -> bool {
    stored_artifact_fields_readable(record(t, stored_artifact_order(), 4, true))
}

/// Read as a stored artifact, the document gives this value.
pub open spec fn stored_artifact_reads(t: Tree, out: EffectiveArtifact) -> bool {
    stored_artifact_fields_read(record(t, stored_artifact_order(), 4, true), out)
}

/// Reads a stored artifact.
fn read_stored_artifact(document: &Document) -> (r: Option<EffectiveArtifact>)
    ensures
        r is Some <==> stored_artifact_readable(document@),
        r matches Some(out) ==> stored_artifact_reads(document@, out),
{
    let names = [
        "name",
        "patterns",
        "required",
        "retention_days",
    ];
    assert(names_of(names@) =~= stored_artifact_order());
    match document.as_record(&names, 4, true) {
        Some(table) => read_stored_artifact_fields(&table),
        None => read_stored_artifact_fields(document),
    }
}

/// Every one of the documents can be read.
pub open spec fn all_stored_artifact_readable(items: Seq<Tree>) -> bool {
    forall|i: int| 0 <= i < items.len() ==> stored_artifact_readable(#[trigger] items[i])
}

/// The field lists stored artifacts, each of which can be read.
pub open spec fn stored_artifact_list_readable(t: Tree) -> bool {
    match t.field("artifacts"@) {
        None => false,
        Some(Tree::List(items)) => all_stored_artifact_readable(items),
        Some(_) => false,
    }
}

/// The values are those that the field lists.
pub open spec fn stored_artifact_list_reads(t: Tree, out: Seq<EffectiveArtifact>) -> bool {
    match t.field("artifacts"@) {
        Some(Tree::List(items)) => out.len() == items.len() && forall|i: int|
            0 <= i < out.len() ==> stored_artifact_reads(items[i], #[trigger] out[i]),
        _ => out.len() == 0,
    }
}

fn read_stored_artifact_list(document: &Document) -> (r: Option<Vec<EffectiveArtifact>>)
    ensures
        r is Some <==> stored_artifact_list_readable(document@),
        r matches Some(out) ==> stored_artifact_list_reads(document@, out@),
{
    match document.get("artifacts") {
        None => None,
        Some(list) => match list {
            Document::List(items) => {
                let ghost all = list@->List_0;
                let mut out: Vec<EffectiveArtifact> = Vec::new();
                let mut i: usize = 0;
                while i < items.len()
                    invariant
                        i <= items@.len(),
                        all.len() == items@.len(),
                        document@.field("artifacts"@) == Some(Tree::List(all)),
                        *list == Document::List(*items),
                        list@ == Tree::List(all),
                        out@.len() == i,
                        forall|j: int| 0 <= j < i ==> stored_artifact_readable(#[trigger] all[j]),
                        forall|j: int| 0 <= j < i ==> stored_artifact_reads(all[j], #[trigger] out@[j]),
                    decreases items@.len() - i,
                {
                    assert(all[i as int] == items@[i as int]@);
                    match read_stored_artifact(&items[i]) {
                        Some(value) => out.push(value),
                        None => {
                            assert(!all_stored_artifact_readable(all));
                            return None;
                        },
                    }
                    i += 1;
                }
                Some(out)
            },
            _ => None,
        },
    }
}


/// The fields of a stored step can be read.
pub open spec fn stored_step_fields_readable(t: Tree) -> bool {
    &&& t is Table
    &&& t.text_field("name"@, None) is Some
    &&& command_field_readable(t)
    &&& t.text_field("working_directory"@, None) is Some
    &&& t.texts_field("needs"@, true) is Some
    &&& t.texts_field("soft_needs"@, true) is Some
    &&& t.bool_field("voting"@, None) is Some
    &&& t.bool_field("final_step"@, None) is Some
    &&& t.number_field("timeout_ns"@, None::<nat>, u64::MAX as nat) is Some
    &&& t.number_field("cpu_tokens"@, None::<nat>, u16::MAX as nat) is Some
    &&& t.number_field("memory_bytes"@, None::<nat>, u64::MAX as nat) is Some
    &&& t.optional_number("rss_limit_bytes"@, u64::MAX as nat) is Some
    &&& t.texts_field("semaphores"@, true) is Some
    &&& t.texts_field("include"@, true) is Some
    &&& t.texts_field("exclude"@, true) is Some
    &&& (t.field("environment"@) matches Some(table) && table.is_text_table())
    &&& t.texts_field("remove_environment"@, true) is Some
    &&& stored_artifact_list_readable(t)
}

/// Read as the fields of a stored step, the table gives this value.
pub open spec fn stored_step_fields_read(t: Tree, out: EffectiveStep) -> bool {
    &&& t.text_field("name"@, None) == Some(out.name@)
    &&& command_field_reads(t, out.command)
    &&& t.text_field("working_directory"@, None) == Some(out.working_directory@)
    &&& t.texts_field("needs"@, true) == Some(texts(out.needs@))
    &&& t.texts_field("soft_needs"@, true) == Some(texts(out.soft_needs@))
    &&& t.bool_field("voting"@, None) == Some(out.voting)
    &&& t.bool_field("final_step"@, None) == Some(out.final_step)
    &&& t.number_field("timeout_ns"@, None::<nat>, u64::MAX as nat) == Some(out.timeout_ns as nat)
    &&& t.number_field("cpu_tokens"@, None::<nat>, u16::MAX as nat) == Some(out.cpu_tokens as nat)
    &&& t.number_field("memory_bytes"@, None::<nat>, u64::MAX as nat) == Some(out.memory_bytes as nat)
    &&& t.optional_number("rss_limit_bytes"@, u64::MAX as nat) == Some(match out.rss_limit_bytes { Some(number) => Some(number as nat), None => None })
    &&& t.texts_field("semaphores"@, true) == Some(texts(out.semaphores@))
    &&& t.texts_field("include"@, true) == Some(texts(out.includes@))
    &&& t.texts_field("exclude"@, true) == Some(texts(out.excludes@))
    &&& (match t.field("environment"@) { Some(table) => table.maps_to(out.environment@), None => out.environment@ == Map::<Seq<char>, String>::empty() })
    &&& t.texts_field("remove_environment"@, true) == Some(texts(out.remove_environment@))
    &&& stored_artifact_list_reads(t, out.artifacts@)
}

fn read_stored_step_fields(document: &Document) -> (r: Option<EffectiveStep>)
    ensures
        r is Some <==> stored_step_fields_readable(document@),
        r matches Some(out) ==> stored_step_fields_read(document@, out),
{
    match document {
        Document::Table(_) => {},
        _ => {
            return None;
        },
    }
    let name = match document.text_field("name", None) {
        Some(value) => value,
        None => {
            return None;
        },
    };
    let command = match read_command_field(document) {
        Some(value) => value,
        None => {
            return None;
        },
    };
    let working_directory = match document.text_field("working_directory", None) {
        Some(value) => value,
        None => {
            return None;
        },
    };
    let needs = match document.texts_field("needs", true) {
        Some(value) => value,
        None => {
            return None;
        },
    };
    let soft_needs = match document.texts_field("soft_needs", true) {
        Some(value) => value,
        None => {
            return None;
        },
    };
    let voting = match document.bool_field("voting", None) {
        Some(value) => value,
        None => {
            return None;
        },
    };
    let final_step = match document.bool_field("final_step", None) {
        Some(value) => value,
        None => {
            return None;
        },
    };
    let timeout_ns: u64 = match document.number_field("timeout_ns", None, u64::MAX) {
        Some(value) => value,
        None => {
            return None;
        },
    };
    let cpu_tokens: u16 = match document.number_field("cpu_tokens", None, u16::MAX as u64) {
        Some(value) => value as u16,
        None => {
            return None;
        },
    };
    let memory_bytes: u64 = match document.number_field("memory_bytes", None, u64::MAX) {
        Some(value) => value,
        None => {
            return None;
        },
    };
    let rss_limit_bytes = match document.optional_number("rss_limit_bytes", u64::MAX) {
        Some(value) => value,
        None => {
            return None;
        },
    };
    let semaphores = match document.texts_field("semaphores", true) {
        Some(value) => value,
        None => {
            return None;
        },
    };
    let includes = match document.texts_field("include", true) {
        Some(value) => value,
        None => {
            return None;
        },
    };
    let excludes = match document.texts_field("exclude", true) {
        Some(value) => value,
        None => {
            return None;
        },
    };
    let environment: TextMap<String> = match document.get("environment") {
        Some(table) => match table.read_text_map() {
            Some(map) => map,
            None => {
                return None;
            },
        },
        None => {
            return None;
        },
    };
    let remove_environment = match document.texts_field("remove_environment", true) {
        Some(value) => value,
        None => {
            return None;
        },
    };
    let artifacts = match read_stored_artifact_list(document) {
        Some(value) => value,
        None => {
            return None;
        },
    };
    Some(EffectiveStep { name, command, working_directory, needs, soft_needs, voting, final_step, timeout_ns, cpu_tokens, memory_bytes, rss_limit_bytes, semaphores, includes, excludes, environment, remove_environment, artifacts })
}

/// The fields of a stored step, in order.
pub open spec fn stored_step_order() -> Seq<Seq<char>> {
    seq![
        "name"@,
        "command"@,
        "working_directory"@,
        "needs"@,
        "soft_needs"@,
        "voting"@,
        "final_step"@,
        "timeout_ns"@,
        "cpu_tokens"@,
        "memory_bytes"@,
        "rss_limit_bytes"@,
        "semaphores"@,
        "include"@,
        "exclude"@,
        "environment"@,
        "remove_environment"@,
        "artifacts"@,
    ]
}

/// The document can be read as a stored step.
pub open spec fn stored_step_readable(t: Tree) -> bool {
    stored_step_fields_readable(record(t, stored_step_order(), 17, true))
}

/// Read as a stored step, the document gives this value.
pub open spec fn stored_step_reads(t: Tree, out: EffectiveStep) -> bool {
    stored_step_fields_read(record(t, stored_step_order(), 17, true), out)
}

/// Reads a stored step.
fn read_stored_step(document: &Document) -> (r: Option<EffectiveStep>)
    ensures
        r is Some <==> stored_step_readable(document@),
        r matches Some(out) ==> stored_step_reads(document@, out),
{
    let names = [
        "name",
        "command",
        "working_directory",
        "needs",
        "soft_needs",
        "voting",
        "final_step",
        "timeout_ns",
        "cpu_tokens",
        "memory_bytes",
        "rss_limit_bytes",
        "semaphores",
        "include",
        "exclude",
        "environment",
        "remove_environment",
        "artifacts",
    ];
    assert(names_of(names@) =~= stored_step_order());
    match document.as_record(&names, 17, true) {
        Some(table) => read_stored_step_fields(&table),
        None => read_stored_step_fields(document),
    }
}

/// Every one of the documents can be read.
pub open spec fn all_stored_step_readable(items: Seq<Tree>) -> bool {
    forall|i: int| 0 <= i < items.len() ==> stored_step_readable(#[trigger] items[i])
}

/// The field lists stored steps, each of which can be read.
pub open spec fn stored_step_list_readable(t: Tree) -> bool {
    match t.field("steps"@) {
        None => false,
        Some(Tree::List(items)) => all_stored_step_readable(items),
        Some(_) => false,
    }
}

/// The values are those that the field lists.
pub open spec fn stored_step_list_reads(t: Tree, out: Seq<EffectiveStep>) -> bool {
    match t.field("steps"@) {
        Some(Tree::List(items)) => out.len() == items.len() && forall|i: int|
            0 <= i < out.len() ==> stored_step_reads(items[i], #[trigger] out[i]),
        _ => out.len() == 0,
    }
}

fn read_stored_step_list(document: &Document) -> (r: Option<Vec<EffectiveStep>>)
    ensures
        r is Some <==> stored_step_list_readable(document@),
        r matches Some(out) ==> stored_step_list_reads(document@, out@),
{
    match document.get("steps") {
        None => None,
        Some(list) => match list {
            Document::List(items) => {
                let ghost all = list@->List_0;
                let mut out: Vec<EffectiveStep> = Vec::new();
                let mut i: usize = 0;
                while i < items.len()
                    invariant
                        i <= items@.len(),
                        all.len() == items@.len(),
                        document@.field("steps"@) == Some(Tree::List(all)),
                        *list == Document::List(*items),
                        list@ == Tree::List(all),
                        out@.len() == i,
                        forall|j: int| 0 <= j < i ==> stored_step_readable(#[trigger] all[j]),
                        forall|j: int| 0 <= j < i ==> stored_step_reads(all[j], #[trigger] out@[j]),
                    decreases items@.len() - i,
                {
                    assert(all[i as int] == items@[i as int]@);
                    match read_stored_step(&items[i]) {
                        Some(value) => out.push(value),
                        None => {
                            assert(!all_stored_step_readable(all));
                            return None;
                        },
                    }
                    i += 1;
                }
                Some(out)
            },
            _ => None,
        },
    }
}


/// The fields of stored resources can be read.
pub open spec fn stored_resources_fields_readable(t: Tree) -> bool {
    &&& t is Table
    &&& t.number_field("max_buildsets"@, None::<nat>, u16::MAX as nat) is Some
    &&& t.number_field("cpu_tokens"@, None::<nat>, u16::MAX as nat) is Some
    &&& t.number_field("memory_bytes"@, None::<nat>, u64::MAX as nat) is Some
    &&& t.number_field("repository_concurrency"@, None::<nat>, u16::MAX as nat) is Some
    &&& t.number_field("scheduler_weight"@, None::<nat>, u16::MAX as nat) is Some
    &&& t.number_field("volume_warning_bytes"@, None::<nat>, u64::MAX as nat) is Some
    &&& t.number_field("volume_critical_bytes"@, None::<nat>, u64::MAX as nat) is Some
    &&& t.number_field("volume_emergency_bytes"@, None::<nat>, u64::MAX as nat) is Some
}

/// Read as the fields of stored resources, the table gives this value.
pub open spec fn stored_resources_fields_read(t: Tree, out: EffectiveResources) -> bool {
    &&& t.number_field("max_buildsets"@, None::<nat>, u16::MAX as nat) == Some(out.max_buildsets as nat)
    &&& t.number_field("cpu_tokens"@, None::<nat>, u16::MAX as nat) == Some(out.cpu_tokens as nat)
    &&& t.number_field("memory_bytes"@, None::<nat>, u64::MAX as nat) == Some(out.memory_bytes as nat)
    &&& t.number_field("repository_concurrency"@, None::<nat>, u16::MAX as nat) == Some(out.repository_concurrency as nat)
    &&& t.number_field("scheduler_weight"@, None::<nat>, u16::MAX as nat) == Some(out.scheduler_weight as nat)
    &&& t.number_field("volume_warning_bytes"@, None::<nat>, u64::MAX as nat) == Some(out.volume_warning_bytes as nat)
    &&& t.number_field("volume_critical_bytes"@, None::<nat>, u64::MAX as nat) == Some(out.volume_critical_bytes as nat)
    &&& t.number_field("volume_emergency_bytes"@, None::<nat>, u64::MAX as nat) == Some(out.volume_emergency_bytes as nat)
}

fn read_stored_resources_fields(document: &Document) -> (r: Option<EffectiveResources>)
    ensures
        r is Some <==> stored_resources_fields_readable(document@),
        r matches Some(out) ==> stored_resources_fields_read(document@, out),
{
    match document {
        Document::Table(_) => {},
        _ => {
            return None;
        },
    }
    let max_buildsets: u16 = match document.number_field("max_buildsets", None, u16::MAX as u64) {
        Some(value) => value as u16,
        None => {
            return None;
        },
    };
    let cpu_tokens: u16 = match document.number_field("cpu_tokens", None, u16::MAX as u64) {
        Some(value) => value as u16,
        None => {
            return None;
        },
    };
    let memory_bytes: u64 = match document.number_field("memory_bytes", None, u64::MAX) {
        Some(value) => value,
        None => {
            return None;
        },
    };
    let repository_concurrency: u16 = match document.number_field("repository_concurrency", None, u16::MAX as u64) {
        Some(value) => value as u16,
        None => {
            return None;
        },
    };
    let scheduler_weight: u16 = match document.number_field("scheduler_weight", None, u16::MAX as u64) {
        Some(value) => value as u16,
        None => {
            return None;
        },
    };
    let volume_warning_bytes: u64 = match document.number_field("volume_warning_bytes", None, u64::MAX) {
        Some(value) => value,
        None => {
            return None;
        },
    };
    let volume_critical_bytes: u64 = match document.number_field("volume_critical_bytes", None, u64::MAX) {
        Some(value) => value,
        None => {
            return None;
        },
    };
    let volume_emergency_bytes: u64 = match document.number_field("volume_emergency_bytes", None, u64::MAX) {
        Some(value) => value,
        None => {
            return None;
        },
    };
    Some(EffectiveResources { max_buildsets, cpu_tokens, memory_bytes, repository_concurrency, scheduler_weight, volume_warning_bytes, volume_critical_bytes, volume_emergency_bytes })
}

/// The fields of stored resources, in order.
pub open spec fn stored_resources_order() -> Seq<Seq<char>> {
    seq![
        "max_buildsets"@,
        "cpu_tokens"@,
        "memory_bytes"@,
        "repository_concurrency"@,
        "scheduler_weight"@,
        "volume_warning_bytes"@,
        "volume_critical_bytes"@,
        "volume_emergency_bytes"@,
    ]
}

/// The document can be read as stored resources.
pub open spec fn stored_resources_readable(t: Tree) -> bool {
    stored_resources_fields_readable(record(t, stored_resources_order(), 8, true))
}

/// Read as stored resources, the document gives this value.
pub open spec fn stored_resources_reads(t: Tree, out: EffectiveResources) -> bool {
    stored_resources_fields_read(record(t, stored_resources_order(), 8, true), out)
}

/// Reads stored resources.
fn read_stored_resources(document: &Document) -> (r: Option<EffectiveResources>)
    ensures
        r is Some <==> stored_resources_readable(document@),
        r matches Some(out) ==> stored_resources_reads(document@, out),
{
    let names = [
        "max_buildsets",
        "cpu_tokens",
        "memory_bytes",
        "repository_concurrency",
        "scheduler_weight",
        "volume_warning_bytes",
        "volume_critical_bytes",
        "volume_emergency_bytes",
    ];
    assert(names_of(names@) =~= stored_resources_order());
    match document.as_record(&names, 8, true) {
        Some(table) => read_stored_resources_fields(&table),
        None => read_stored_resources_fields(document),
    }
}

/// The section is there and can be read.
pub open spec fn stored_resources_section_readable(t: Tree) -> bool {
    t.field("resources"@) matches Some(section) && stored_resources_readable(section)
}

/// The value is that of the section.
pub open spec fn stored_resources_section_reads(t: Tree, out: EffectiveResources) -> bool {
    t.field("resources"@) matches Some(section) && stored_resources_reads(section, out)
}

fn read_stored_resources_section(document: &Document) -> (r: Option<EffectiveResources>)
    ensures
        r is Some <==> stored_resources_section_readable(document@),
        r matches Some(out) ==> stored_resources_section_reads(document@, out),
{
    match document.get("resources") {
        Some(section) => read_stored_resources(section),
        None => None,
    }
}


/// The fields of a stored remote can be read.
pub open spec fn stored_remote_fields_readable(t: Tree) -> bool {
    &&& t is Table
    &&& t.bool_field("enabled"@, None) is Some
    &&& t.text_field("name"@, None) is Some
    &&& t.text_field("branch"@, None) is Some
}

/// Read as the fields of a stored remote, the table gives this value.
pub open spec fn stored_remote_fields_read(t: Tree, out: EffectiveRemote) -> bool {
    &&& t.bool_field("enabled"@, None) == Some(out.enabled)
    &&& t.text_field("name"@, None) == Some(out.name@)
    &&& t.text_field("branch"@, None) == Some(out.branch@)
}

fn read_stored_remote_fields(document: &Document) -> (r: Option<EffectiveRemote>)
    ensures
        r is Some <==> stored_remote_fields_readable(document@),
        r matches Some(out) ==> stored_remote_fields_read(document@, out),
{
    match document {
        Document::Table(_) => {},
        _ => {
            return None;
        },
    }
    let enabled = match document.bool_field("enabled", None) {
        Some(value) => value,
        None => {
            return None;
        },
    };
    let name = match document.text_field("name", None) {
        Some(value) => value,
        None => {
            return None;
        },
    };
    let branch = match document.text_field("branch", None) {
        Some(value) => value,
        None => {
            return None;
        },
    };
    Some(EffectiveRemote { enabled, name, branch })
}

/// The fields of a stored remote, in order.
pub open spec fn stored_remote_order() -> Seq<Seq<char>> {
    seq![
        "enabled"@,
        "name"@,
        "branch"@,
    ]
}

/// The document can be read as a stored remote.
pub open spec fn stored_remote_readable(t: Tree) -> bool {
    stored_remote_fields_readable(record(t, stored_remote_order(), 3, true))
}

/// Read as a stored remote, the document gives this value.
pub open spec fn stored_remote_reads(t: Tree, out: EffectiveRemote) -> bool {
    stored_remote_fields_read(record(t, stored_remote_order(), 3, true), out)
}

/// Reads a stored remote.
fn read_stored_remote(document: &Document) -> (r: Option<EffectiveRemote>)
    ensures
        r is Some <==> stored_remote_readable(document@),
        r matches Some(out) ==> stored_remote_reads(document@, out),
{
    let names = [
        "enabled",
        "name",
        "branch",
    ];
    assert(names_of(names@) =~= stored_remote_order());
    match document.as_record(&names, 3, true) {
        Some(table) => read_stored_remote_fields(&table),
        None => read_stored_remote_fields(document),
    }
}

/// The section is there and can be read.
pub open spec fn stored_remote_section_readable(t: Tree) -> bool {
    t.field("remote"@) matches Some(section) && stored_remote_readable(section)
}

/// The value is that of the section.
pub open spec fn stored_remote_section_reads(t: Tree, out: EffectiveRemote) -> bool {
    t.field("remote"@) matches Some(section) && stored_remote_reads(section, out)
}

fn read_stored_remote_section(document: &Document) -> (r: Option<EffectiveRemote>)
    ensures
        r is Some <==> stored_remote_section_readable(document@),
        r matches Some(out) ==> stored_remote_section_reads(document@, out),
{
    match document.get("remote") {
        Some(section) => read_stored_remote(section),
        None => None,
    }
}


/// The fields of a stored cached path can be read.
pub open spec fn stored_cache_path_fields_readable(t: Tree) -> bool {
    &&& t is Table
    &&& t.text_field("path"@, None) is Some
    &&& policy_readable(t, true)
}

/// Read as the fields of a stored cached path, the table gives this value.
pub open spec fn stored_cache_path_fields_read(t: Tree, out: EffectiveCachePath) -> bool {
    &&& t.text_field("path"@, None) == Some(out.path@)
    &&& policy_reads(t, out.policy, true)
}

fn read_stored_cache_path_fields(document: &Document) -> (r: Option<EffectiveCachePath>)
    ensures
        r is Some <==> stored_cache_path_fields_readable(document@),
        r matches Some(out) ==> stored_cache_path_fields_read(document@, out),
{
    match document {
        Document::Table(_) => {},
        _ => {
            return None;
        },
    }
    let path = match document.text_field("path", None) {
        Some(value) => value,
        None => {
            return None;
        },
    };
    let policy = match read_policy(document, true) {
        Some(value) => value,
        None => {
            return None;
        },
    };
    Some(EffectiveCachePath { path, policy })
}

/// The fields of a stored cached path, in order.
pub open spec fn stored_cache_path_order() -> Seq<Seq<char>> {
    seq![
        "path"@,
        "policy"@,
    ]
}

/// The document can be read as a stored cached path.
pub open spec fn stored_cache_path_readable(t: Tree) -> bool {
    stored_cache_path_fields_readable(record(t, stored_cache_path_order(), 2, true))
}

/// Read as a stored cached path, the document gives this value.
pub open spec fn stored_cache_path_reads(t: Tree, out: EffectiveCachePath) -> bool {
    stored_cache_path_fields_read(record(t, stored_cache_path_order(), 2, true), out)
}

/// Reads a stored cached path.
fn read_stored_cache_path(document: &Document) -> (r: Option<EffectiveCachePath>)
    ensures
        r is Some <==> stored_cache_path_readable(document@),
        r matches Some(out) ==> stored_cache_path_reads(document@, out),
{
    let names = [
        "path",
        "policy",
    ];
    assert(names_of(names@) =~= stored_cache_path_order());
    match document.as_record(&names, 2, true) {
        Some(table) => read_stored_cache_path_fields(&table),
        None => read_stored_cache_path_fields(document),
    }
}

/// Every one of the documents can be read.
pub open spec fn all_stored_cache_path_readable(items: Seq<Tree>) -> bool {
    forall|i: int| 0 <= i < items.len() ==> stored_cache_path_readable(#[trigger] items[i])
}

/// The field lists stored cached paths, each of which can be read.
pub open spec fn stored_cache_path_list_readable(t: Tree) -> bool {
    match t.field("paths"@) {
        None => false,
        Some(Tree::List(items)) => all_stored_cache_path_readable(items),
        Some(_) => false,
    }
}

/// The values are those that the field lists.
pub open spec fn stored_cache_path_list_reads(t: Tree, out: Seq<EffectiveCachePath>) -> bool {
    match t.field("paths"@) {
        Some(Tree::List(items)) => out.len() == items.len() && forall|i: int|
            0 <= i < out.len() ==> stored_cache_path_reads(items[i], #[trigger] out[i]),
        _ => out.len() == 0,
    }
}

fn read_stored_cache_path_list(document: &Document) -> (r: Option<Vec<EffectiveCachePath>>)
    ensures
        r is Some <==> stored_cache_path_list_readable(document@),
        r matches Some(out) ==> stored_cache_path_list_reads(document@, out@),
{
    match document.get("paths") {
        None => None,
        Some(list) => match list {
            Document::List(items) => {
                let ghost all = list@->List_0;
                let mut out: Vec<EffectiveCachePath> = Vec::new();
                let mut i: usize = 0;
                while i < items.len()
                    invariant
                        i <= items@.len(),
                        all.len() == items@.len(),
                        document@.field("paths"@) == Some(Tree::List(all)),
                        *list == Document::List(*items),
                        list@ == Tree::List(all),
                        out@.len() == i,
                        forall|j: int| 0 <= j < i ==> stored_cache_path_readable(#[trigger] all[j]),
                        forall|j: int| 0 <= j < i ==> stored_cache_path_reads(all[j], #[trigger] out@[j]),
                    decreases items@.len() - i,
                {
                    assert(all[i as int] == items@[i as int]@);
                    match read_stored_cache_path(&items[i]) {
                        Some(value) => out.push(value),
                        None => {
                            assert(!all_stored_cache_path_readable(all));
                            return None;
                        },
                    }
                    i += 1;
                }
                Some(out)
            },
            _ => None,
        },
    }
}


/// The fields of a stored cache can be read.
pub open spec fn stored_cache_fields_readable(t: Tree) -> bool {
    &&& t is Table
    &&& t.number_field("epoch"@, None::<nat>, u64::MAX as nat) is Some
    &&& stored_cache_path_list_readable(t)
}

/// Read as the fields of a stored cache, the table gives this value.
pub open spec fn stored_cache_fields_read(t: Tree, out: EffectiveCache) -> bool {
    &&& t.number_field("epoch"@, None::<nat>, u64::MAX as nat) == Some(out.epoch as nat)
    &&& stored_cache_path_list_reads(t, out.paths@)
}

fn read_stored_cache_fields(document: &Document) -> (r: Option<EffectiveCache>)
    ensures
        r is Some <==> stored_cache_fields_readable(document@),
        r matches Some(out) ==> stored_cache_fields_read(document@, out),
{
    match document {
        Document::Table(_) => {},
        _ => {
            return None;
        },
    }
    let epoch: u64 = match document.number_field("epoch", None, u64::MAX) {
        Some(value) => value,
        None => {
            return None;
        },
    };
    let paths = match read_stored_cache_path_list(document) {
        Some(value) => value,
        None => {
            return None;
        },
    };
    Some(EffectiveCache { epoch, paths })
}

/// The fields of a stored cache, in order.
pub open spec fn stored_cache_order() -> Seq<Seq<char>> {
    seq![
        "epoch"@,
        "paths"@,
    ]
}

/// The document can be read as a stored cache section.
pub open spec fn stored_cache_readable(t: Tree) -> bool {
    stored_cache_fields_readable(record(t, stored_cache_order(), 2, true))
}

/// Read as a stored cache section, the document gives this value.
pub open spec fn stored_cache_reads(t: Tree, out: EffectiveCache) -> bool {
    stored_cache_fields_read(record(t, stored_cache_order(), 2, true), out)
}

/// Reads a stored cache section.
fn read_stored_cache(document: &Document) -> (r: Option<EffectiveCache>)
    ensures
        r is Some <==> stored_cache_readable(document@),
        r matches Some(out) ==> stored_cache_reads(document@, out),
{
    let names = [
        "epoch",
        "paths",
    ];
    assert(names_of(names@) =~= stored_cache_order());
    match document.as_record(&names, 2, true) {
        Some(table) => read_stored_cache_fields(&table),
        None => read_stored_cache_fields(document),
    }
}

/// The section is there and can be read.
pub open spec fn stored_cache_section_readable(t: Tree) -> bool {
    t.field("cache"@) matches Some(section) && stored_cache_readable(section)
}

/// The value is that of the section.
pub open spec fn stored_cache_section_reads(t: Tree, out: EffectiveCache) -> bool {
    t.field("cache"@) matches Some(section) && stored_cache_reads(section, out)
}

fn read_stored_cache_section(document: &Document) -> (r: Option<EffectiveCache>)
    ensures
        r is Some <==> stored_cache_section_readable(document@),
        r matches Some(out) ==> stored_cache_section_reads(document@, out),
{
    match document.get("cache") {
        Some(section) => read_stored_cache(section),
        None => None,
    }
}


/// The fields of a stored configuration can be read.
pub open spec fn stored_config_fields_readable(t: Tree) -> bool {
    &&& t is Table
    &&& t.number_field("version"@, None::<nat>, u16::MAX as nat) is Some
    &&& t.texts_field("runner"@, true) is Some
    &&& t.bool_field("allow_no_job"@, None) is Some
    &&& t.bool_field("allow_concurrent_roots"@, None) is Some
    &&& t.bool_field("sync_user_master"@, Some(true)) is Some
    &&& stored_step_list_readable(t)
    &&& stored_resources_section_readable(t)
    &&& stored_remote_section_readable(t)
    &&& stored_cache_section_readable(t)
}

/// Read as the fields of a stored configuration, the table gives this value, but for the
/// digests.
pub open spec fn stored_config_fields_read(t: Tree, out: EffectiveConfig) -> bool {
    &&& t.number_field("version"@, None::<nat>, u16::MAX as nat) == Some(out.version as nat)
    &&& t.texts_field("runner"@, true) == Some(texts(out.runner@))
    &&& t.bool_field("allow_no_job"@, None) == Some(out.allow_no_job)
    &&& t.bool_field("allow_concurrent_roots"@, None) == Some(out.allow_concurrent_roots)
    &&& t.bool_field("sync_user_master"@, Some(true)) == Some(out.sync_user_master)
    &&& stored_step_list_reads(t, out.steps@)
    &&& stored_resources_section_reads(t, out.resources)
    &&& stored_remote_section_reads(t, out.remote)
    &&& stored_cache_section_reads(t, out.cache)
}

/// The fields of a stored configuration, in order. A list never opts out.
pub open spec fn stored_config_order() -> Seq<Seq<char>> {
    seq![
        "version"@,
        "runner"@,
        "allow_no_job"@,
        "allow_concurrent_roots"@,
        "steps"@,
        "resources"@,
        "remote"@,
        "cache"@,
    ]
}

/// The document can be read as a stored configuration.
pub open spec fn stored_config_readable(t: Tree) -> bool {
    stored_config_fields_readable(record(t, stored_config_order(), 8, true))
}

/// Read as a stored configuration, the document gives this value, but for the digests.
pub open spec fn stored_config_reads(t: Tree, out: EffectiveConfig) -> bool {
    stored_config_fields_read(record(t, stored_config_order(), 8, true), out)
}

impl ConfigFile {
    /// Reads a configuration file. Fields that nobody knows are refused.
    pub fn read(document: &Document) -> (r: Option<ConfigFile>)
        ensures
            r is Some <==> config_readable(document@),
            r matches Some(file) ==> config_reads(document@, file),
    {
        read_config(document)
    }
}

impl EffectiveConfig {
    /// Reads a TOML configuration and brings it into effect.
    pub fn parse(input: &str) -> (r: Result<EffectiveConfig, ConfigError>)
        ensures
            match toml_parsed(input@) {
                None => r matches Err(error) && error is Parse,
                Some(tree) => if !config_readable(tree) {
                    r matches Err(ConfigError::Parse(text)) && text@ == config_complaint(tree)
                } else {
                    exists|file: ConfigFile| #[trigger]
                        config_reads(tree, file) && match r {
                            Ok(config) => file_fault(file) is None && config_takes_effect(
                                file,
                                config,
                            ) && whole_fault(file, config.steps@) is None,
                            Err(error) => match file_fault(file) {
                                Some(fault) => error@ == fault,
                                None => exists|steps: Seq<EffectiveStep>| #[trigger]
                                    steps_take_effect(file.step@, steps) && whole_fault(file, steps)
                                        == Some(error@),
                            },
                        }
                },
            },
    {
        match parse_toml(input) {
            Err(message) => Err(ConfigError::Parse(message)),
            Ok(value) => {
                let document = toml_document(value);
                match ConfigFile::read(&document) {
                    Some(file) => EffectiveConfig::from_file(file),
                    None => Err(ConfigError::Parse(complain(&document))),
                }
            },
        }
    }

    /// Takes a stored configuration up again, under the digests it was stored with.
    pub fn restore(
        document: &Document,
        digest: String,
        step_graph_digest: String,
    ) -> (r: Option<EffectiveConfig>)
        ensures
            r is Some <==> stored_config_readable(document@),
            r matches Some(config) ==> stored_config_reads(document@, config) && config.digest
                == digest && config.step_graph_digest == step_graph_digest,
    {
        let names = [
            "version",
            "runner",
            "allow_no_job",
            "allow_concurrent_roots",
            "steps",
            "resources",
            "remote",
            "cache",
        ];
        assert(names_of(names@) =~= stored_config_order());
        match document.as_record(&names, 8, true) {
            Some(table) => EffectiveConfig::restore_fields(&table, digest, step_graph_digest),
            None => EffectiveConfig::restore_fields(document, digest, step_graph_digest),
        }
    }

    fn restore_fields(
        document: &Document,
        digest: String,
        step_graph_digest: String,
    ) -> (r: Option<EffectiveConfig>)
        ensures
            r is Some <==> stored_config_fields_readable(document@),
            r matches Some(config) ==> stored_config_fields_read(document@, config) && config.digest
                == digest && config.step_graph_digest == step_graph_digest,
    {
        match document {
            Document::Table(_) => {},
            _ => {
                return None;
            },
        }
        let version: u16 = match document.number_field("version", None, u16::MAX as u64) {
            Some(value) => value as u16,
            None => {
                return None;
            },
        };
        let runner = match document.texts_field("runner", true) {
            Some(value) => value,
            None => {
                return None;
            },
        };
        let allow_no_job = match document.bool_field("allow_no_job", None) {
            Some(value) => value,
            None => {
                return None;
            },
        };
        let allow_concurrent_roots = match document.bool_field("allow_concurrent_roots", None) {
            Some(value) => value,
            None => {
                return None;
            },
        };
        let sync_user_master = match document.bool_field("sync_user_master", Some(true)) {
            Some(value) => value,
            None => {
                return None;
            },
        };
        let steps = match read_stored_step_list(document) {
            Some(value) => value,
            None => {
                return None;
            },
        };
        let resources = match read_stored_resources_section(document) {
            Some(value) => value,
            None => {
                return None;
            },
        };
        let remote = match read_stored_remote_section(document) {
            Some(value) => value,
            None => {
                return None;
            },
        };
        let cache = match read_stored_cache_section(document) {
            Some(value) => value,
            None => {
                return None;
            },
        };
        Some(
            EffectiveConfig {
                version,
                runner,
                allow_no_job,
                allow_concurrent_roots,
                sync_user_master,
                steps,
                resources,
                remote,
                cache,
                digest,
                step_graph_digest,
            },
        )
    }

    /// Takes the canonical notation of a configuration up again, under the digests
    /// that it was stored with.
    pub fn restore_canonical(
        bytes: &[u8],
        digest: String,
        step_graph_digest: String,
    ) -> (r: Result<EffectiveConfig, ConfigError>)
        ensures
            r is Ok <==> (json_parsed(bytes@) matches Some(tree) && stored_config_readable(tree)),
            r matches Ok(config) ==> stored_config_reads(json_parsed(bytes@)->0, config)
                && config.digest == digest && config.step_graph_digest == step_graph_digest,
            r matches Err(error) ==> error is Canonicalization,
    {
        match parse_json(bytes) {
            Err(message) => Err(ConfigError::Canonicalization(message)),
            Ok(value) => {
                let document = json_document(value);
                match EffectiveConfig::restore(&document, digest, step_graph_digest) {
                    Some(config) => Ok(config),
                    None => Err(
                        ConfigError::Canonicalization(
                            "a field is missing or of the wrong type".to_owned(),
                        ),
                    ),
                }
            },
        }
    }
}

} // verus!
