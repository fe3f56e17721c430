//! What is written in a configuration file is what is read from it.

#[allow(unused_imports)]
use crate::config_model::{
    ArtifactFile, CacheFile, CachePathFile, CachePolicy, ConfigFile, RemoteFile, ResourceFile,
    StepFile,
};
#[allow(unused_imports)]
use crate::config_read::{
    artifact_list_reads, artifact_reads, cache_path_reads, cache_reads, cache_section_reads,
    config_reads, remote_reads, remote_section_reads, resources_reads, resources_section_reads,
    step_list_reads, step_reads,
};
#[allow(unused_imports)]
use crate::document::Tree;
#[allow(unused_imports)]
use crate::text::texts;
use vstd::prelude::*;

verus! {

/// The list consists of these texts, in this order.
pub open spec fn lists_texts(items: Seq<Tree>, all: Seq<Seq<char>>) -> bool {
    items.len() == all.len() && forall|i: int|
        0 <= i < items.len() ==> #[trigger] items[i] == Tree::Text(all[i])
}

proof fn lemma_listed(items: Seq<Tree>, all: Seq<Seq<char>>)
    requires
        Tree::List(items).as_texts() == Some(all),
    ensures
        lists_texts(items, all),
{
    assert(all =~= items.map_values(|item: Tree| item->Text_0));
    assert forall|i: int| 0 <= i < items.len() implies #[trigger] items[i] == Tree::Text(all[i]) by {
        assert(items[i] is Text);
        assert(all[i] == items[i]->Text_0);
    }
}

/// A step is what its table says, field by field: what is written stands, and what is left
/// out has its default, whatever else the table holds. A step votes unless it says not to,
/// and has an hour.
pub proof fn law_steps_are_read_as_written(t: Tree, out: StepFile)
    requires
        t is Table,
        step_reads(t, out),
    ensures
        t.field("name"@) matches Some(Tree::Text(value)) ==> out.name@ == value,
        t.field("run"@) matches Some(Tree::Text(value)) ==> (out.run matches Some(run) && run@ == value),
        t.field("run"@) is None ==> out.run is None,
        t.field("argv"@) matches Some(Tree::List(items)) ==> (out.argv matches Some(argv)
            && lists_texts(items, texts(argv@))),
        t.field("argv"@) is None ==> out.argv is None,
        t.field("working_directory"@) matches Some(Tree::Text(value)) ==> out.working_directory@ == value,
        t.field("working_directory"@) is None ==> out.working_directory@ == "."@,
        t.field("timeout"@) matches Some(Tree::Text(value)) ==> out.timeout@ == value,
        t.field("timeout"@) is None ==> out.timeout@ == "60m"@,
        t.field("voting"@) matches Some(Tree::Bool(value)) ==> out.voting == value,
        t.field("voting"@) is None ==> out.voting == true,
        t.field("final"@) matches Some(Tree::Bool(value)) ==> out.final_step == value,
        t.field("final"@) is None ==> out.final_step == false,
        t.field("cpu_tokens"@) matches Some(Tree::Integer(value)) ==> out.cpu_tokens == value,
        t.field("cpu_tokens"@) is None ==> out.cpu_tokens == 0,
        t.field("memory_bytes"@) matches Some(Tree::Integer(value)) ==> out.memory_bytes == value,
        t.field("memory_bytes"@) is None ==> out.memory_bytes == 0,
        t.field("rss_limit_bytes"@) matches Some(Tree::Integer(value)) ==> (
        out.rss_limit_bytes matches Some(limit) && limit == value),
        t.field("rss_limit_bytes"@) is None ==> out.rss_limit_bytes is None,
        t.field("needs"@) matches Some(Tree::List(items)) ==> lists_texts(items, texts(out.needs@)),
        t.field("needs"@) is None ==> out.needs@.len() == 0,
        t.field("soft_needs"@) matches Some(Tree::List(items)) ==> lists_texts(items, texts(out.soft_needs@)),
        t.field("soft_needs"@) is None ==> out.soft_needs@.len() == 0,
        t.field("semaphores"@) matches Some(Tree::List(items)) ==> lists_texts(items, texts(out.semaphores@)),
        t.field("semaphores"@) is None ==> out.semaphores@.len() == 0,
        t.field("include"@) matches Some(Tree::List(items)) ==> lists_texts(items, texts(out.includes@)),
        t.field("include"@) is None ==> out.includes@.len() == 0,
        t.field("exclude"@) matches Some(Tree::List(items)) ==> lists_texts(items, texts(out.excludes@)),
        t.field("exclude"@) is None ==> out.excludes@.len() == 0,
        t.field("remove_environment"@) matches Some(Tree::List(items)) ==> lists_texts(items, texts(out.remove_environment@)),
        t.field("remove_environment"@) is None ==> out.remove_environment@.len() == 0,
        t.field("environment"@) matches Some(table) ==> forall|key: Seq<char>|
            {
                &&& #[trigger] out.environment@.dom().contains(key) <==> table.field(key) is Some
                &&& out.environment@.dom().contains(key) ==> table.field(key) == Some(
                    Tree::Text(out.environment@[key]@),
                )
            },
        t.field("environment"@) is None ==> out.environment@.dom() =~= Set::<Seq<char>>::empty(),
        t.field("artifact"@) matches Some(Tree::List(items)) ==> items.len() == out.artifact@.len()
            && forall|i: int|
            0 <= i < items.len() ==> artifact_reads(items[i], #[trigger] out.artifact@[i]),
        t.field("artifact"@) is None ==> out.artifact@.len() == 0,
{
    if let Some(Tree::List(items)) = t.field("needs"@) {
        lemma_listed(items, texts(out.needs@));
    }
    if t.field("needs"@) is None {
        assert(texts(out.needs@).len() == 0);
    }
    if let Some(Tree::List(items)) = t.field("soft_needs"@) {
        lemma_listed(items, texts(out.soft_needs@));
    }
    if t.field("soft_needs"@) is None {
        assert(texts(out.soft_needs@).len() == 0);
    }
    if let Some(Tree::List(items)) = t.field("semaphores"@) {
        lemma_listed(items, texts(out.semaphores@));
    }
    if t.field("semaphores"@) is None {
        assert(texts(out.semaphores@).len() == 0);
    }
    if let Some(Tree::List(items)) = t.field("include"@) {
        lemma_listed(items, texts(out.includes@));
    }
    if t.field("include"@) is None {
        assert(texts(out.includes@).len() == 0);
    }
    if let Some(Tree::List(items)) = t.field("exclude"@) {
        lemma_listed(items, texts(out.excludes@));
    }
    if t.field("exclude"@) is None {
        assert(texts(out.excludes@).len() == 0);
    }
    if let Some(Tree::List(items)) = t.field("remove_environment"@) {
        lemma_listed(items, texts(out.remove_environment@));
    }
    if t.field("remove_environment"@) is None {
        assert(texts(out.remove_environment@).len() == 0);
    }
    if let Some(Tree::List(items)) = t.field("argv"@) {
        lemma_listed(items, texts(out.argv->0@));
    }
    if let Some(table) = t.field("environment"@) {
        assert forall|key: Seq<char>|
            {
                &&& #[trigger] out.environment@.dom().contains(key) <==> table.field(key) is Some
                &&& out.environment@.dom().contains(key) ==> table.field(key) == Some(
                    Tree::Text(out.environment@[key]@),
                )
            } by {
            assert(table.maps_to(out.environment@));
        }
    }
}

/// An artifact is what its table says; it need not be there unless it is required, and is
/// kept for thirty days unless it says how long.
pub proof fn law_artifacts_are_read_as_written(t: Tree, out: ArtifactFile)
    requires
        t is Table,
        artifact_reads(t, out),
    ensures
        t.field("name"@) matches Some(Tree::Text(value)) ==> out.name@ == value,
        t.field("patterns"@) matches Some(Tree::List(items)) ==> lists_texts(items, texts(out.patterns@)),
        t.field("required"@) matches Some(Tree::Bool(value)) ==> out.required == value,
        t.field("required"@) is None ==> out.required == false,
        t.field("retention_days"@) matches Some(Tree::Integer(value)) ==> out.retention_days == value,
        t.field("retention_days"@) is None ==> out.retention_days == 30,
{
    if let Some(Tree::List(items)) = t.field("patterns"@) {
        lemma_listed(items, texts(out.patterns@));
    }
}

/// Resources are what their table says, each under its own name.
pub proof fn law_resources_are_read_as_written(t: Tree, out: ResourceFile)
    requires
        t is Table,
        resources_reads(t, out),
    ensures
        t.field("max_buildsets"@) matches Some(Tree::Integer(value)) ==> out.max_buildsets == value,
        t.field("max_buildsets"@) is None ==> out.max_buildsets == 4,
        t.field("cpu_tokens"@) matches Some(Tree::Integer(value)) ==> out.cpu_tokens == value,
        t.field("cpu_tokens"@) is None ==> out.cpu_tokens == 0,
        t.field("memory_bytes"@) matches Some(Tree::Integer(value)) ==> out.memory_bytes == value,
        t.field("memory_bytes"@) is None ==> out.memory_bytes == 0,
        t.field("repository_concurrency"@) matches Some(Tree::Integer(value)) ==> out.repository_concurrency == value,
        t.field("repository_concurrency"@) is None ==> out.repository_concurrency == 2,
        t.field("scheduler_weight"@) matches Some(Tree::Integer(value)) ==> out.scheduler_weight == value,
        t.field("scheduler_weight"@) is None ==> out.scheduler_weight == 1,
        t.field("volume_warning_bytes"@) matches Some(Tree::Integer(value)) ==> out.volume_warning_bytes == value,
        t.field("volume_warning_bytes"@) is None ==> out.volume_warning_bytes == 15 * 0x4000_0000,
        t.field("volume_critical_bytes"@) matches Some(Tree::Integer(value)) ==> out.volume_critical_bytes == value,
        t.field("volume_critical_bytes"@) is None ==> out.volume_critical_bytes == 10 * 0x4000_0000,
        t.field("volume_emergency_bytes"@) matches Some(Tree::Integer(value)) ==> out.volume_emergency_bytes == value,
        t.field("volume_emergency_bytes"@) is None ==> out.volume_emergency_bytes == 0x2000_0000,
{
}

/// A remote is what its table says; without a word it is disabled, and is `master` of
/// `origin`.
pub proof fn law_remotes_are_read_as_written(t: Tree, out: RemoteFile)
    requires
        t is Table,
        remote_reads(t, out),
    ensures
        t.field("enabled"@) matches Some(Tree::Bool(value)) ==> out.enabled == value,
        t.field("enabled"@) is None ==> out.enabled == false,
        t.field("name"@) matches Some(Tree::Text(value)) ==> out.name@ == value,
        t.field("name"@) is None ==> out.name@ == "origin"@,
        t.field("branch"@) matches Some(Tree::Text(value)) ==> out.branch@ == value,
        t.field("branch"@) is None ==> out.branch@ == "master"@,
{
}

/// A cached path is what its table says; it is cloned unless it says what becomes of it.
pub proof fn law_cached_paths_are_read_as_written(t: Tree, out: CachePathFile)
    requires
        t is Table,
        cache_path_reads(t, out),
    ensures
        t.field("path"@) matches Some(Tree::Text(value)) ==> out.path@ == value,
        t.field("policy"@) matches Some(Tree::Text(value)) ==> value == out.policy.wire_name(),
        t.field("policy"@) is None ==> out.policy == CachePolicy::Clone,
{
}

/// A cache is what its table says.
pub proof fn law_caches_are_read_as_written(t: Tree, out: CacheFile)
    requires
        t is Table,
        cache_reads(t, out),
    ensures
        t.field("epoch"@) matches Some(Tree::Integer(value)) ==> out.epoch == value,
        t.field("epoch"@) is None ==> out.epoch == 0,
        t.field("paths"@) matches Some(Tree::List(items)) ==> items.len() == out.paths@.len()
            && forall|i: int|
            0 <= i < items.len() ==> cache_path_reads(items[i], #[trigger] out.paths@[i]),
        t.field("paths"@) is None ==> out.paths@.len() == 0,
{
}

/// A configuration file is what it says, section by section; the user's branch is kept in
/// step unless the file says not to.
pub proof fn law_files_are_read_as_written(t: Tree, out: ConfigFile)
    requires
        t is Table,
        config_reads(t, out),
    ensures
        t.field("version"@) matches Some(Tree::Integer(value)) ==> out.version == value,
        t.field("runner"@) matches Some(Tree::List(items)) ==> (out.runner matches Some(runner)
            && lists_texts(items, texts(runner@))),
        t.field("runner"@) is None ==> out.runner is None,
        t.field("allow_no_job"@) matches Some(Tree::Bool(value)) ==> out.allow_no_job == value,
        t.field("allow_no_job"@) is None ==> out.allow_no_job == false,
        t.field("allow_concurrent_roots"@) matches Some(Tree::Bool(value)) ==> out.allow_concurrent_roots == value,
        t.field("allow_concurrent_roots"@) is None ==> out.allow_concurrent_roots == false,
        t.field("sync_user_master"@) matches Some(Tree::Bool(value)) ==> out.sync_user_master == value,
        t.field("sync_user_master"@) is None ==> out.sync_user_master == true,
        t.field("step"@) matches Some(Tree::List(items)) ==> items.len() == out.step@.len()
            && forall|i: int|
            0 <= i < items.len() ==> step_reads(items[i], #[trigger] out.step@[i]),
        t.field("step"@) is None ==> out.step@.len() == 0,
        t.field("resources"@) matches Some(section) ==> resources_reads(section, out.resources),
        t.field("remote"@) matches Some(section) ==> remote_reads(section, out.remote),
        t.field("cache"@) matches Some(section) ==> cache_reads(section, out.cache),
        t.field("remote"@) is None ==> !out.remote.enabled && out.remote.name@ == "origin"@
            && out.remote.branch@ == "master"@,
        t.field("cache"@) is None ==> out.cache.epoch == 0 && out.cache.paths@.len() == 0,
{
    if let Some(Tree::List(items)) = t.field("runner"@) {
        lemma_listed(items, texts(out.runner->0@));
    }
}

} // verus!
