//! The canonical notation of a configuration, from which its digests are taken.

use crate::config_model::{
    ConfigError, EffectiveArtifact, EffectiveCache, EffectiveCachePath, EffectiveCommand,
    EffectiveConfig, EffectiveRemote, EffectiveResources, EffectiveStep,
};
#[allow(unused_imports)]
use crate::config_read::{
    all_stored_artifact_readable, all_stored_cache_path_readable, all_stored_step_readable,
    stored_artifact_readable, stored_artifact_reads, stored_cache_path_readable,
    stored_cache_path_reads, stored_cache_readable, stored_cache_reads, stored_command_readable,
    stored_command_reads, stored_config_readable, stored_config_reads, stored_remote_readable,
    stored_remote_reads, stored_resources_readable, stored_resources_reads, stored_step_readable,
    stored_step_reads,
};
use crate::document::{text_list, Document, Fields};
#[allow(unused_imports)]
use crate::document::{
    distinct_entries, lemma_lookup_finds, lemma_lookup_misses, lemma_table_writable,
    lemma_text_trees, lemma_writable_deeper, text_trees, Tree,
};
use crate::outside::{hash_hex, json_value, write_json};
#[allow(unused_imports)]
use crate::outside::{blake3_hex, json_parsed, json_written};
#[allow(unused_imports)]
use crate::text::texts;
use crate::wire::{optional_number_document, text_map_document};
#[allow(unused_imports)]
use crate::wire::{
    law_the_order_of_entries_does_not_matter, lemma_one_table_one_notation, lemma_text_map_tree,
    optional_number_tree, text_map_tree,
};
use vstd::prelude::*;

verus! {

/// The digest of what is written.
pub open spec fn tree_digest(tree: Tree) -> Seq<char> {
    blake3_hex(json_written(tree))
}

proof fn lemma_texts_written(items: Seq<Seq<char>>)
    ensures
        text_trees(items).writable(1),
        text_trees(items).as_texts() == Some(items),
{
    lemma_text_trees(items);
    let trees = text_trees(items)->List_0;
    assert forall|i: int| 0 <= i < trees.len() implies (#[trigger] trees[i]).writable(0) by {}
}

/// What an artifact is written as.
pub open spec fn artifact_tree(artifact: EffectiveArtifact) -> Tree {
    Tree::Table(
        seq![
            ("name"@, Tree::Text(artifact.name@)),
            ("patterns"@, text_trees(texts(artifact.patterns@))),
            ("required"@, Tree::Bool(artifact.required)),
            ("retention_days"@, Tree::Integer(artifact.retention_days as int)),
        ],
    )
}

/// The fields of an artifact have different names.
proof fn lemma_artifact_names()
    ensures
        "name"@ != "patterns"@,
        "name"@ != "required"@,
        "name"@ != "retention_days"@,
        "patterns"@ != "required"@,
        "patterns"@ != "retention_days"@,
        "required"@ != "retention_days"@,
{
    reveal_strlit("name");
    reveal_strlit("patterns");
    reveal_strlit("required");
    reveal_strlit("retention_days");
    assert("name"@.len() != "patterns"@.len());
    assert("name"@.len() != "required"@.len());
    assert("name"@.len() != "retention_days"@.len());
    assert("patterns"@[0] != "required"@[0]);
    assert("patterns"@.len() != "retention_days"@.len());
    assert("required"@.len() != "retention_days"@.len());
}

/// What is written of an artifact has a notation, and reads back as what was written.
proof fn lemma_artifact_written(artifact: EffectiveArtifact)
    ensures
        artifact_tree(artifact).writable(2),
        stored_artifact_readable(artifact_tree(artifact)),
        stored_artifact_reads(artifact_tree(artifact), artifact),
{
    let entries = artifact_tree(artifact)->Table_0;
    lemma_artifact_names();
    assert(entries[0].0 == "name"@);
    assert(entries[1].0 == "patterns"@);
    assert(entries[2].0 == "required"@);
    assert(entries[3].0 == "retention_days"@);
    assert(distinct_entries(entries));
    lemma_lookup_finds(entries, 0);
    lemma_lookup_finds(entries, 1);
    lemma_lookup_finds(entries, 2);
    lemma_lookup_finds(entries, 3);
    lemma_writable_deeper(entries[0].1, 0, 1);
    lemma_texts_written(texts(artifact.patterns@));
    lemma_writable_deeper(entries[2].1, 0, 1);
    lemma_writable_deeper(entries[3].1, 0, 1);
    assert(entries[0].1.writable(1));
    assert(entries[1].1.writable(1));
    assert(entries[2].1.writable(1));
    assert(entries[3].1.writable(1));
    lemma_table_writable(entries, 1);
}

/// What reads back from what was written of an artifact is written in the same way.
proof fn lemma_artifact_same(artifact: EffectiveArtifact, other: EffectiveArtifact)
    requires
        stored_artifact_reads(artifact_tree(artifact), other),
    ensures
        artifact_tree(other) == artifact_tree(artifact),
{
    lemma_artifact_written(artifact);
    let entries = artifact_tree(artifact)->Table_0;
    lemma_artifact_names();
    assert(entries[0].0 == "name"@);
    assert(entries[1].0 == "patterns"@);
    assert(entries[2].0 == "required"@);
    assert(entries[3].0 == "retention_days"@);
    assert(distinct_entries(entries));
    lemma_lookup_finds(entries, 0);
    lemma_lookup_finds(entries, 1);
    lemma_lookup_finds(entries, 2);
    lemma_lookup_finds(entries, 3);
    assert(artifact_tree(other)->Table_0 =~= entries);
}

fn artifact_document(artifact: &EffectiveArtifact) -> (r: Document)
    ensures
        r@ == artifact_tree(*artifact),
{
    let mut fields = Fields::new();
    fields.put("name", Document::Text(artifact.name.as_str().to_owned()));
    fields.put("patterns", text_list(&artifact.patterns));
    fields.put("required", Document::Bool(artifact.required));
    fields.put("retention_days", Document::Integer(artifact.retention_days as i128));
    assert(fields@ =~= artifact_tree(*artifact)->Table_0);
    fields.build()
}

/// What artifacts are written as.
pub open spec fn artifacts_tree(artifacts: Seq<EffectiveArtifact>) -> Tree {
    Tree::List(artifacts.map_values(|artifact: EffectiveArtifact| artifact_tree(artifact)))
}

proof fn lemma_artifacts_written(artifacts: Seq<EffectiveArtifact>)
    ensures
        artifacts_tree(artifacts).writable(3),
        all_stored_artifact_readable(artifacts_tree(artifacts)->List_0),
        forall|i: int|
            0 <= i < artifacts.len() ==> stored_artifact_reads(
                artifacts_tree(artifacts)->List_0[i],
                #[trigger] artifacts[i],
            ),
{
    let trees = artifacts_tree(artifacts)->List_0;
    assert forall|i: int| 0 <= i < trees.len() implies (#[trigger] trees[i]).writable(2)
        && stored_artifact_readable(trees[i]) by {
        lemma_artifact_written(artifacts[i]);
    }
    assert forall|i: int| 0 <= i < artifacts.len() implies stored_artifact_reads(
        trees[i],
        #[trigger] artifacts[i],
    ) by {
        lemma_artifact_written(artifacts[i]);
    }
}

proof fn lemma_artifacts_same(artifacts: Seq<EffectiveArtifact>, others: Seq<EffectiveArtifact>)
    requires
        others.len() == artifacts.len(),
        forall|i: int|
            0 <= i < others.len() ==> stored_artifact_reads(
                artifacts_tree(artifacts)->List_0[i],
                #[trigger] others[i],
            ),
    ensures
        artifacts_tree(others) == artifacts_tree(artifacts),
{
    let trees = artifacts_tree(artifacts)->List_0;
    assert forall|i: int| 0 <= i < others.len() implies #[trigger] artifacts_tree(others)->List_0[i] == trees[i] by {
        assert(trees[i] == artifact_tree(artifacts[i]));
        assert(stored_artifact_reads(trees[i], others[i]));
        lemma_artifact_same(artifacts[i], others[i]);
    }
    assert(artifacts_tree(others)->List_0 =~= trees);
}

fn artifacts_document(artifacts: &Vec<EffectiveArtifact>) -> (r: Document)
    ensures
        r@ == artifacts_tree(artifacts@),
{
    let mut list: Vec<Document> = Vec::new();
    let mut i: usize = 0;
    while i < artifacts.len()
        invariant
            i <= artifacts@.len(),
            list@.len() == i,
            forall|j: int| 0 <= j < i ==> (#[trigger] list@[j])@ == artifact_tree(artifacts@[j]),
        decreases artifacts@.len() - i,
    {
        list.push(artifact_document(&artifacts[i]));
        i += 1;
    }
    let r = Document::List(list);
    assert(r@->List_0 =~= artifacts_tree(artifacts@)->List_0);
    r
}

/// What a command is written as.
pub open spec fn command_tree(command: EffectiveCommand) -> Tree {
    match command {
        EffectiveCommand::Shell { script } => Tree::Table(
            seq![("kind"@, Tree::Text("shell"@)), ("script"@, Tree::Text(script@))],
        ),
        EffectiveCommand::Argv { argv } => Tree::Table(
            seq![("kind"@, Tree::Text("argv"@)), ("argv"@, text_trees(texts(argv@)))],
        ),
    }
}

/// The words of a command are different.
proof fn lemma_command_names()
    ensures
        "argv"@ != "kind"@,
        "argv"@ != "script"@,
        "argv"@ != "shell"@,
        "kind"@ != "script"@,
        "kind"@ != "shell"@,
        "script"@ != "shell"@,
{
    reveal_strlit("argv");
    reveal_strlit("kind");
    reveal_strlit("script");
    reveal_strlit("shell");
    assert("argv"@[0] != "kind"@[0]);
    assert("argv"@.len() != "script"@.len());
    assert("argv"@.len() != "shell"@.len());
    assert("kind"@.len() != "script"@.len());
    assert("kind"@.len() != "shell"@.len());
    assert("script"@.len() != "shell"@.len());
}

/// What is written of a command has a notation, and reads back as what was written.
proof fn lemma_command_written(command: EffectiveCommand)
    ensures
        command_tree(command).writable(2),
        stored_command_readable(command_tree(command)),
        stored_command_reads(command_tree(command), command),
{
    let entries = command_tree(command)->Table_0;
    lemma_command_names();
    assert(entries[0].0 == "kind"@);
    match command {
        EffectiveCommand::Shell { script } => {
            assert(entries[1].0 == "script"@);
        },
        EffectiveCommand::Argv { argv } => {
            assert(entries[1].0 == "argv"@);
            lemma_texts_written(texts(argv@));
        },
    }
    assert(distinct_entries(entries));
    lemma_lookup_finds(entries, 0);
    lemma_lookup_finds(entries, 1);
    assert(entries[0].1.writable(1));
    assert(entries[1].1.writable(1));
    lemma_table_writable(entries, 1);
}

/// What reads back from what was written of a command is written in the same way.
proof fn lemma_command_same(command: EffectiveCommand, other: EffectiveCommand)
    requires
        stored_command_reads(command_tree(command), other),
    ensures
        command_tree(other) == command_tree(command),
{
    lemma_command_written(command);
    lemma_command_names();
    assert(command_tree(other)->Table_0 =~= command_tree(command)->Table_0);
}

fn command_document(command: &EffectiveCommand) -> (r: Document)
    ensures
        r@ == command_tree(*command),
{
    let mut fields = Fields::new();
    match command {
        EffectiveCommand::Shell { script } => {
            fields.put("kind", Document::Text("shell".to_owned()));
            fields.put("script", Document::Text(script.as_str().to_owned()));
        },
        EffectiveCommand::Argv { argv } => {
            fields.put("kind", Document::Text("argv".to_owned()));
            fields.put("argv", text_list(argv));
        },
    }
    assert(fields@ =~= command_tree(*command)->Table_0);
    fields.build()
}

/// What a step is written as.
pub open spec fn step_tree(step: EffectiveStep) -> Tree {
    Tree::Table(
        seq![
            ("name"@, Tree::Text(step.name@)),
            ("command"@, command_tree(step.command)),
            ("working_directory"@, Tree::Text(step.working_directory@)),
            ("needs"@, text_trees(texts(step.needs@))),
            ("soft_needs"@, text_trees(texts(step.soft_needs@))),
            ("voting"@, Tree::Bool(step.voting)),
            ("final_step"@, Tree::Bool(step.final_step)),
            ("timeout_ns"@, Tree::Integer(step.timeout_ns as int)),
            ("cpu_tokens"@, Tree::Integer(step.cpu_tokens as int)),
            ("memory_bytes"@, Tree::Integer(step.memory_bytes as int)),
            ("rss_limit_bytes"@, optional_number_tree(step.rss_limit_bytes)),
            ("semaphores"@, text_trees(texts(step.semaphores@))),
            ("include"@, text_trees(texts(step.includes@))),
            ("exclude"@, text_trees(texts(step.excludes@))),
            ("environment"@, text_map_tree(step.environment.keys(), step.environment@)),
            ("remove_environment"@, text_trees(texts(step.remove_environment@))),
            ("artifacts"@, artifacts_tree(step.artifacts@)),
        ],
    )
}

/// The fields of a step have different names.
proof fn lemma_step_names()
    ensures
        "artifacts"@ != "command"@,
        "artifacts"@ != "cpu_tokens"@,
        "artifacts"@ != "environment"@,
        "artifacts"@ != "exclude"@,
        "artifacts"@ != "final_step"@,
        "artifacts"@ != "include"@,
        "artifacts"@ != "memory_bytes"@,
        "artifacts"@ != "name"@,
        "artifacts"@ != "needs"@,
        "artifacts"@ != "remove_environment"@,
        "artifacts"@ != "rss_limit_bytes"@,
        "artifacts"@ != "semaphores"@,
        "artifacts"@ != "soft_needs"@,
        "artifacts"@ != "timeout_ns"@,
        "artifacts"@ != "voting"@,
        "artifacts"@ != "working_directory"@,
        "command"@ != "cpu_tokens"@,
        "command"@ != "environment"@,
        "command"@ != "exclude"@,
        "command"@ != "final_step"@,
        "command"@ != "include"@,
        "command"@ != "memory_bytes"@,
        "command"@ != "name"@,
        "command"@ != "needs"@,
        "command"@ != "remove_environment"@,
        "command"@ != "rss_limit_bytes"@,
        "command"@ != "semaphores"@,
        "command"@ != "soft_needs"@,
        "command"@ != "timeout_ns"@,
        "command"@ != "voting"@,
        "command"@ != "working_directory"@,
        "cpu_tokens"@ != "environment"@,
        "cpu_tokens"@ != "exclude"@,
        "cpu_tokens"@ != "final_step"@,
        "cpu_tokens"@ != "include"@,
        "cpu_tokens"@ != "memory_bytes"@,
        "cpu_tokens"@ != "name"@,
        "cpu_tokens"@ != "needs"@,
        "cpu_tokens"@ != "remove_environment"@,
        "cpu_tokens"@ != "rss_limit_bytes"@,
        "cpu_tokens"@ != "semaphores"@,
        "cpu_tokens"@ != "soft_needs"@,
        "cpu_tokens"@ != "timeout_ns"@,
        "cpu_tokens"@ != "voting"@,
        "cpu_tokens"@ != "working_directory"@,
        "environment"@ != "exclude"@,
        "environment"@ != "final_step"@,
        "environment"@ != "include"@,
        "environment"@ != "memory_bytes"@,
        "environment"@ != "name"@,
        "environment"@ != "needs"@,
        "environment"@ != "remove_environment"@,
        "environment"@ != "rss_limit_bytes"@,
        "environment"@ != "semaphores"@,
        "environment"@ != "soft_needs"@,
        "environment"@ != "timeout_ns"@,
        "environment"@ != "voting"@,
        "environment"@ != "working_directory"@,
        "exclude"@ != "final_step"@,
        "exclude"@ != "include"@,
        "exclude"@ != "memory_bytes"@,
        "exclude"@ != "name"@,
        "exclude"@ != "needs"@,
        "exclude"@ != "remove_environment"@,
        "exclude"@ != "rss_limit_bytes"@,
        "exclude"@ != "semaphores"@,
        "exclude"@ != "soft_needs"@,
        "exclude"@ != "timeout_ns"@,
        "exclude"@ != "voting"@,
        "exclude"@ != "working_directory"@,
        "final_step"@ != "include"@,
        "final_step"@ != "memory_bytes"@,
        "final_step"@ != "name"@,
        "final_step"@ != "needs"@,
        "final_step"@ != "remove_environment"@,
        "final_step"@ != "rss_limit_bytes"@,
        "final_step"@ != "semaphores"@,
        "final_step"@ != "soft_needs"@,
        "final_step"@ != "timeout_ns"@,
        "final_step"@ != "voting"@,
        "final_step"@ != "working_directory"@,
        "include"@ != "memory_bytes"@,
        "include"@ != "name"@,
        "include"@ != "needs"@,
        "include"@ != "remove_environment"@,
        "include"@ != "rss_limit_bytes"@,
        "include"@ != "semaphores"@,
        "include"@ != "soft_needs"@,
        "include"@ != "timeout_ns"@,
        "include"@ != "voting"@,
        "include"@ != "working_directory"@,
        "memory_bytes"@ != "name"@,
        "memory_bytes"@ != "needs"@,
        "memory_bytes"@ != "remove_environment"@,
        "memory_bytes"@ != "rss_limit_bytes"@,
        "memory_bytes"@ != "semaphores"@,
        "memory_bytes"@ != "soft_needs"@,
        "memory_bytes"@ != "timeout_ns"@,
        "memory_bytes"@ != "voting"@,
        "memory_bytes"@ != "working_directory"@,
        "name"@ != "needs"@,
        "name"@ != "remove_environment"@,
        "name"@ != "rss_limit_bytes"@,
        "name"@ != "semaphores"@,
        "name"@ != "soft_needs"@,
        "name"@ != "timeout_ns"@,
        "name"@ != "voting"@,
        "name"@ != "working_directory"@,
        "needs"@ != "remove_environment"@,
        "needs"@ != "rss_limit_bytes"@,
        "needs"@ != "semaphores"@,
        "needs"@ != "soft_needs"@,
        "needs"@ != "timeout_ns"@,
        "needs"@ != "voting"@,
        "needs"@ != "working_directory"@,
        "remove_environment"@ != "rss_limit_bytes"@,
        "remove_environment"@ != "semaphores"@,
        "remove_environment"@ != "soft_needs"@,
        "remove_environment"@ != "timeout_ns"@,
        "remove_environment"@ != "voting"@,
        "remove_environment"@ != "working_directory"@,
        "rss_limit_bytes"@ != "semaphores"@,
        "rss_limit_bytes"@ != "soft_needs"@,
        "rss_limit_bytes"@ != "timeout_ns"@,
        "rss_limit_bytes"@ != "voting"@,
        "rss_limit_bytes"@ != "working_directory"@,
        "semaphores"@ != "soft_needs"@,
        "semaphores"@ != "timeout_ns"@,
        "semaphores"@ != "voting"@,
        "semaphores"@ != "working_directory"@,
        "soft_needs"@ != "timeout_ns"@,
        "soft_needs"@ != "voting"@,
        "soft_needs"@ != "working_directory"@,
        "timeout_ns"@ != "voting"@,
        "timeout_ns"@ != "working_directory"@,
        "voting"@ != "working_directory"@,
{
    reveal_strlit("artifacts");
    reveal_strlit("command");
    reveal_strlit("cpu_tokens");
    reveal_strlit("environment");
    reveal_strlit("exclude");
    reveal_strlit("final_step");
    reveal_strlit("include");
    reveal_strlit("memory_bytes");
    reveal_strlit("name");
    reveal_strlit("needs");
    reveal_strlit("remove_environment");
    reveal_strlit("rss_limit_bytes");
    reveal_strlit("semaphores");
    reveal_strlit("soft_needs");
    reveal_strlit("timeout_ns");
    reveal_strlit("voting");
    reveal_strlit("working_directory");
    assert("artifacts"@.len() != "command"@.len());
    assert("artifacts"@.len() != "cpu_tokens"@.len());
    assert("artifacts"@.len() != "environment"@.len());
    assert("artifacts"@.len() != "exclude"@.len());
    assert("artifacts"@.len() != "final_step"@.len());
    assert("artifacts"@.len() != "include"@.len());
    assert("artifacts"@.len() != "memory_bytes"@.len());
    assert("artifacts"@.len() != "name"@.len());
    assert("artifacts"@.len() != "needs"@.len());
    assert("artifacts"@.len() != "remove_environment"@.len());
    assert("artifacts"@.len() != "rss_limit_bytes"@.len());
    assert("artifacts"@.len() != "semaphores"@.len());
    assert("artifacts"@.len() != "soft_needs"@.len());
    assert("artifacts"@.len() != "timeout_ns"@.len());
    assert("artifacts"@.len() != "voting"@.len());
    assert("artifacts"@.len() != "working_directory"@.len());
    assert("command"@.len() != "cpu_tokens"@.len());
    assert("command"@.len() != "environment"@.len());
    assert("command"@[0] != "exclude"@[0]);
    assert("command"@.len() != "final_step"@.len());
    assert("command"@[0] != "include"@[0]);
    assert("command"@.len() != "memory_bytes"@.len());
    assert("command"@.len() != "name"@.len());
    assert("command"@.len() != "needs"@.len());
    assert("command"@.len() != "remove_environment"@.len());
    assert("command"@.len() != "rss_limit_bytes"@.len());
    assert("command"@.len() != "semaphores"@.len());
    assert("command"@.len() != "soft_needs"@.len());
    assert("command"@.len() != "timeout_ns"@.len());
    assert("command"@.len() != "voting"@.len());
    assert("command"@.len() != "working_directory"@.len());
    assert("cpu_tokens"@.len() != "environment"@.len());
    assert("cpu_tokens"@.len() != "exclude"@.len());
    assert("cpu_tokens"@[0] != "final_step"@[0]);
    assert("cpu_tokens"@.len() != "include"@.len());
    assert("cpu_tokens"@.len() != "memory_bytes"@.len());
    assert("cpu_tokens"@.len() != "name"@.len());
    assert("cpu_tokens"@.len() != "needs"@.len());
    assert("cpu_tokens"@.len() != "remove_environment"@.len());
    assert("cpu_tokens"@.len() != "rss_limit_bytes"@.len());
    assert("cpu_tokens"@[0] != "semaphores"@[0]);
    assert("cpu_tokens"@[0] != "soft_needs"@[0]);
    assert("cpu_tokens"@[0] != "timeout_ns"@[0]);
    assert("cpu_tokens"@.len() != "voting"@.len());
    assert("cpu_tokens"@.len() != "working_directory"@.len());
    assert("environment"@.len() != "exclude"@.len());
    assert("environment"@.len() != "final_step"@.len());
    assert("environment"@.len() != "include"@.len());
    assert("environment"@.len() != "memory_bytes"@.len());
    assert("environment"@.len() != "name"@.len());
    assert("environment"@.len() != "needs"@.len());
    assert("environment"@.len() != "remove_environment"@.len());
    assert("environment"@.len() != "rss_limit_bytes"@.len());
    assert("environment"@.len() != "semaphores"@.len());
    assert("environment"@.len() != "soft_needs"@.len());
    assert("environment"@.len() != "timeout_ns"@.len());
    assert("environment"@.len() != "voting"@.len());
    assert("environment"@.len() != "working_directory"@.len());
    assert("exclude"@.len() != "final_step"@.len());
    assert("exclude"@[0] != "include"@[0]);
    assert("exclude"@.len() != "memory_bytes"@.len());
    assert("exclude"@.len() != "name"@.len());
    assert("exclude"@.len() != "needs"@.len());
    assert("exclude"@.len() != "remove_environment"@.len());
    assert("exclude"@.len() != "rss_limit_bytes"@.len());
    assert("exclude"@.len() != "semaphores"@.len());
    assert("exclude"@.len() != "soft_needs"@.len());
    assert("exclude"@.len() != "timeout_ns"@.len());
    assert("exclude"@.len() != "voting"@.len());
    assert("exclude"@.len() != "working_directory"@.len());
    assert("final_step"@.len() != "include"@.len());
    assert("final_step"@.len() != "memory_bytes"@.len());
    assert("final_step"@.len() != "name"@.len());
    assert("final_step"@.len() != "needs"@.len());
    assert("final_step"@.len() != "remove_environment"@.len());
    assert("final_step"@.len() != "rss_limit_bytes"@.len());
    assert("final_step"@[0] != "semaphores"@[0]);
    assert("final_step"@[0] != "soft_needs"@[0]);
    assert("final_step"@[0] != "timeout_ns"@[0]);
    assert("final_step"@.len() != "voting"@.len());
    assert("final_step"@.len() != "working_directory"@.len());
    assert("include"@.len() != "memory_bytes"@.len());
    assert("include"@.len() != "name"@.len());
    assert("include"@.len() != "needs"@.len());
    assert("include"@.len() != "remove_environment"@.len());
    assert("include"@.len() != "rss_limit_bytes"@.len());
    assert("include"@.len() != "semaphores"@.len());
    assert("include"@.len() != "soft_needs"@.len());
    assert("include"@.len() != "timeout_ns"@.len());
    assert("include"@.len() != "voting"@.len());
    assert("include"@.len() != "working_directory"@.len());
    assert("memory_bytes"@.len() != "name"@.len());
    assert("memory_bytes"@.len() != "needs"@.len());
    assert("memory_bytes"@.len() != "remove_environment"@.len());
    assert("memory_bytes"@.len() != "rss_limit_bytes"@.len());
    assert("memory_bytes"@.len() != "semaphores"@.len());
    assert("memory_bytes"@.len() != "soft_needs"@.len());
    assert("memory_bytes"@.len() != "timeout_ns"@.len());
    assert("memory_bytes"@.len() != "voting"@.len());
    assert("memory_bytes"@.len() != "working_directory"@.len());
    assert("name"@.len() != "needs"@.len());
    assert("name"@.len() != "remove_environment"@.len());
    assert("name"@.len() != "rss_limit_bytes"@.len());
    assert("name"@.len() != "semaphores"@.len());
    assert("name"@.len() != "soft_needs"@.len());
    assert("name"@.len() != "timeout_ns"@.len());
    assert("name"@.len() != "voting"@.len());
    assert("name"@.len() != "working_directory"@.len());
    assert("needs"@.len() != "remove_environment"@.len());
    assert("needs"@.len() != "rss_limit_bytes"@.len());
    assert("needs"@.len() != "semaphores"@.len());
    assert("needs"@.len() != "soft_needs"@.len());
    assert("needs"@.len() != "timeout_ns"@.len());
    assert("needs"@.len() != "voting"@.len());
    assert("needs"@.len() != "working_directory"@.len());
    assert("remove_environment"@.len() != "rss_limit_bytes"@.len());
    assert("remove_environment"@.len() != "semaphores"@.len());
    assert("remove_environment"@.len() != "soft_needs"@.len());
    assert("remove_environment"@.len() != "timeout_ns"@.len());
    assert("remove_environment"@.len() != "voting"@.len());
    assert("remove_environment"@.len() != "working_directory"@.len());
    assert("rss_limit_bytes"@.len() != "semaphores"@.len());
    assert("rss_limit_bytes"@.len() != "soft_needs"@.len());
    assert("rss_limit_bytes"@.len() != "timeout_ns"@.len());
    assert("rss_limit_bytes"@.len() != "voting"@.len());
    assert("rss_limit_bytes"@.len() != "working_directory"@.len());
    assert("semaphores"@[1] != "soft_needs"@[1]);
    assert("semaphores"@[0] != "timeout_ns"@[0]);
    assert("semaphores"@.len() != "voting"@.len());
    assert("semaphores"@.len() != "working_directory"@.len());
    assert("soft_needs"@[0] != "timeout_ns"@[0]);
    assert("soft_needs"@.len() != "voting"@.len());
    assert("soft_needs"@.len() != "working_directory"@.len());
    assert("timeout_ns"@.len() != "voting"@.len());
    assert("timeout_ns"@.len() != "working_directory"@.len());
    assert("voting"@.len() != "working_directory"@.len());
}

/// What is written of a step has a notation, and reads back as what was written.
#[verifier::rlimit(50)]
proof fn lemma_step_written(step: EffectiveStep)
    requires
        step.environment.sound(),
    ensures
        step_tree(step).writable(4),
        stored_step_readable(step_tree(step)),
        stored_step_reads(step_tree(step), step),
{
    let entries = step_tree(step)->Table_0;
    lemma_step_names();
    assert(entries[0].0 == "name"@);
    assert(entries[1].0 == "command"@);
    assert(entries[2].0 == "working_directory"@);
    assert(entries[3].0 == "needs"@);
    assert(entries[4].0 == "soft_needs"@);
    assert(entries[5].0 == "voting"@);
    assert(entries[6].0 == "final_step"@);
    assert(entries[7].0 == "timeout_ns"@);
    assert(entries[8].0 == "cpu_tokens"@);
    assert(entries[9].0 == "memory_bytes"@);
    assert(entries[10].0 == "rss_limit_bytes"@);
    assert(entries[11].0 == "semaphores"@);
    assert(entries[12].0 == "include"@);
    assert(entries[13].0 == "exclude"@);
    assert(entries[14].0 == "environment"@);
    assert(entries[15].0 == "remove_environment"@);
    assert(entries[16].0 == "artifacts"@);
    assert(distinct_entries(entries));
    lemma_lookup_finds(entries, 0);
    lemma_lookup_finds(entries, 1);
    lemma_lookup_finds(entries, 2);
    lemma_lookup_finds(entries, 3);
    lemma_lookup_finds(entries, 4);
    lemma_lookup_finds(entries, 5);
    lemma_lookup_finds(entries, 6);
    lemma_lookup_finds(entries, 7);
    lemma_lookup_finds(entries, 8);
    lemma_lookup_finds(entries, 9);
    lemma_lookup_finds(entries, 10);
    lemma_lookup_finds(entries, 11);
    lemma_lookup_finds(entries, 12);
    lemma_lookup_finds(entries, 13);
    lemma_lookup_finds(entries, 14);
    lemma_lookup_finds(entries, 15);
    lemma_lookup_finds(entries, 16);
    lemma_writable_deeper(entries[0].1, 0, 3);
    lemma_command_written(step.command);
    lemma_writable_deeper(entries[1].1, 2, 3);
    lemma_writable_deeper(entries[2].1, 0, 3);
    lemma_texts_written(texts(step.needs@));
    lemma_writable_deeper(entries[3].1, 1, 3);
    lemma_texts_written(texts(step.soft_needs@));
    lemma_writable_deeper(entries[4].1, 1, 3);
    lemma_writable_deeper(entries[5].1, 0, 3);
    lemma_writable_deeper(entries[6].1, 0, 3);
    lemma_writable_deeper(entries[7].1, 0, 3);
    lemma_writable_deeper(entries[8].1, 0, 3);
    lemma_writable_deeper(entries[9].1, 0, 3);
    lemma_writable_deeper(entries[10].1, 0, 3);
    lemma_texts_written(texts(step.semaphores@));
    lemma_writable_deeper(entries[11].1, 1, 3);
    lemma_texts_written(texts(step.includes@));
    lemma_writable_deeper(entries[12].1, 1, 3);
    lemma_texts_written(texts(step.excludes@));
    lemma_writable_deeper(entries[13].1, 1, 3);
    lemma_text_map_tree(step.environment);
    lemma_writable_deeper(entries[14].1, 1, 3);
    lemma_texts_written(texts(step.remove_environment@));
    lemma_writable_deeper(entries[15].1, 1, 3);
    lemma_artifacts_written(step.artifacts@);
    assert(entries[0].1.writable(3));
    assert(entries[1].1.writable(3));
    assert(entries[2].1.writable(3));
    assert(entries[3].1.writable(3));
    assert(entries[4].1.writable(3));
    assert(entries[5].1.writable(3));
    assert(entries[6].1.writable(3));
    assert(entries[7].1.writable(3));
    assert(entries[8].1.writable(3));
    assert(entries[9].1.writable(3));
    assert(entries[10].1.writable(3));
    assert(entries[11].1.writable(3));
    assert(entries[12].1.writable(3));
    assert(entries[13].1.writable(3));
    assert(entries[14].1.writable(3));
    assert(entries[15].1.writable(3));
    assert(entries[16].1.writable(3));
    lemma_table_writable(entries, 3);
}

/// What reads back from what was written of a step is written in the same way.
#[verifier::rlimit(50)]
proof fn lemma_step_same(step: EffectiveStep, other: EffectiveStep)
    requires
        stored_step_reads(step_tree(step), other),
        step.environment.sound(),
        other.environment.sound(),
    ensures
        step_tree(other) == step_tree(step),
{
    lemma_step_written(step);
    let entries = step_tree(step)->Table_0;
    lemma_step_names();
    assert(entries[0].0 == "name"@);
    assert(entries[1].0 == "command"@);
    assert(entries[2].0 == "working_directory"@);
    assert(entries[3].0 == "needs"@);
    assert(entries[4].0 == "soft_needs"@);
    assert(entries[5].0 == "voting"@);
    assert(entries[6].0 == "final_step"@);
    assert(entries[7].0 == "timeout_ns"@);
    assert(entries[8].0 == "cpu_tokens"@);
    assert(entries[9].0 == "memory_bytes"@);
    assert(entries[10].0 == "rss_limit_bytes"@);
    assert(entries[11].0 == "semaphores"@);
    assert(entries[12].0 == "include"@);
    assert(entries[13].0 == "exclude"@);
    assert(entries[14].0 == "environment"@);
    assert(entries[15].0 == "remove_environment"@);
    assert(entries[16].0 == "artifacts"@);
    assert(distinct_entries(entries));
    lemma_lookup_finds(entries, 0);
    lemma_lookup_finds(entries, 1);
    lemma_lookup_finds(entries, 2);
    lemma_lookup_finds(entries, 3);
    lemma_lookup_finds(entries, 4);
    lemma_lookup_finds(entries, 5);
    lemma_lookup_finds(entries, 6);
    lemma_lookup_finds(entries, 7);
    lemma_lookup_finds(entries, 8);
    lemma_lookup_finds(entries, 9);
    lemma_lookup_finds(entries, 10);
    lemma_lookup_finds(entries, 11);
    lemma_lookup_finds(entries, 12);
    lemma_lookup_finds(entries, 13);
    lemma_lookup_finds(entries, 14);
    lemma_lookup_finds(entries, 15);
    lemma_lookup_finds(entries, 16);
    lemma_command_same(step.command, other.command);
    lemma_text_map_tree(step.environment);
    lemma_one_table_one_notation(entries[14].1, step.environment, other.environment);
    lemma_artifacts_same(step.artifacts@, other.artifacts@);
    assert(step_tree(other)->Table_0 =~= entries);
}

fn step_document(step: &EffectiveStep) -> (r: Document)
    ensures
        r@ == step_tree(*step),
        step.environment.sound(),
{
    let mut fields = Fields::new();
    fields.put("name", Document::Text(step.name.as_str().to_owned()));
    fields.put("command", command_document(&step.command));
    fields.put("working_directory", Document::Text(step.working_directory.as_str().to_owned()));
    fields.put("needs", text_list(&step.needs));
    fields.put("soft_needs", text_list(&step.soft_needs));
    fields.put("voting", Document::Bool(step.voting));
    fields.put("final_step", Document::Bool(step.final_step));
    fields.put("timeout_ns", Document::Integer(step.timeout_ns as i128));
    fields.put("cpu_tokens", Document::Integer(step.cpu_tokens as i128));
    fields.put("memory_bytes", Document::Integer(step.memory_bytes as i128));
    fields.put("rss_limit_bytes", optional_number_document(step.rss_limit_bytes));
    fields.put("semaphores", text_list(&step.semaphores));
    fields.put("include", text_list(&step.includes));
    fields.put("exclude", text_list(&step.excludes));
    fields.put("environment", text_map_document(&step.environment));
    fields.put("remove_environment", text_list(&step.remove_environment));
    fields.put("artifacts", artifacts_document(&step.artifacts));
    assert(fields@ =~= step_tree(*step)->Table_0);
    fields.build()
}

/// What steps are written as.
pub open spec fn steps_tree(steps: Seq<EffectiveStep>) -> Tree {
    Tree::List(steps.map_values(|step: EffectiveStep| step_tree(step)))
}

proof fn lemma_steps_written(steps: Seq<EffectiveStep>)
    requires
        forall|i: int| 0 <= i < steps.len() ==> (#[trigger] steps[i]).environment.sound(),
    ensures
        steps_tree(steps).writable(5),
        all_stored_step_readable(steps_tree(steps)->List_0),
        forall|i: int|
            0 <= i < steps.len() ==> stored_step_reads(
                steps_tree(steps)->List_0[i],
                #[trigger] steps[i],
            ),
{
    let trees = steps_tree(steps)->List_0;
    assert forall|i: int| 0 <= i < trees.len() implies (#[trigger] trees[i]).writable(4)
        && stored_step_readable(trees[i]) by {
        lemma_step_written(steps[i]);
    }
    assert forall|i: int| 0 <= i < steps.len() implies stored_step_reads(
        trees[i],
        #[trigger] steps[i],
    ) by {
        lemma_step_written(steps[i]);
    }
}

proof fn lemma_steps_same(steps: Seq<EffectiveStep>, others: Seq<EffectiveStep>)
    requires
        others.len() == steps.len(),
        forall|i: int|
            0 <= i < others.len() ==> stored_step_reads(
                steps_tree(steps)->List_0[i],
                #[trigger] others[i],
            ),
        forall|i: int| 0 <= i < steps.len() ==> (#[trigger] steps[i]).environment.sound(),
        forall|i: int| 0 <= i < others.len() ==> (#[trigger] others[i]).environment.sound(),
    ensures
        steps_tree(others) == steps_tree(steps),
{
    let trees = steps_tree(steps)->List_0;
    assert forall|i: int| 0 <= i < others.len() implies #[trigger] steps_tree(others)->List_0[i] == trees[i] by {
        assert(trees[i] == step_tree(steps[i]));
        assert(stored_step_reads(trees[i], others[i]));
        lemma_step_same(steps[i], others[i]);
    }
    assert(steps_tree(others)->List_0 =~= trees);
}

fn steps_document(steps: &Vec<EffectiveStep>) -> (r: Document)
    ensures
        r@ == steps_tree(steps@),
        forall|i: int| 0 <= i < steps@.len() ==> (#[trigger] steps@[i]).environment.sound(),
{
    let mut list: Vec<Document> = Vec::new();
    let mut i: usize = 0;
    while i < steps.len()
        invariant
            i <= steps@.len(),
            list@.len() == i,
            forall|j: int| 0 <= j < i ==> (#[trigger] list@[j])@ == step_tree(steps@[j]),
            forall|j: int| 0 <= j < i ==> (#[trigger] steps@[j]).environment.sound(),
        decreases steps@.len() - i,
    {
        list.push(step_document(&steps[i]));
        i += 1;
    }
    let r = Document::List(list);
    assert(r@->List_0 =~= steps_tree(steps@)->List_0);
    r
}

/// What resources is written as.
pub open spec fn resources_tree(resources: EffectiveResources) -> Tree {
    Tree::Table(
        seq![
            ("max_buildsets"@, Tree::Integer(resources.max_buildsets as int)),
            ("cpu_tokens"@, Tree::Integer(resources.cpu_tokens as int)),
            ("memory_bytes"@, Tree::Integer(resources.memory_bytes as int)),
            ("repository_concurrency"@, Tree::Integer(resources.repository_concurrency as int)),
            ("scheduler_weight"@, Tree::Integer(resources.scheduler_weight as int)),
            ("volume_warning_bytes"@, Tree::Integer(resources.volume_warning_bytes as int)),
            ("volume_critical_bytes"@, Tree::Integer(resources.volume_critical_bytes as int)),
            ("volume_emergency_bytes"@, Tree::Integer(resources.volume_emergency_bytes as int)),
        ],
    )
}

/// The fields of resources have different names.
proof fn lemma_resources_names()
    ensures
        "cpu_tokens"@ != "max_buildsets"@,
        "cpu_tokens"@ != "memory_bytes"@,
        "cpu_tokens"@ != "repository_concurrency"@,
        "cpu_tokens"@ != "scheduler_weight"@,
        "cpu_tokens"@ != "volume_critical_bytes"@,
        "cpu_tokens"@ != "volume_emergency_bytes"@,
        "cpu_tokens"@ != "volume_warning_bytes"@,
        "max_buildsets"@ != "memory_bytes"@,
        "max_buildsets"@ != "repository_concurrency"@,
        "max_buildsets"@ != "scheduler_weight"@,
        "max_buildsets"@ != "volume_critical_bytes"@,
        "max_buildsets"@ != "volume_emergency_bytes"@,
        "max_buildsets"@ != "volume_warning_bytes"@,
        "memory_bytes"@ != "repository_concurrency"@,
        "memory_bytes"@ != "scheduler_weight"@,
        "memory_bytes"@ != "volume_critical_bytes"@,
        "memory_bytes"@ != "volume_emergency_bytes"@,
        "memory_bytes"@ != "volume_warning_bytes"@,
        "repository_concurrency"@ != "scheduler_weight"@,
        "repository_concurrency"@ != "volume_critical_bytes"@,
        "repository_concurrency"@ != "volume_emergency_bytes"@,
        "repository_concurrency"@ != "volume_warning_bytes"@,
        "scheduler_weight"@ != "volume_critical_bytes"@,
        "scheduler_weight"@ != "volume_emergency_bytes"@,
        "scheduler_weight"@ != "volume_warning_bytes"@,
        "volume_critical_bytes"@ != "volume_emergency_bytes"@,
        "volume_critical_bytes"@ != "volume_warning_bytes"@,
        "volume_emergency_bytes"@ != "volume_warning_bytes"@,
{
    reveal_strlit("cpu_tokens");
    reveal_strlit("max_buildsets");
    reveal_strlit("memory_bytes");
    reveal_strlit("repository_concurrency");
    reveal_strlit("scheduler_weight");
    reveal_strlit("volume_critical_bytes");
    reveal_strlit("volume_emergency_bytes");
    reveal_strlit("volume_warning_bytes");
    assert("cpu_tokens"@.len() != "max_buildsets"@.len());
    assert("cpu_tokens"@.len() != "memory_bytes"@.len());
    assert("cpu_tokens"@.len() != "repository_concurrency"@.len());
    assert("cpu_tokens"@.len() != "scheduler_weight"@.len());
    assert("cpu_tokens"@.len() != "volume_critical_bytes"@.len());
    assert("cpu_tokens"@.len() != "volume_emergency_bytes"@.len());
    assert("cpu_tokens"@.len() != "volume_warning_bytes"@.len());
    assert("max_buildsets"@.len() != "memory_bytes"@.len());
    assert("max_buildsets"@.len() != "repository_concurrency"@.len());
    assert("max_buildsets"@.len() != "scheduler_weight"@.len());
    assert("max_buildsets"@.len() != "volume_critical_bytes"@.len());
    assert("max_buildsets"@.len() != "volume_emergency_bytes"@.len());
    assert("max_buildsets"@.len() != "volume_warning_bytes"@.len());
    assert("memory_bytes"@.len() != "repository_concurrency"@.len());
    assert("memory_bytes"@.len() != "scheduler_weight"@.len());
    assert("memory_bytes"@.len() != "volume_critical_bytes"@.len());
    assert("memory_bytes"@.len() != "volume_emergency_bytes"@.len());
    assert("memory_bytes"@.len() != "volume_warning_bytes"@.len());
    assert("repository_concurrency"@.len() != "scheduler_weight"@.len());
    assert("repository_concurrency"@.len() != "volume_critical_bytes"@.len());
    assert("repository_concurrency"@[0] != "volume_emergency_bytes"@[0]);
    assert("repository_concurrency"@.len() != "volume_warning_bytes"@.len());
    assert("scheduler_weight"@.len() != "volume_critical_bytes"@.len());
    assert("scheduler_weight"@.len() != "volume_emergency_bytes"@.len());
    assert("scheduler_weight"@.len() != "volume_warning_bytes"@.len());
    assert("volume_critical_bytes"@.len() != "volume_emergency_bytes"@.len());
    assert("volume_critical_bytes"@.len() != "volume_warning_bytes"@.len());
    assert("volume_emergency_bytes"@.len() != "volume_warning_bytes"@.len());
}

/// What is written of resources has a notation, and reads back as what was written.
proof fn lemma_resources_written(resources: EffectiveResources)
    ensures
        resources_tree(resources).writable(1),
        stored_resources_readable(resources_tree(resources)),
        stored_resources_reads(resources_tree(resources), resources),
{
    let entries = resources_tree(resources)->Table_0;
    lemma_resources_names();
    assert(entries[0].0 == "max_buildsets"@);
    assert(entries[1].0 == "cpu_tokens"@);
    assert(entries[2].0 == "memory_bytes"@);
    assert(entries[3].0 == "repository_concurrency"@);
    assert(entries[4].0 == "scheduler_weight"@);
    assert(entries[5].0 == "volume_warning_bytes"@);
    assert(entries[6].0 == "volume_critical_bytes"@);
    assert(entries[7].0 == "volume_emergency_bytes"@);
    assert(distinct_entries(entries));
    lemma_lookup_finds(entries, 0);
    lemma_lookup_finds(entries, 1);
    lemma_lookup_finds(entries, 2);
    lemma_lookup_finds(entries, 3);
    lemma_lookup_finds(entries, 4);
    lemma_lookup_finds(entries, 5);
    lemma_lookup_finds(entries, 6);
    lemma_lookup_finds(entries, 7);
    assert(entries[0].1.writable(0));
    assert(entries[1].1.writable(0));
    assert(entries[2].1.writable(0));
    assert(entries[3].1.writable(0));
    assert(entries[4].1.writable(0));
    assert(entries[5].1.writable(0));
    assert(entries[6].1.writable(0));
    assert(entries[7].1.writable(0));
    lemma_table_writable(entries, 0);
}

/// What reads back from what was written of resources is written in the same way.
proof fn lemma_resources_same(resources: EffectiveResources, other: EffectiveResources)
    requires
        stored_resources_reads(resources_tree(resources), other),
    ensures
        resources_tree(other) == resources_tree(resources),
{
    lemma_resources_written(resources);
    let entries = resources_tree(resources)->Table_0;
    lemma_resources_names();
    assert(entries[0].0 == "max_buildsets"@);
    assert(entries[1].0 == "cpu_tokens"@);
    assert(entries[2].0 == "memory_bytes"@);
    assert(entries[3].0 == "repository_concurrency"@);
    assert(entries[4].0 == "scheduler_weight"@);
    assert(entries[5].0 == "volume_warning_bytes"@);
    assert(entries[6].0 == "volume_critical_bytes"@);
    assert(entries[7].0 == "volume_emergency_bytes"@);
    assert(distinct_entries(entries));
    lemma_lookup_finds(entries, 0);
    lemma_lookup_finds(entries, 1);
    lemma_lookup_finds(entries, 2);
    lemma_lookup_finds(entries, 3);
    lemma_lookup_finds(entries, 4);
    lemma_lookup_finds(entries, 5);
    lemma_lookup_finds(entries, 6);
    lemma_lookup_finds(entries, 7);
    assert(resources_tree(other)->Table_0 =~= entries);
}

fn resources_document(resources: &EffectiveResources) -> (r: Document)
    ensures
        r@ == resources_tree(*resources),
{
    let mut fields = Fields::new();
    fields.put("max_buildsets", Document::Integer(resources.max_buildsets as i128));
    fields.put("cpu_tokens", Document::Integer(resources.cpu_tokens as i128));
    fields.put("memory_bytes", Document::Integer(resources.memory_bytes as i128));
    fields.put("repository_concurrency", Document::Integer(resources.repository_concurrency as i128));
    fields.put("scheduler_weight", Document::Integer(resources.scheduler_weight as i128));
    fields.put("volume_warning_bytes", Document::Integer(resources.volume_warning_bytes as i128));
    fields.put("volume_critical_bytes", Document::Integer(resources.volume_critical_bytes as i128));
    fields.put("volume_emergency_bytes", Document::Integer(resources.volume_emergency_bytes as i128));
    assert(fields@ =~= resources_tree(*resources)->Table_0);
    fields.build()
}

/// What a remote is written as.
pub open spec fn remote_tree(remote: EffectiveRemote) -> Tree {
    Tree::Table(
        seq![
            ("enabled"@, Tree::Bool(remote.enabled)),
            ("name"@, Tree::Text(remote.name@)),
            ("branch"@, Tree::Text(remote.branch@)),
        ],
    )
}

/// The fields of a remote have different names.
proof fn lemma_remote_names()
    ensures
        "branch"@ != "enabled"@,
        "branch"@ != "name"@,
        "enabled"@ != "name"@,
{
    reveal_strlit("branch");
    reveal_strlit("enabled");
    reveal_strlit("name");
    assert("branch"@.len() != "enabled"@.len());
    assert("branch"@.len() != "name"@.len());
    assert("enabled"@.len() != "name"@.len());
}

/// What is written of a remote has a notation, and reads back as what was written.
proof fn lemma_remote_written(remote: EffectiveRemote)
    ensures
        remote_tree(remote).writable(1),
        stored_remote_readable(remote_tree(remote)),
        stored_remote_reads(remote_tree(remote), remote),
{
    let entries = remote_tree(remote)->Table_0;
    lemma_remote_names();
    assert(entries[0].0 == "enabled"@);
    assert(entries[1].0 == "name"@);
    assert(entries[2].0 == "branch"@);
    assert(distinct_entries(entries));
    lemma_lookup_finds(entries, 0);
    lemma_lookup_finds(entries, 1);
    lemma_lookup_finds(entries, 2);
    assert(entries[0].1.writable(0));
    assert(entries[1].1.writable(0));
    assert(entries[2].1.writable(0));
    lemma_table_writable(entries, 0);
}

/// What reads back from what was written of a remote is written in the same way.
proof fn lemma_remote_same(remote: EffectiveRemote, other: EffectiveRemote)
    requires
        stored_remote_reads(remote_tree(remote), other),
    ensures
        remote_tree(other) == remote_tree(remote),
{
    lemma_remote_written(remote);
    let entries = remote_tree(remote)->Table_0;
    lemma_remote_names();
    assert(entries[0].0 == "enabled"@);
    assert(entries[1].0 == "name"@);
    assert(entries[2].0 == "branch"@);
    assert(distinct_entries(entries));
    lemma_lookup_finds(entries, 0);
    lemma_lookup_finds(entries, 1);
    lemma_lookup_finds(entries, 2);
    assert(remote_tree(other)->Table_0 =~= entries);
}

fn remote_document(remote: &EffectiveRemote) -> (r: Document)
    ensures
        r@ == remote_tree(*remote),
{
    let mut fields = Fields::new();
    fields.put("enabled", Document::Bool(remote.enabled));
    fields.put("name", Document::Text(remote.name.as_str().to_owned()));
    fields.put("branch", Document::Text(remote.branch.as_str().to_owned()));
    assert(fields@ =~= remote_tree(*remote)->Table_0);
    fields.build()
}

/// What a cached path is written as.
pub open spec fn cache_path_tree(cache_path: EffectiveCachePath) -> Tree {
    Tree::Table(
        seq![
            ("path"@, Tree::Text(cache_path.path@)),
            ("policy"@, Tree::Text(cache_path.policy.wire_name())),
        ],
    )
}

/// The fields of a cached path have different names.
proof fn lemma_cache_path_names()
    ensures
        "path"@ != "policy"@,
{
    reveal_strlit("path");
    reveal_strlit("policy");
    assert("path"@.len() != "policy"@.len());
}

/// What is written of a cached path has a notation, and reads back as what was written.
proof fn lemma_cache_path_written(cache_path: EffectiveCachePath)
    ensures
        cache_path_tree(cache_path).writable(1),
        stored_cache_path_readable(cache_path_tree(cache_path)),
        stored_cache_path_reads(cache_path_tree(cache_path), cache_path),
{
    let entries = cache_path_tree(cache_path)->Table_0;
    lemma_cache_path_names();
    assert(entries[0].0 == "path"@);
    assert(entries[1].0 == "policy"@);
    assert(distinct_entries(entries));
    lemma_lookup_finds(entries, 0);
    lemma_lookup_finds(entries, 1);
    assert(entries[0].1.writable(0));
    assert(entries[1].1.writable(0));
    lemma_table_writable(entries, 0);
}

/// What reads back from what was written of a cached path is written in the same way.
proof fn lemma_cache_path_same(cache_path: EffectiveCachePath, other: EffectiveCachePath)
    requires
        stored_cache_path_reads(cache_path_tree(cache_path), other),
    ensures
        cache_path_tree(other) == cache_path_tree(cache_path),
{
    lemma_cache_path_written(cache_path);
    let entries = cache_path_tree(cache_path)->Table_0;
    lemma_cache_path_names();
    assert(entries[0].0 == "path"@);
    assert(entries[1].0 == "policy"@);
    assert(distinct_entries(entries));
    lemma_lookup_finds(entries, 0);
    lemma_lookup_finds(entries, 1);
    assert(cache_path_tree(other)->Table_0 =~= entries);
}

fn cache_path_document(cache_path: &EffectiveCachePath) -> (r: Document)
    ensures
        r@ == cache_path_tree(*cache_path),
{
    let mut fields = Fields::new();
    fields.put("path", Document::Text(cache_path.path.as_str().to_owned()));
    fields.put("policy", Document::Text(cache_path.policy.as_str().to_owned()));
    assert(fields@ =~= cache_path_tree(*cache_path)->Table_0);
    fields.build()
}

/// What cached paths are written as.
pub open spec fn cache_paths_tree(cache_paths: Seq<EffectiveCachePath>) -> Tree {
    Tree::List(cache_paths.map_values(|cache_path: EffectiveCachePath| cache_path_tree(cache_path)))
}

proof fn lemma_cache_paths_written(cache_paths: Seq<EffectiveCachePath>)
    ensures
        cache_paths_tree(cache_paths).writable(2),
        all_stored_cache_path_readable(cache_paths_tree(cache_paths)->List_0),
        forall|i: int|
            0 <= i < cache_paths.len() ==> stored_cache_path_reads(
                cache_paths_tree(cache_paths)->List_0[i],
                #[trigger] cache_paths[i],
            ),
{
    let trees = cache_paths_tree(cache_paths)->List_0;
    assert forall|i: int| 0 <= i < trees.len() implies (#[trigger] trees[i]).writable(1)
        && stored_cache_path_readable(trees[i]) by {
        lemma_cache_path_written(cache_paths[i]);
    }
    assert forall|i: int| 0 <= i < cache_paths.len() implies stored_cache_path_reads(
        trees[i],
        #[trigger] cache_paths[i],
    ) by {
        lemma_cache_path_written(cache_paths[i]);
    }
}

proof fn lemma_cache_paths_same(cache_paths: Seq<EffectiveCachePath>, others: Seq<EffectiveCachePath>)
    requires
        others.len() == cache_paths.len(),
        forall|i: int|
            0 <= i < others.len() ==> stored_cache_path_reads(
                cache_paths_tree(cache_paths)->List_0[i],
                #[trigger] others[i],
            ),
    ensures
        cache_paths_tree(others) == cache_paths_tree(cache_paths),
{
    let trees = cache_paths_tree(cache_paths)->List_0;
    assert forall|i: int| 0 <= i < others.len() implies #[trigger] cache_paths_tree(others)->List_0[i] == trees[i] by {
        assert(trees[i] == cache_path_tree(cache_paths[i]));
        assert(stored_cache_path_reads(trees[i], others[i]));
        lemma_cache_path_same(cache_paths[i], others[i]);
    }
    assert(cache_paths_tree(others)->List_0 =~= trees);
}

fn cache_paths_document(cache_paths: &Vec<EffectiveCachePath>) -> (r: Document)
    ensures
        r@ == cache_paths_tree(cache_paths@),
{
    let mut list: Vec<Document> = Vec::new();
    let mut i: usize = 0;
    while i < cache_paths.len()
        invariant
            i <= cache_paths@.len(),
            list@.len() == i,
            forall|j: int| 0 <= j < i ==> (#[trigger] list@[j])@ == cache_path_tree(cache_paths@[j]),
        decreases cache_paths@.len() - i,
    {
        list.push(cache_path_document(&cache_paths[i]));
        i += 1;
    }
    let r = Document::List(list);
    assert(r@->List_0 =~= cache_paths_tree(cache_paths@)->List_0);
    r
}

/// What a cache section is written as.
pub open spec fn cache_tree(cache: EffectiveCache) -> Tree {
    Tree::Table(
        seq![
            ("epoch"@, Tree::Integer(cache.epoch as int)),
            ("paths"@, cache_paths_tree(cache.paths@)),
        ],
    )
}

/// The fields of a cache section have different names.
proof fn lemma_cache_names()
    ensures
        "epoch"@ != "paths"@,
{
    reveal_strlit("epoch");
    reveal_strlit("paths");
    assert("epoch"@[0] != "paths"@[0]);
}

/// What is written of a cache section has a notation, and reads back as what was written.
proof fn lemma_cache_written(cache: EffectiveCache)
    ensures
        cache_tree(cache).writable(3),
        stored_cache_readable(cache_tree(cache)),
        stored_cache_reads(cache_tree(cache), cache),
{
    let entries = cache_tree(cache)->Table_0;
    lemma_cache_names();
    assert(entries[0].0 == "epoch"@);
    assert(entries[1].0 == "paths"@);
    assert(distinct_entries(entries));
    lemma_lookup_finds(entries, 0);
    lemma_lookup_finds(entries, 1);
    lemma_writable_deeper(entries[0].1, 0, 2);
    lemma_cache_paths_written(cache.paths@);
    assert(entries[0].1.writable(2));
    assert(entries[1].1.writable(2));
    lemma_table_writable(entries, 2);
}

/// What reads back from what was written of a cache section is written in the same way.
proof fn lemma_cache_same(cache: EffectiveCache, other: EffectiveCache)
    requires
        stored_cache_reads(cache_tree(cache), other),
    ensures
        cache_tree(other) == cache_tree(cache),
{
    lemma_cache_written(cache);
    let entries = cache_tree(cache)->Table_0;
    lemma_cache_names();
    assert(entries[0].0 == "epoch"@);
    assert(entries[1].0 == "paths"@);
    assert(distinct_entries(entries));
    lemma_lookup_finds(entries, 0);
    lemma_lookup_finds(entries, 1);
    lemma_cache_paths_same(cache.paths@, other.paths@);
    assert(cache_tree(other)->Table_0 =~= entries);
}

fn cache_document(cache: &EffectiveCache) -> (r: Document)
    ensures
        r@ == cache_tree(*cache),
{
    let mut fields = Fields::new();
    fields.put("epoch", Document::Integer(cache.epoch as i128));
    fields.put("paths", cache_paths_document(&cache.paths));
    assert(fields@ =~= cache_tree(*cache)->Table_0);
    fields.build()
}

/// That the user's branch is not to follow; the usual choice is not written.
pub open spec fn opting_out(sync_user_master: bool) -> Seq<(Seq<char>, Tree)> {
    if sync_user_master {
        Seq::empty()
    } else {
        seq![("sync_user_master"@, Tree::Bool(false))]
    }
}

/// What a configuration is written as, without its digests.
pub open spec fn config_tree(config: EffectiveConfig) -> Tree {
    Tree::Table(
        seq![
            ("version"@, Tree::Integer(config.version as int)),
            ("runner"@, text_trees(texts(config.runner@))),
            ("allow_no_job"@, Tree::Bool(config.allow_no_job)),
            ("allow_concurrent_roots"@, Tree::Bool(config.allow_concurrent_roots)),
        ] + opting_out(config.sync_user_master) + seq![
            ("steps"@, steps_tree(config.steps@)),
            ("resources"@, resources_tree(config.resources)),
            ("remote"@, remote_tree(config.remote)),
            ("cache"@, cache_tree(config.cache)),
        ],
    )
}

/// The variables of every step are in order, as they always are.
pub open spec fn steps_sound(steps: Seq<EffectiveStep>) -> bool {
    forall|i: int| 0 <= i < steps.len() ==> (#[trigger] steps[i]).environment.sound()
}

/// The fields of a configuration have different names.
proof fn lemma_config_names()
    ensures
        "allow_concurrent_roots"@ != "allow_no_job"@,
        "allow_concurrent_roots"@ != "cache"@,
        "allow_concurrent_roots"@ != "remote"@,
        "allow_concurrent_roots"@ != "resources"@,
        "allow_concurrent_roots"@ != "runner"@,
        "allow_concurrent_roots"@ != "steps"@,
        "allow_concurrent_roots"@ != "sync_user_master"@,
        "allow_concurrent_roots"@ != "version"@,
        "allow_no_job"@ != "cache"@,
        "allow_no_job"@ != "remote"@,
        "allow_no_job"@ != "resources"@,
        "allow_no_job"@ != "runner"@,
        "allow_no_job"@ != "steps"@,
        "allow_no_job"@ != "sync_user_master"@,
        "allow_no_job"@ != "version"@,
        "cache"@ != "remote"@,
        "cache"@ != "resources"@,
        "cache"@ != "runner"@,
        "cache"@ != "steps"@,
        "cache"@ != "sync_user_master"@,
        "cache"@ != "version"@,
        "remote"@ != "resources"@,
        "remote"@ != "runner"@,
        "remote"@ != "steps"@,
        "remote"@ != "sync_user_master"@,
        "remote"@ != "version"@,
        "resources"@ != "runner"@,
        "resources"@ != "steps"@,
        "resources"@ != "sync_user_master"@,
        "resources"@ != "version"@,
        "runner"@ != "steps"@,
        "runner"@ != "sync_user_master"@,
        "runner"@ != "version"@,
        "steps"@ != "sync_user_master"@,
        "steps"@ != "version"@,
        "sync_user_master"@ != "version"@,
{
    reveal_strlit("allow_concurrent_roots");
    reveal_strlit("allow_no_job");
    reveal_strlit("cache");
    reveal_strlit("remote");
    reveal_strlit("resources");
    reveal_strlit("runner");
    reveal_strlit("steps");
    reveal_strlit("sync_user_master");
    reveal_strlit("version");
    assert("allow_concurrent_roots"@.len() != "allow_no_job"@.len());
    assert("allow_concurrent_roots"@.len() != "cache"@.len());
    assert("allow_concurrent_roots"@.len() != "remote"@.len());
    assert("allow_concurrent_roots"@.len() != "resources"@.len());
    assert("allow_concurrent_roots"@.len() != "runner"@.len());
    assert("allow_concurrent_roots"@.len() != "steps"@.len());
    assert("allow_concurrent_roots"@.len() != "sync_user_master"@.len());
    assert("allow_concurrent_roots"@.len() != "version"@.len());
    assert("allow_no_job"@.len() != "cache"@.len());
    assert("allow_no_job"@.len() != "remote"@.len());
    assert("allow_no_job"@.len() != "resources"@.len());
    assert("allow_no_job"@.len() != "runner"@.len());
    assert("allow_no_job"@.len() != "steps"@.len());
    assert("allow_no_job"@.len() != "sync_user_master"@.len());
    assert("allow_no_job"@.len() != "version"@.len());
    assert("cache"@.len() != "remote"@.len());
    assert("cache"@.len() != "resources"@.len());
    assert("cache"@.len() != "runner"@.len());
    assert("cache"@[0] != "steps"@[0]);
    assert("cache"@.len() != "sync_user_master"@.len());
    assert("cache"@.len() != "version"@.len());
    assert("remote"@.len() != "resources"@.len());
    assert("remote"@[1] != "runner"@[1]);
    assert("remote"@.len() != "steps"@.len());
    assert("remote"@.len() != "sync_user_master"@.len());
    assert("remote"@.len() != "version"@.len());
    assert("resources"@.len() != "runner"@.len());
    assert("resources"@.len() != "steps"@.len());
    assert("resources"@.len() != "sync_user_master"@.len());
    assert("resources"@.len() != "version"@.len());
    assert("runner"@.len() != "steps"@.len());
    assert("runner"@.len() != "sync_user_master"@.len());
    assert("runner"@.len() != "version"@.len());
    assert("steps"@.len() != "sync_user_master"@.len());
    assert("steps"@.len() != "version"@.len());
    assert("sync_user_master"@.len() != "version"@.len());
}

/// The fields of what is written of a configuration.
proof fn lemma_config_fields(config: EffectiveConfig)
    ensures
        distinct_entries(config_tree(config)->Table_0),
        config_tree(config).field("version"@) == Some(Tree::Integer(config.version as int)),
        config_tree(config).field("runner"@) == Some(text_trees(texts(config.runner@))),
        config_tree(config).field("allow_no_job"@) == Some(Tree::Bool(config.allow_no_job)),
        config_tree(config).field("allow_concurrent_roots"@) == Some(
            Tree::Bool(config.allow_concurrent_roots),
        ),
        config_tree(config).bool_field("sync_user_master"@, Some(true)) == Some(
            config.sync_user_master,
        ),
        config_tree(config).field("steps"@) == Some(steps_tree(config.steps@)),
        config_tree(config).field("resources"@) == Some(resources_tree(config.resources)),
        config_tree(config).field("remote"@) == Some(remote_tree(config.remote)),
        config_tree(config).field("cache"@) == Some(cache_tree(config.cache)),
{
    let entries = config_tree(config)->Table_0;
    lemma_config_names();
    assert(entries[0].0 == "version"@);
    assert(entries[1].0 == "runner"@);
    assert(entries[2].0 == "allow_no_job"@);
    assert(entries[3].0 == "allow_concurrent_roots"@);
    if config.sync_user_master {
        assert(entries.len() == 8);
        assert(entries[4].0 == "steps"@);
        assert(entries[5].0 == "resources"@);
        assert(entries[6].0 == "remote"@);
        assert(entries[7].0 == "cache"@);
        assert(distinct_entries(entries));
        lemma_lookup_finds(entries, 0);
        lemma_lookup_finds(entries, 1);
        lemma_lookup_finds(entries, 2);
        lemma_lookup_finds(entries, 3);
        lemma_lookup_finds(entries, 4);
        lemma_lookup_finds(entries, 5);
        lemma_lookup_finds(entries, 6);
        lemma_lookup_finds(entries, 7);
        lemma_lookup_misses(entries, "sync_user_master"@);
    } else {
        assert(entries.len() == 9);
        assert(entries[4].0 == "sync_user_master"@);
        assert(entries[5].0 == "steps"@);
        assert(entries[6].0 == "resources"@);
        assert(entries[7].0 == "remote"@);
        assert(entries[8].0 == "cache"@);
        assert(distinct_entries(entries));
        lemma_lookup_finds(entries, 0);
        lemma_lookup_finds(entries, 1);
        lemma_lookup_finds(entries, 2);
        lemma_lookup_finds(entries, 3);
        lemma_lookup_finds(entries, 4);
        lemma_lookup_finds(entries, 5);
        lemma_lookup_finds(entries, 6);
        lemma_lookup_finds(entries, 7);
        lemma_lookup_finds(entries, 8);
    }
}

/// What is written of a configuration has a notation, and reads back as what was written.
proof fn lemma_config_written(config: EffectiveConfig)
    requires
        steps_sound(config.steps@),
    ensures
        config_tree(config).writable(6),
        stored_config_readable(config_tree(config)),
        stored_config_reads(config_tree(config), config),
{
    let entries = config_tree(config)->Table_0;
    lemma_config_fields(config);
    lemma_texts_written(texts(config.runner@));
    lemma_steps_written(config.steps@);
    lemma_resources_written(config.resources);
    lemma_remote_written(config.remote);
    lemma_cache_written(config.cache);
    lemma_writable_deeper(text_trees(texts(config.runner@)), 1, 5);
    lemma_writable_deeper(resources_tree(config.resources), 1, 5);
    lemma_writable_deeper(remote_tree(config.remote), 1, 5);
    lemma_writable_deeper(cache_tree(config.cache), 3, 5);
    assert forall|i: int| 0 <= i < entries.len() implies (#[trigger] entries[i]).1.writable(5) by {
        lemma_lookup_finds(entries, i);
    }
    lemma_table_writable(entries, 5);
}

/// A configuration that is taken up again from what was written of another is written in the
/// same way, and so has the same digests.
pub proof fn law_stored_configurations_are_taken_up_again(
    config: EffectiveConfig,
    restored: EffectiveConfig,
)
    requires
        steps_sound(config.steps@),
        steps_sound(restored.steps@),
        stored_config_reads(config_tree(config), restored),
    ensures
        stored_config_readable(config_tree(config)),
        config_tree(restored) == config_tree(config),
        steps_tree(restored.steps@) == steps_tree(config.steps@),
{
    lemma_config_written(config);
    lemma_config_fields(config);
    lemma_steps_same(config.steps@, restored.steps@);
    lemma_resources_same(config.resources, restored.resources);
    lemma_remote_same(config.remote, restored.remote);
    lemma_cache_same(config.cache, restored.cache);
    assert(config_tree(restored)->Table_0 =~= config_tree(config)->Table_0);
}

/// A step whose variables are the same in another order is written in the same way, and so
/// has the same part in every digest.
pub proof fn law_the_order_of_variables_does_not_matter(a: EffectiveStep, b: EffectiveStep)
    requires
        b == (EffectiveStep { environment: b.environment, ..a }),
        a.environment.sound(),
        b.environment.sound(),
        a.environment@.dom() == b.environment@.dom(),
        forall|key: Seq<char>| #[trigger]
            a.environment@.dom().contains(key) ==> a.environment@[key]@ == b.environment@[key]@,
    ensures
        step_tree(a) == step_tree(b),
{
    law_the_order_of_entries_does_not_matter(a.environment, b.environment);
}

fn config_document(config: &EffectiveConfig) -> (r: Document)
    ensures
        r@ == config_tree(*config),
        steps_sound(config.steps@),
{
    let mut fields = Fields::new();
    fields.put("version", Document::Integer(config.version as i128));
    fields.put("runner", text_list(&config.runner));
    fields.put("allow_no_job", Document::Bool(config.allow_no_job));
    fields.put("allow_concurrent_roots", Document::Bool(config.allow_concurrent_roots));
    if !config.sync_user_master {
        fields.put("sync_user_master", Document::Bool(false));
    }
    fields.put("steps", steps_document(&config.steps));
    fields.put("resources", resources_document(&config.resources));
    fields.put("remote", remote_document(&config.remote));
    fields.put("cache", cache_document(&config.cache));
    assert(fields@ =~= config_tree(*config)->Table_0);
    fields.build()
}

fn config_bytes(config: &EffectiveConfig) -> (r: Vec<u8>)
    ensures
        r@ == json_written(config_tree(*config)),
        json_parsed(r@) == Some(config_tree(*config)),
        steps_sound(config.steps@),
{
    let document = config_document(config);
    proof {
        lemma_config_written(*config);
        lemma_writable_deeper(document@, 6, 127);
    }
    write_json(&json_value(&document))
}

impl EffectiveConfig {
    /// The canonical notation, which leaves the digests out. It can be taken up again.
    pub fn canonical_bytes(&self) -> (r: Result<Vec<u8>, ConfigError>)
        ensures
            r matches Ok(bytes) && bytes@ == json_written(config_tree(*self)) && json_parsed(bytes@)
                == Some(config_tree(*self)),
            stored_config_readable(config_tree(*self)),
            stored_config_reads(config_tree(*self), *self),
            steps_sound(self.steps@),
    {
        let bytes = config_bytes(self);
        proof {
            lemma_config_written(*self);
        }
        Ok(bytes)
    }

    /// The digest of the canonical notation.
    pub fn canonical_digest(&self) -> (r: String)
        ensures
            r@ == tree_digest(config_tree(*self)),
            r@.len() == 64,
            steps_sound(self.steps@),
    {
        hash_hex(&config_bytes(self))
    }
}

/// The digest of a step graph.
pub fn graph_digest(steps: &Vec<EffectiveStep>) -> (r: String)
    ensures
        r@ == tree_digest(steps_tree(steps@)),
{
    let document = steps_document(steps);
    proof {
        lemma_steps_written(steps@);
        lemma_writable_deeper(document@, 5, 127);
    }
    hash_hex(&write_json(&json_value(&document)))
}

} // verus!
