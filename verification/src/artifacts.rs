//! What a buildset has to leave behind: the artifacts of its steps, and a workspace that
//! is still what was tested.

use crate::config_model::{EffectiveArtifact, EffectiveStep};
use crate::clone_tree::FileKind;
use crate::oid::GitOid;
use crate::outside::{
    add_glob, build_glob_set, compile_glob, encode_hex, lossy_text, matches_glob_set,
    new_glob_builder,
};
#[allow(unused_imports)]
use crate::outside::{
    builder_rules, glob_fault, glob_matches, glob_set_fault, hex_text, lossy_text_of, rule_of,
    set_rules, GlobRule,
};
use crate::runner::RunnerError;
use crate::scan::trim_str;
#[allow(unused_imports)]
use crate::scan::trimmed;
use crate::scheduler::StepResources;
use crate::text::{concat3, str_equal};
#[allow(unused_imports)]
use crate::text::texts;
use crate::text_map::TextMap;
use vstd::prelude::*;

verus! {

/// An entry of a workspace, by its path from the root, in the order of a walk that
/// enters a directory right after it was met.
#[derive(Clone, Debug, PartialEq, Eq)]
pub struct WorkspaceEntry {
    pub path: String,
    pub kind: FileKind,
}

/// The patterns of artifacts are compiled so that wildcards match slashes and
/// backslashes escape.
pub open spec fn artifact_rules(patterns: Seq<Seq<char>>) -> Seq<GlobRule> {
    patterns.map_values(|pattern: Seq<char>| rule_of(pattern, false, true))
}

/// Some of the rules matches the path.
pub open spec fn some_rule_matches(rules: Seq<GlobRule>, path: Seq<char>) -> bool {
    exists|i: int| 0 <= i < rules.len() && #[trigger] glob_matches(rules[i], path)
}

/// Why patterns cannot be matched together: the first that does not compile, or all of
/// them at once.
pub open spec fn rules_fault(rules: Seq<GlobRule>, i: int) -> Option<Seq<char>>
    decreases rules.len() - i,
{
    if i >= rules.len() {
        glob_set_fault(rules)
    } else {
        match glob_fault(rules[i]) {
            Some(message) => Some(message),
            None => rules_fault(rules, i + 1),
        }
    }
}

/// What the first entry that decides says: a file that is matched is an artifact, and a
/// symbolic link that is matched is a fault. `None` where nothing decides.
pub open spec fn first_decision(
    rules: Seq<GlobRule>,
    entries: Seq<WorkspaceEntry>,
    i: int,
) -> Option<Result<(), Seq<char>>>
    decreases entries.len() - i,
{
    if i >= entries.len() {
        None
    } else if some_rule_matches(rules, entries[i].path@) && entries[i].kind == FileKind::Symlink {
        Some(Err(entries[i].path@))
    } else if some_rule_matches(rules, entries[i].path@) && entries[i].kind == FileKind::File {
        Some(Ok(()))
    } else {
        first_decision(rules, entries, i + 1)
    }
}

/// What is wrong with the artifacts of a step.
#[allow(inconsistent_fields)]
pub enum ArtifactFault {
    Pattern { message: Seq<char> },
    Link { path: Seq<char> },
    Missing { name: Seq<char> },
}

/// The error reports the fault.
pub open spec fn artifact_error(error: RunnerError, fault: ArtifactFault) -> bool {
    match fault {
        ArtifactFault::Pattern { message } => error.interrupted_by(message),
        ArtifactFault::Link { path } => error.dirtied_by(
            "artifact path `"@ + path + "` is a symbolic link"@,
        ),
        ArtifactFault::Missing { name } => error.dirtied_by(
            "required artifact `"@ + name + "` matched no retained path"@,
        ),
    }
}

/// What is wrong with one artifact.
pub open spec fn artifact_fault(
    artifact: EffectiveArtifact,
    entries: Seq<WorkspaceEntry>,
) -> Option<ArtifactFault> {
    let rules = artifact_rules(texts(artifact.patterns@));
    if !artifact.required {
        None
    } else {
        match rules_fault(rules, 0) {
            Some(message) => Some(ArtifactFault::Pattern { message }),
            None => match first_decision(rules, entries, 0) {
                Some(Ok(())) => None,
                Some(Err(path)) => Some(ArtifactFault::Link { path }),
                None => Some(ArtifactFault::Missing { name: artifact.name@ }),
            },
        }
    }
}

/// What is wrong with the first of the artifacts, from `i` on, with which something is.
pub open spec fn artifacts_fault(
    artifacts: Seq<EffectiveArtifact>,
    entries: Seq<WorkspaceEntry>,
    i: int,
) -> Option<ArtifactFault>
    decreases artifacts.len() - i,
{
    if i >= artifacts.len() {
        None
    } else {
        match artifact_fault(artifacts[i], entries) {
            Some(fault) => Some(fault),
            None => artifacts_fault(artifacts, entries, i + 1),
        }
    }
}

fn compile_patterns(patterns: &Vec<String>) -> (r: Result<globset::GlobSet, String>)
    ensures
        r is Ok <==> rules_fault(artifact_rules(texts(patterns@)), 0) is None,
        r matches Ok(globs) ==> set_rules(globs) == artifact_rules(texts(patterns@)),
        r matches Err(message) ==> rules_fault(artifact_rules(texts(patterns@)), 0) == Some(
            message@,
        ),
{
    let ghost rules = artifact_rules(texts(patterns@));
    let mut builder = new_glob_builder();
    let mut i: usize = 0;
    assert(rules.take(0) =~= Seq::empty());
    while i < patterns.len()
        invariant
            i <= patterns@.len(),
            rules == artifact_rules(texts(patterns@)),
            rules_fault(rules, 0) == rules_fault(rules, i as int),
            builder_rules(builder) == rules.take(i as int),
        decreases patterns@.len() - i,
    {
        assert(rules[i as int] == rule_of(patterns@[i as int]@, false, true)) by {
            assert(texts(patterns@)[i as int] == patterns@[i as int]@);
        }
        match compile_glob(patterns[i].as_str(), false, true) {
            Ok(glob) => {
                add_glob(&mut builder, glob);
            },
            Err(message) => {
                return Err(message);
            },
        }
        i += 1;
        assert(rules.take(i as int) =~= rules.take(i - 1).push(rules[i - 1]));
    }
    assert(rules.take(i as int) =~= rules);
    build_glob_set(&builder)
}

/// Checks that every artifact that a step has to leave behind is there.
pub fn verify_required_artifacts(step: &EffectiveStep, entries: &Vec<WorkspaceEntry>) -> (r: Result<
    (),
    RunnerError,
>)
    ensures
        r is Ok <==> artifacts_fault(step.artifacts@, entries@, 0) is None,
        r matches Err(error) ==> (artifacts_fault(step.artifacts@, entries@, 0) matches Some(fault)
            && artifact_error(error, fault)),
{
    let artifacts = &step.artifacts;
    let mut i: usize = 0;
    while i < artifacts.len()
        invariant
            i <= artifacts@.len(),
            artifacts@ == step.artifacts@,
            artifacts_fault(artifacts@, entries@, 0) == artifacts_fault(
                artifacts@,
                entries@,
                i as int,
            ),
        decreases artifacts@.len() - i,
    {
        let artifact = &artifacts[i];
        if !artifact.required {
            i += 1;
            continue;
        }
        let ghost rules = artifact_rules(texts(artifact.patterns@));
        let globs = match compile_patterns(&artifact.patterns) {
            Ok(globs) => globs,
            Err(message) => {
                return Err(RunnerError::Interrupted(message));
            },
        };
        let mut found = false;
        let mut k: usize = 0;
        while k < entries.len() && !found
            invariant
                k <= entries@.len(),
                i < artifacts@.len(),
                artifacts@ == step.artifacts@,
                *artifact == artifacts@[i as int],
                artifact.required,
                rules == artifact_rules(texts(artifact.patterns@)),
                rules_fault(rules, 0) is None,
                set_rules(globs) == rules,
                artifacts_fault(artifacts@, entries@, 0) == artifacts_fault(
                    artifacts@,
                    entries@,
                    i as int,
                ),
                found ==> first_decision(rules, entries@, 0) == Some(Ok::<(), Seq<char>>(())),
                !found ==> first_decision(rules, entries@, 0) == first_decision(
                    rules,
                    entries@,
                    k as int,
                ),
            decreases entries@.len() - k,
        {
            let entry = &entries[k];
            if matches_glob_set(&globs, entry.path.as_str()) {
                assert(some_rule_matches(rules, entry.path@));
                if entry.kind == FileKind::Symlink {
                    return Err(
                        RunnerError::WorkspaceDirty(
                            concat3("artifact path `", entry.path.as_str(), "` is a symbolic link"),
                        ),
                    );
                }
                if entry.kind == FileKind::File {
                    found = true;
                }
            } else {
                assert(!some_rule_matches(rules, entry.path@));
            }
            k += 1;
        }
        if !found {
            return Err(
                RunnerError::WorkspaceDirty(
                    concat3(
                        "required artifact `",
                        artifact.name.as_str(),
                        "` matched no retained path",
                    ),
                ),
            );
        }
        i += 1;
    }
    Ok(())
}

/// What was found out about a workspace: what its head is, whether the index and the
/// tracked files are as committed, and whether an operation is under way.
#[derive(Clone, Debug, PartialEq, Eq)]
pub struct WorkspaceState {
    pub head: Option<Vec<u8>>,
    pub index_clean: bool,
    pub files_clean: bool,
    pub merging: bool,
    pub cherry_picking: bool,
    pub rebasing: bool,
}

/// The head of the workspace is the given commit.
pub open spec fn head_is(state: WorkspaceState, tested: GitOid) -> bool {
    state.head matches Some(head) && trimmed(lossy_text_of(head@)) == hex_text(tested@.bytes)
}

/// Why a workspace is no longer what was tested.
pub open spec fn workspace_fault(state: WorkspaceState, tested: GitOid) -> Option<Seq<char>> {
    if !head_is(state, tested) {
        Some("HEAD moved"@)
    } else if !state.index_clean {
        Some("index differs from HEAD"@)
    } else if !state.files_clean {
        Some("tracked worktree differs from index"@)
    } else if state.merging {
        Some("Git operation in progress: MERGE_HEAD"@)
    } else if state.cherry_picking {
        Some("Git operation in progress: CHERRY_PICK_HEAD"@)
    } else if state.rebasing {
        Some("Git operation in progress: REBASE_HEAD"@)
    } else {
        None
    }
}

/// Checks that a workspace is still what was tested.
pub fn verify_workspace(state: &WorkspaceState, tested_oid: &GitOid) -> (r: Result<(), RunnerError>)
    ensures
        r is Ok <==> workspace_fault(*state, *tested_oid) is None,
        r matches Err(error) ==> error.dirtied_by(workspace_fault(*state, *tested_oid)->0),
{
    let same = match &state.head {
        Some(head) => {
            let text = trim_str(lossy_text(head.as_slice()).as_str());
            str_equal(text.as_str(), encode_hex(tested_oid.as_bytes()).as_str())
        },
        None => false,
    };
    let reason: &str = if !same {
        "HEAD moved"
    } else if !state.index_clean {
        "index differs from HEAD"
    } else if !state.files_clean {
        "tracked worktree differs from index"
    } else if state.merging {
        "Git operation in progress: MERGE_HEAD"
    } else if state.cherry_picking {
        "Git operation in progress: CHERRY_PICK_HEAD"
    } else if state.rebasing {
        "Git operation in progress: REBASE_HEAD"
    } else {
        return Ok(());
    };
    Err(RunnerError::WorkspaceDirty(reason.to_owned()))
}

/// The name of the log of a step.
pub fn step_log_name(step: &EffectiveStep) -> (r: String)
    ensures
        r@ == step.name@ + ".tlog"@,
{
    step.name.as_str().to_owned().concat(".tlog")
}

/// The resources that a step holds while it runs: one of each of its semaphores.
pub fn step_resources(step: &EffectiveStep) -> (r: StepResources)
    ensures
        r.cpu_tokens == step.cpu_tokens,
        r.memory_bytes == step.memory_bytes,
        forall|name: Seq<char>| #[trigger]
            r.semaphores@.contains_key(name) <==> texts(step.semaphores@).contains(name),
        forall|name: Seq<char>| #[trigger]
            r.semaphores@.contains_key(name) ==> r.semaphores@[name] == 1,
{
    let ghost all = texts(step.semaphores@);
    let mut semaphores: TextMap<u16> = TextMap::new();
    let mut i: usize = 0;
    while i < step.semaphores.len()
        invariant
            i <= step.semaphores@.len(),
            all == texts(step.semaphores@),
            forall|name: Seq<char>| #[trigger]
                semaphores@.contains_key(name) <==> all.take(i as int).contains(name),
            forall|name: Seq<char>| #[trigger]
                semaphores@.contains_key(name) ==> semaphores@[name] == 1,
        decreases step.semaphores@.len() - i,
    {
        let ghost before = semaphores@;
        semaphores.insert(step.semaphores[i].as_str().to_owned(), 1);
        proof {
            let name = all[i as int];
            assert(name == step.semaphores@[i as int]@);
            let part = all.take(i as int);
            let more = all.take(i + 1);
            assert(more =~= part.push(name));
            assert forall|other: Seq<char>| #[trigger]
                semaphores@.contains_key(other) <==> more.contains(other) by {
                assert(before.contains_key(other) <==> part.contains(other));
                if part.contains(other) {
                    let j = choose|j: int| 0 <= j < part.len() && part[j] == other;
                    assert(more[j] == other);
                }
                if other == name {
                    assert(more[i as int] == other);
                }
                if more.contains(other) && other != name {
                    let j = choose|j: int| 0 <= j < more.len() && more[j] == other;
                    assert(part[j] == other);
                }
            }
        }
        i += 1;
    }
    assert(all.take(i as int) =~= all);
    StepResources { cpu_tokens: step.cpu_tokens, memory_bytes: step.memory_bytes, semaphores }
}

} // verus!
