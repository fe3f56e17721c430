//! What a step must leave behind, what it may report, and for what a certificate stands.

#[allow(unused_imports)]
use crate::artifacts::{
    artifact_fault, artifact_rules, artifacts_fault, first_decision, head_is, rules_fault,
    some_rule_matches, workspace_fault, ArtifactFault, WorkspaceEntry, WorkspaceState,
};
#[allow(unused_imports)]
use crate::clone_tree::FileKind;
#[allow(unused_imports)]
use crate::config_model::EffectiveArtifact;
#[allow(unused_imports)]
use crate::diagnostics::{
    diagnostic_of, record_of, records_from, records_of, DiagnosticsFault, MAX_DIAGNOSTICS,
};
#[allow(unused_imports)]
use crate::document::Tree;
#[allow(unused_imports)]
use crate::endian::be_bytes;
#[allow(unused_imports)]
use crate::environment::{first_byte, printed_environment, variables_from, EnvironmentFault};
#[allow(unused_imports)]
use crate::ids::QueueItemId;
#[allow(unused_imports)]
use crate::model::{
    generation_identity, member_bytes, object_bytes, PassCertificate, QueueItem,
    ValidationGeneration,
};
#[allow(unused_imports)]
use crate::oid::{GitOid, GitOidView};
#[allow(unused_imports)]
use crate::outside::{glob_fault, glob_set_fault, GlobRule};
#[allow(unused_imports)]
use crate::runner::{diagnostic_fault, is_bounded_argv, is_code, is_inner_path, DiagnosticView, LogStream};
#[allow(unused_imports)]
use crate::scan::trimmed;
#[allow(unused_imports)]
use crate::text::texts;
use vstd::prelude::*;
#[allow(unused_imports)]
use vstd::utf8::{decode_utf8, encode_utf8, valid_utf8};

verus! {

/// A workspace is still what was tested exactly if it stands at the tested commit, neither
/// its index nor its files differ, and no operation of Git is under way in it.
pub proof fn law_workspaces_stay_as_tested(state: WorkspaceState, tested: GitOid)
    ensures
        workspace_fault(state, tested) is None <==> head_is(state, tested) && state.index_clean
            && state.files_clean && !state.merging && !state.cherry_picking && !state.rebasing,
        state.head is None ==> workspace_fault(state, tested) is Some,
{
}

proof fn lemma_nothing_decides(rules: Seq<GlobRule>, entries: Seq<WorkspaceEntry>, i: int)
    requires
        0 <= i,
        forall|j: int|
            i <= j < entries.len() && some_rule_matches(rules, (#[trigger] entries[j]).path@)
                ==> entries[j].kind != FileKind::File && entries[j].kind != FileKind::Symlink,
    ensures
        first_decision(rules, entries, i) is None,
    decreases entries.len() - i,
{
    if i < entries.len() {
        lemma_nothing_decides(rules, entries, i + 1);
    }
}

proof fn lemma_a_file_decides(
    rules: Seq<GlobRule>,
    entries: Seq<WorkspaceEntry>,
    i: int,
    k: int,
)
    requires
        0 <= i <= k < entries.len(),
        some_rule_matches(rules, entries[k].path@),
        entries[k].kind == FileKind::File,
        forall|j: int|
            i <= j < k && some_rule_matches(rules, (#[trigger] entries[j]).path@)
                ==> entries[j].kind != FileKind::Symlink,
    ensures
        first_decision(rules, entries, i) matches Some(Ok(_)),
    decreases k - i,
{
    if i < k {
        lemma_a_file_decides(rules, entries, i + 1, k);
    }
}

proof fn lemma_a_link_decides(
    rules: Seq<GlobRule>,
    entries: Seq<WorkspaceEntry>,
    i: int,
    k: int,
)
    requires
        0 <= i <= k < entries.len(),
        some_rule_matches(rules, entries[k].path@),
        entries[k].kind == FileKind::Symlink,
        forall|j: int|
            i <= j < k && some_rule_matches(rules, (#[trigger] entries[j]).path@)
                ==> entries[j].kind != FileKind::File && entries[j].kind != FileKind::Symlink,
    ensures
        first_decision(rules, entries, i) == Some(Err::<(), Seq<char>>(entries[k].path@)),
    decreases k - i,
{
    if i < k {
        lemma_a_link_decides(rules, entries, i + 1, k);
    }
}

/// An artifact that is not required is never missing; one that is required is missing exactly
/// if no file and no link is matched, and a link does not stand for a file.
pub proof fn law_required_artifacts_are_files(
    artifact: EffectiveArtifact,
    entries: Seq<WorkspaceEntry>,
    k: int,
)
    ensures
        ({
            let rules = artifact_rules(texts(artifact.patterns@));
            let sound = rules_fault(rules, 0) is None;
            &&& !artifact.required ==> artifact_fault(artifact, entries) is None
            &&& artifact.required && !sound ==> (artifact_fault(
                artifact,
                entries,
            ) matches Some(ArtifactFault::Pattern { .. }))
            &&& artifact.required && sound && (forall|j: int|
                0 <= j < entries.len() && some_rule_matches(rules, (#[trigger] entries[j]).path@)
                    ==> entries[j].kind != FileKind::File && entries[j].kind
                    != FileKind::Symlink) ==> artifact_fault(artifact, entries) == Some(
                ArtifactFault::Missing { name: artifact.name@ },
            )
            &&& sound && 0 <= k < entries.len() && some_rule_matches(rules, entries[k].path@)
                && entries[k].kind == FileKind::File && (forall|j: int|
                0 <= j < k && some_rule_matches(rules, (#[trigger] entries[j]).path@)
                    ==> entries[j].kind != FileKind::Symlink) ==> artifact_fault(
                artifact,
                entries,
            ) is None
            &&& artifact.required && sound && 0 <= k < entries.len() && some_rule_matches(
                rules,
                entries[k].path@,
            ) && entries[k].kind == FileKind::Symlink && (forall|j: int|
                0 <= j < k && some_rule_matches(rules, (#[trigger] entries[j]).path@)
                    ==> entries[j].kind != FileKind::File && entries[j].kind
                    != FileKind::Symlink) ==> artifact_fault(artifact, entries) == Some(
                ArtifactFault::Link { path: entries[k].path@ },
            )
        }),
{
    let rules = artifact_rules(texts(artifact.patterns@));
    if forall|j: int|
        0 <= j < entries.len() && some_rule_matches(rules, (#[trigger] entries[j]).path@)
            ==> entries[j].kind != FileKind::File && entries[j].kind != FileKind::Symlink {
        lemma_nothing_decides(rules, entries, 0);
    }
    if 0 <= k < entries.len() && some_rule_matches(rules, entries[k].path@) && entries[k].kind
        == FileKind::File && (forall|j: int|
        0 <= j < k && some_rule_matches(rules, (#[trigger] entries[j]).path@) ==> entries[j].kind
            != FileKind::Symlink) {
        lemma_a_file_decides(rules, entries, 0, k);
    }
    if 0 <= k < entries.len() && some_rule_matches(rules, entries[k].path@) && entries[k].kind
        == FileKind::Symlink && (forall|j: int|
        0 <= j < k && some_rule_matches(rules, (#[trigger] entries[j]).path@) ==> entries[j].kind
            != FileKind::File && entries[j].kind != FileKind::Symlink) {
        lemma_a_link_decides(rules, entries, 0, k);
    }
}

/// The artifacts of a step are in order exactly if each of them is.
pub proof fn law_every_artifact_counts(
    artifacts: Seq<EffectiveArtifact>,
    entries: Seq<WorkspaceEntry>,
    i: int,
)
    requires
        0 <= i,
    ensures
        artifacts_fault(artifacts, entries, i) is None <==> forall|j: int|
            i <= j < artifacts.len() ==> artifact_fault(#[trigger] artifacts[j], entries) is None,
    decreases artifacts.len() - i,
{
    if i < artifacts.len() {
        law_every_artifact_counts(artifacts, entries, i + 1);
        assert(artifact_fault(artifacts[i], entries) is None
            || artifact_fault(artifacts[i], entries) is Some);
    }
}

/// An environment that was read has the path in which programs are looked up.
pub proof fn law_environments_have_a_path(output: Seq<u8>)
    ensures
        printed_environment(output) matches Ok(map) ==> map.contains_key("PATH"@),
{
}

/// A field sets the variable whose name stands before the first equals sign to all that
/// stands behind it, over what was set before, and touches no other variable; a field
/// without one is refused, and an empty one sets nothing.
pub proof fn law_fields_set_variables(
    name: Seq<u8>,
    value: Seq<u8>,
    map: Map<Seq<char>, Seq<char>>,
    field: Seq<u8>,
)
    requires
        !name.contains(61u8),
        valid_utf8(name),
        valid_utf8(value),
    ensures
        variables_from(seq![name + seq![61u8] + value], 0, map) == Ok::<
            Map<Seq<char>, Seq<char>>,
            EnvironmentFault,
        >(map.insert(decode_utf8(name), decode_utf8(value))),
        field.len() > 0 && !field.contains(61u8) ==> variables_from(seq![field], 0, map) == Err::<
            Map<Seq<char>, Seq<char>>,
            EnvironmentFault,
        >(EnvironmentFault::EqualsMissing),
        variables_from(seq![Seq::<u8>::empty()], 0, map) == Ok::<
            Map<Seq<char>, Seq<char>>,
            EnvironmentFault,
        >(map),
{
    reveal_with_fuel(variables_from, 3);
    let whole = name + seq![61u8] + value;
    let n = name.len() as int;
    assert(whole[n] == 61u8);
    assert(whole.contains(61u8));
    assert forall|j: int| 0 <= j < n implies #[trigger] whole[j] != 61u8 by {
        assert(whole[j] == name[j]);
        assert(name.contains(name[j]));
    }
    assert(first_byte(whole, 61u8, n));
    let at = choose|at: int| first_byte(whole, 61u8, at);
    assert(at == n);
    assert(whole.take(n) =~= name);
    assert(whole.skip(n + 1) =~= value);
}

/// What is set later is what counts.
pub proof fn law_later_fields_count(
    fields: Seq<Seq<u8>>,
    i: int,
    map: Map<Seq<char>, Seq<char>>,
)
    requires
        0 <= i <= fields.len(),
    ensures
        i == fields.len() ==> variables_from(fields, i, map) == Ok::<
            Map<Seq<char>, Seq<char>>,
            EnvironmentFault,
        >(map),
        variables_from(fields, i, map) matches Ok(all) ==> map.dom().subset_of(all.dom()),
    decreases fields.len() - i,
{
    if i < fields.len() {
        if fields[i].len() == 0 {
            law_later_fields_count(fields, i + 1, map);
        } else if fields[i].contains(61u8) {
            let at = choose|at: int| first_byte(fields[i], 61u8, at);
            let name = fields[i].take(at);
            let value = fields[i].skip(at + 1);
            law_later_fields_count(
                fields,
                i + 1,
                map.insert(decode_utf8(name), decode_utf8(value)),
            );
        }
    }
}

/// No more diagnostics are taken than there may be, and each one that is taken is in order;
/// those taken before stay ahead of those that follow.
pub proof fn law_diagnostics_are_checked(
    lines: Seq<Seq<char>>,
    i: int,
    found: Seq<DiagnosticView>,
)
    requires
        0 <= i,
        found.len() <= MAX_DIAGNOSTICS,
        forall|k: int| 0 <= k < found.len() ==> diagnostic_fault(#[trigger] found[k]) is None,
    ensures
        records_from(lines, i, found) matches Ok(all) ==> {
            &&& found.len() <= all.len() <= MAX_DIAGNOSTICS
            &&& all.take(found.len() as int) == found
            &&& forall|k: int| 0 <= k < all.len() ==> diagnostic_fault(#[trigger] all[k]) is None
        },
    decreases lines.len() - i,
{
    if i >= lines.len() {
        assert(found.take(found.len() as int) =~= found);
    } else if trimmed(lines[i]).len() == 0 {
        law_diagnostics_are_checked(lines, i + 1, found);
    } else if found.len() < MAX_DIAGNOSTICS {
        if let Some(view) = record_of(lines[i]) {
            if diagnostic_fault(view) is None {
                let more = found.push(view);
                law_diagnostics_are_checked(lines, i + 1, more);
                if let Ok(all) = records_from(lines, i + 1, more) {
                    assert(all.take(found.len() as int) =~= all.take(more.len() as int).take(
                        found.len() as int,
                    ));
                    assert(more.take(found.len() as int) =~= found);
                }
            }
        }
    }
}

/// A line that holds a diagnostic in order adds it, an empty line adds nothing, and any other
/// line is refused under its own number.
pub proof fn law_lines_hold_diagnostics(
    lines: Seq<Seq<char>>,
    i: int,
    found: Seq<DiagnosticView>,
)
    requires
        0 <= i < lines.len(),
        found.len() < MAX_DIAGNOSTICS,
    ensures
        trimmed(lines[i]).len() == 0 ==> records_from(lines, i, found) == records_from(
            lines,
            i + 1,
            found,
        ),
        trimmed(lines[i]).len() > 0 ==> match record_of(lines[i]) {
            None => records_from(lines, i, found) == Err::<Seq<DiagnosticView>, DiagnosticsFault>(
                DiagnosticsFault::Malformed { record: (i + 1) as nat },
            ),
            Some(view) => diagnostic_fault(view) is None ==> records_from(lines, i, found)
                == records_from(lines, i + 1, found.push(view)),
        },
{
}

/// A diagnostic is taken exactly if its code is one, its message neither empty nor too long,
/// its paths few and within the repository, and its repair bounded.
pub proof fn law_diagnostics_are_bounded(diagnostic: DiagnosticView)
    ensures
        diagnostic_fault(diagnostic) is None <==> {
            &&& is_code(diagnostic.code)
            &&& 0 < encode_utf8(diagnostic.message).len() <= 4096
            &&& diagnostic.paths.len() <= 128
            &&& forall|i: int|
                0 <= i < diagnostic.paths.len() ==> is_inner_path(#[trigger] diagnostic.paths[i])
            &&& diagnostic.repair matches Some(argv) ==> is_bounded_argv(argv)
        },
        !is_inner_path(Seq::empty()),
        forall|rest: Seq<char>| !is_inner_path(#[trigger] (seq!['/'] + rest)),
        !is_code(Seq::empty()),
{
}

/// The two streams are told apart by their names, and each is read as it is written.
pub proof fn law_streams_are_told_apart(stream: LogStream, text: Seq<char>)
    ensures
        LogStream::named(stream.wire_name()) == Some(stream),
        LogStream::named(text) == Some(stream) ==> text == stream.wire_name(),
        LogStream::Stdout.wire_name() != LogStream::Stderr.wire_name(),
{
    reveal_strlit("stdout");
    reveal_strlit("stderr");
    assert("stdout"@[3] == 'o' && "stderr"@[3] == 'e');
}

/// A diagnostic is read with the code, the message and the paths that it gives.
pub proof fn law_diagnostics_are_as_written(tree: Tree)
    ensures
        diagnostic_of(tree) matches Some(view) ==> {
            &&& tree.text_field("code"@, None) == Some(view.code)
            &&& tree.text_field("message"@, None) == Some(view.message)
            &&& tree.texts_field("paths"@, false) == Some(view.paths)
            &&& tree.field("repair"@) is None ==> view.repair is None
        },
{
}

/// A certificate that agrees with its item, with the item's current generation and with what
/// is observed stands.
pub proof fn law_certificates_stand_while_nothing_changes(
    certificate: PassCertificate,
    item: QueueItem,
    generation: ValidationGeneration,
)
    requires
        certificate.queue_item_id == item.id,
        item.current_generation_id == Some(generation.id),
        certificate.validation_generation_id == generation.id,
        certificate.tested_oid@ == generation.tested_oid@,
        certificate.expected_parent_oid@ == generation.expected_parent_oid@,
        certificate.configuration_digest@ == generation.configuration_digest@,
        certificate.step_graph_digest@ == generation.step_graph_digest@,
        certificate.checkout_verified,
    ensures
        certificate.holds_for(
            item,
            generation,
            generation.expected_parent_oid@,
            generation.configuration_digest@,
            generation.step_graph_digest@,
            certificate.engine_epoch,
        ),
{
}

/// A certificate stands for one item, one tested commit and one parent, and only if the
/// checkout was verified.
pub proof fn law_certificates_stand_for_one_commit(
    certificate: PassCertificate,
    other: PassCertificate,
    item: QueueItem,
    generation: ValidationGeneration,
    master: GitOidView,
    config: Seq<char>,
    graph: Seq<char>,
    epoch: u64,
)
    requires
        certificate.holds_for(item, generation, master, config, graph, epoch),
    ensures
        certificate.checkout_verified,
        certificate.queue_item_id == item.id,
        certificate.tested_oid@ == generation.tested_oid@,
        master == generation.expected_parent_oid@,
        other.holds_for(item, generation, master, config, graph, epoch) ==> other.tested_oid@
            == certificate.tested_oid@ && other.expected_parent_oid@
            == certificate.expected_parent_oid@ && other.queue_item_id
            == certificate.queue_item_id,
{
}

/// What a validation is identified by begins with its base and ends with the epoch, and every
/// item and every object counts.
pub proof fn law_validations_are_identified_by_their_inputs(
    base: GitOidView,
    ids: Seq<QueueItemId>,
    sources: Seq<GitOid>,
    prefix: Seq<GitOid>,
    config: Seq<char>,
    graph: Seq<char>,
    epoch: u64,
    n: nat,
)
    ensures
        ({
            let identity = generation_identity(base, ids, sources, prefix, config, graph, epoch);
            let tail = be_bytes(epoch as nat, 8);
            &&& identity.len() >= base.bytes.len() + tail.len()
            &&& identity.take(base.bytes.len() as int) == base.bytes
            &&& identity.skip(identity.len() - tail.len()) == tail
        }),
        member_bytes(ids, sources, n + 1).len() == member_bytes(ids, sources, n).len() + be_bytes(
            ids[n as int].0 as nat,
            16,
        ).len() + sources[n as int]@.bytes.len(),
        object_bytes(prefix, n + 1) == object_bytes(prefix, n) + prefix[n as int]@.bytes,
{
    let identity = generation_identity(base, ids, sources, prefix, config, graph, epoch);
    let tail = be_bytes(epoch as nat, 8);
    assert(identity.take(base.bytes.len() as int) =~= base.bytes);
    assert(identity.skip(identity.len() - tail.len()) =~= tail);
}

/// Patterns can be matched exactly if each compiles and all of them do together; else it is the
/// first that does not that is told.
pub proof fn law_every_pattern_compiles(rules: Seq<GlobRule>, i: int)
    requires
        0 <= i,
    ensures
        rules_fault(rules, i) is None ==> glob_set_fault(rules) is None && forall|j: int|
            i <= j < rules.len() ==> glob_fault(#[trigger] rules[j]) is None,
        (forall|j: int| i <= j < rules.len() ==> glob_fault(#[trigger] rules[j]) is None)
            ==> rules_fault(rules, i) == glob_set_fault(rules),
        i < rules.len() && glob_fault(rules[i]) is Some ==> rules_fault(rules, i) == glob_fault(
            rules[i],
        ),
    decreases rules.len() - i,
{
    if i < rules.len() {
        law_every_pattern_compiles(rules, i + 1);
    }
}

/// A variable whose name or value is no text is refused.
pub proof fn law_variables_are_texts(name: Seq<u8>, value: Seq<u8>, map: Map<Seq<char>, Seq<char>>)
    requires
        !name.contains(61u8),
        !valid_utf8(name) || !valid_utf8(value),
    ensures
        variables_from(seq![name + seq![61u8] + value], 0, map) == Err::<
            Map<Seq<char>, Seq<char>>,
            EnvironmentFault,
        >(EnvironmentFault::NotText),
{
    let whole = name + seq![61u8] + value;
    let n = name.len() as int;
    assert(whole[n] == 61u8);
    assert(whole.contains(61u8));
    assert forall|j: int| 0 <= j < n implies #[trigger] whole[j] != 61u8 by {
        assert(whole[j] == name[j]);
        assert(name.contains(name[j]));
    }
    assert(first_byte(whole, 61u8, n));
    let at = choose|at: int| first_byte(whole, 61u8, at);
    assert(at == n);
    assert(whole.take(n) =~= name);
    assert(whole.skip(n + 1) =~= value);
}

} // verus!
