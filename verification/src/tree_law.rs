//! What may stand in a cloned tree, and where its links may lead.

#[allow(unused_imports)]
use crate::clone_check::{
    all_in_place, all_match, entry_matches, is_observed, is_recorded, observation,
    observation_fault, root_matches, same_paths, ObservedEntry,
};
#[allow(unused_imports)]
use crate::clone_tree::{
    CloneManifest, entry_fault, entry_made, is_repeated, making, recorded_kind, seen, ActionView, EntryKind,
    FileFacts, FileKind, ManifestEntry, PhaseView, WalkView,
};
#[allow(unused_imports)]
use crate::paths::{
    downs, is_absolute, is_plain_relative, joined, names_something, stays_inside, symlink_fault, ups,
};
#[allow(unused_imports)]
use crate::text::{optional_text, split_text};
use vstd::prelude::*;

verus! {

/// A path that begins at the root is not led on from anywhere; any other one is, with a
/// slash between, and nothing of either is lost.
pub proof fn law_paths_lead_on(base: Seq<char>, path: Seq<char>)
    ensures
        is_absolute(path) ==> joined(base, path) == path,
        !is_absolute(path) && base.len() > 0 && base.last() != '/' ==> joined(base, path) == base
            + seq!['/'] + path,
        !is_absolute(path) && base.len() > 0 && base.last() == '/' ==> joined(base, path) == base
            + path,
        is_absolute(base) ==> is_absolute(joined(base, path)) || is_absolute(path),
        base.len() == 0 ==> joined(base, path) == path,
{
    reveal_strlit("/");
    assert("/"@ =~= seq!['/']);
}

/// A plain path neither begins at the root nor steps upwards.
pub proof fn law_plain_paths_stay_below(path: Seq<char>)
    ensures
        is_plain_relative(path) ==> !is_absolute(path) && !split_text(path, '/').contains(".."@),
        is_absolute(path) ==> !is_plain_relative(path),
        split_text(path, '/').contains(".."@) ==> !is_plain_relative(path),
{
}

/// A path that begins with a step upwards leads out; one without any stays inside; and one
/// that stays inside still does without its last part.
pub proof fn law_steps_upwards_lead_out(parts: Seq<Seq<char>>)
    ensures
        parts.len() > 0 && parts[0] == ".."@ ==> !stays_inside(parts),
        !parts.contains(".."@) ==> stays_inside(parts),
        parts.len() > 0 && stays_inside(parts) ==> stays_inside(parts.drop_last()),
        stays_inside(parts) ==> ups(parts) <= downs(parts),
{
    if parts.len() > 0 && parts[0] == ".."@ {
        reveal_with_fuel(ups, 2);
        reveal_with_fuel(downs, 2);
        let first = parts.take(1);
        assert(first.drop_last() =~= Seq::<Seq<char>>::empty());
        assert(ups(first) == 1);
        assert(downs(first) == 0);
    }
    if !parts.contains(".."@) {
        assert forall|n: int| 0 <= n <= parts.len() implies ups(#[trigger] parts.take(n)) <= downs(
            parts.take(n),
        ) by {
            lemma_no_ups(parts, n);
        }
    }
    if parts.len() > 0 && stays_inside(parts) {
        let fewer = parts.drop_last();
        assert forall|n: int| 0 <= n <= fewer.len() implies ups(#[trigger] fewer.take(n)) <= downs(
            fewer.take(n),
        ) by {
            assert(fewer.take(n) =~= parts.take(n));
        }
    }
    if stays_inside(parts) {
        assert(parts.take(parts.len() as int) =~= parts);
    }
}

proof fn lemma_no_ups(parts: Seq<Seq<char>>, n: int)
    requires
        0 <= n <= parts.len(),
        !parts.contains(".."@),
    ensures
        ups(parts.take(n)) == 0,
    decreases n,
{
    if n > 0 {
        assert(parts.take(n).drop_last() =~= parts.take(n - 1));
        assert(parts.contains(parts[n - 1]));
        lemma_no_ups(parts, n - 1);
    }
}

/// A link may not point at the root of the file system, nor out of the tree.
pub proof fn law_links_stay_in_the_tree(parent: Seq<char>, target: Seq<char>)
    ensures
        is_absolute(target) ==> symlink_fault(parent, target) is Some,
        symlink_fault(parent, target) is None <==> !is_absolute(target) && !is_absolute(
            joined(parent, target),
        ) && stays_inside(split_text(joined(parent, target), '/')),
{
}

/// An entry is cloned only if it lies on the same device, belongs to the user and is a file,
/// a directory or a link that stays inside; and such an entry is.
pub proof fn law_only_own_entries_are_cloned(
    walk: WalkView,
    facts: FileFacts,
    target: Option<Seq<char>>,
)
    ensures
        entry_fault(walk, facts, target) is None <==> facts.device == walk.device && facts.owner
            == walk.owner && facts.kind != FileKind::Other && (facts.kind == FileKind::Symlink
            ==> symlink_fault(walk.open.last().path, target->0) is None),
{
}

/// A file that was cloned under another name is linked to that, any other file is cloned;
/// a directory is made, and a link is made with its own target.
pub proof fn law_entries_are_made_as_what_they_are(
    walk: WalkView,
    facts: FileFacts,
    target: Option<Seq<char>>,
)
    requires
        walk.phase is Looking,
        facts.kind != FileKind::Other,
    ensures
        ({
            let path = walk.phase->Looking_path;
            let before = facts.links > 1 && walk.originals.contains_key(facts.identity());
            &&& facts.kind == FileKind::Directory ==> making(walk, facts, target) == (
            ActionView::MakeDirectory { path })
            &&& facts.kind == FileKind::File && !before ==> making(walk, facts, target) == (
            ActionView::CloneFile { path })
            &&& facts.kind == FileKind::File && before ==> making(walk, facts, target) == (
            ActionView::HardLink { path, original: walk.originals[facts.identity()] })
            &&& facts.kind == FileKind::Symlink ==> making(walk, facts, target) == (
            ActionView::MakeSymlink { path, target: target->0 })
            &&& recorded_kind(walk, facts).file_kind() == facts.kind
        }),
{
}

/// What has been made is recorded under its path with what was seen of it, and a file that
/// was cloned is remembered, so that its other names are linked to it.
pub proof fn law_what_was_made_is_recorded(walk: WalkView, hash: Option<Seq<char>>)
    requires
        walk.phase is Making,
    ensures
        walk.phase matches PhaseView::Making { path, facts, kind, target } ==> {
            let after = entry_made(walk, hash);
            &&& after.entries.len() == walk.entries.len() + 1
            &&& after.entries.drop_last() == walk.entries
            &&& after.entries.last().path == path
            &&& after.entries.last().kind == kind
            &&& after.entries.last().mode == facts.mode
            &&& after.entries.last().size == facts.size
            &&& after.entries.last().inode == facts.inode
            &&& after.entries.last().target == target
            &&& kind == EntryKind::File ==> after.originals.contains_key(facts.identity())
                && after.originals[facts.identity()] == path
            &&& kind != EntryKind::File ==> after.originals == walk.originals
            &&& kind == EntryKind::File && facts.links > 1 ==> is_repeated(after, facts)
        },
{
    assert(entry_made(walk, hash).entries.drop_last() =~= walk.entries);
}

/// Only files count for the size of a tree, each with its own.
pub proof fn law_files_make_up_the_size(
    walk: WalkView,
    facts: FileFacts,
    target: Option<Seq<char>>,
)
    ensures
        facts.kind == FileKind::File && walk.logical_size + facts.size <= u64::MAX ==> seen(
            walk,
            facts,
            target,
        ).logical_size == walk.logical_size + facts.size,
        facts.kind != FileKind::File ==> seen(walk, facts, target).logical_size
            == walk.logical_size,
{
}

/// Two looks at an entry agree only if neither the file, nor its mode, nor its size, nor the
/// time of its last change differs.
pub proof fn law_changes_are_seen(a: FileFacts, b: FileFacts)
    ensures
        a.same_entry(a),
        a.same_entry(b) == b.same_entry(a),
        a.same_entry(b) ==> a.size == b.size && a.mode == b.mode && a.inode == b.inode && a.device
            == b.device && a.modified == b.modified && a.modified_nanos == b.modified_nanos,
        a.same_directory(b) ==> a.inode == b.inode && a.modified == b.modified
            && a.modified_nanos == b.modified_nanos,
        a.same_entry(b) ==> a.same_directory(b),
{
}

/// What was found has its place exactly if its path is plain, it lies on the device of the
/// tree, and it is a file, a directory or a link.
pub proof fn law_places_in_a_tree(root: FileFacts, found: ObservedEntry)
    ensures
        observation_fault(root, found) is None <==> is_plain_relative(found.path@)
            && found.facts.device == root.device && found.facts.kind != FileKind::Other,
{
}

/// In a tree that is accepted nothing is missing and nothing was added, and each entry has
/// the kind, the mode and the size that it was recorded with, each link its target.
pub proof fn law_accepted_trees_are_as_recorded(
    entries: Seq<ManifestEntry>,
    observed: Seq<ObservedEntry>,
    k: int,
)
    requires
        same_paths(entries, observed),
        all_match(entries, observed),
        0 <= k < entries.len(),
    ensures
        ({
            let found = observation(observed, entries[k].relative_path@);
            &&& is_observed(observed, entries[k].relative_path@)
            &&& found.path@ == entries[k].relative_path@
            &&& found.facts.mode == entries[k].mode
            &&& found.facts.size == entries[k].size
            &&& entries[k].kind == EntryKind::Directory <==> found.facts.kind
                == FileKind::Directory
            &&& entries[k].kind == EntryKind::Symlink <==> found.facts.kind == FileKind::Symlink
            &&& entries[k].kind == EntryKind::Symlink ==> optional_text(found.target)
                == optional_text(entries[k].symlink_target)
        }),
        forall|j: int|
            0 <= j < observed.len() ==> is_recorded(entries, (#[trigger] observed[j]).path@),
{
    assert(entry_matches(entries, observed, k));
    let path = entries[k].relative_path@;
    assert(is_observed(observed, path));
    let j = choose|j: int| 0 <= j < observed.len() && (#[trigger] observed[j]).path@ == path;
    lemma_found(observed, path, j);
}

proof fn lemma_found(observed: Seq<ObservedEntry>, path: Seq<char>, j: int)
    requires
        0 <= j < observed.len(),
        observed[j].path@ == path,
    ensures
        observation(observed, path).path@ == path,
    decreases observed.len(),
{
    if observed.len() > 1 && observed[0].path@ != path {
        assert(observed.drop_first()[j - 1] == observed[j]);
        lemma_found(observed.drop_first(), path, j - 1);
    }
}

/// A tree is checked against the manifest that was made of it only if its root is a directory
/// on the same device.
pub proof fn law_roots_are_directories(root: FileFacts, manifest: CloneManifest)
    ensures
        root_matches(root, manifest) ==> root.kind == FileKind::Directory && root.device
            == manifest.source_device,
        root.kind == FileKind::Directory && root.device == manifest.source_device ==> root_matches(
            root,
            manifest,
        ),
{
}

} // verus!
