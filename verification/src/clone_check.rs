//! Holding a cloned tree against the manifest that was made with it.

use crate::clone_tree::{CloneError, CloneManifest, EntryKind, FileFacts, FileKind, ManifestEntry};
#[allow(unused_imports)]
use crate::text::optional_text;
#[allow(unused_imports)]
use crate::content_digest::digest_option;
use crate::content_digest::ContentDigest;
#[allow(unused_imports)]
use crate::paths::is_plain_relative;
use crate::paths::plain_relative;
use crate::text::str_equal;
use std::collections::HashMap;
use vstd::prelude::*;

verus! {

broadcast use vstd::std_specs::hash::group_hash_axioms;

/// An entry of a tree as it was found: what the file system says of it, what it holds if
/// it is a file, and where it points if it is a symbolic link.
#[derive(Debug)]
pub struct ObservedEntry {
    pub path: String,
    pub facts: FileFacts,
    pub contents: Option<ContentDigest>,
    pub target: Option<String>,
}

/// Why an entry has no place in a cloned tree.
pub open spec fn observation_fault(root: FileFacts, found: ObservedEntry) -> Option<Seq<char>> {
    if !is_plain_relative(found.path@) {
        Some("path is not a normalized relative path"@)
    } else if found.facts.device != root.device {
        Some("mount/device boundary"@)
    } else if found.facts.kind == FileKind::Other {
        Some("devices, sockets, and FIFOs are forbidden"@)
    } else {
        None
    }
}

/// The entry at `k` is the first that has no place in a cloned tree.
pub open spec fn first_out_of_place(
    root: FileFacts,
    observed: Seq<ObservedEntry>,
    k: int,
) -> bool {
    &&& 0 <= k < observed.len()
    &&& observation_fault(root, observed[k]) is Some
    &&& forall|j: int| 0 <= j < k ==> observation_fault(root, #[trigger] observed[j]) is None
}

pub open spec fn all_in_place(root: FileFacts, observed: Seq<ObservedEntry>) -> bool {
    forall|j: int| 0 <= j < observed.len() ==> observation_fault(root, #[trigger] observed[j]) is None
}

/// An entry with the path was found.
pub open spec fn is_observed(observed: Seq<ObservedEntry>, path: Seq<char>) -> bool {
    exists|j: int| 0 <= j < observed.len() && (#[trigger] observed[j]).path@ == path
}

/// The manifest has an entry with the path.
pub open spec fn is_recorded(entries: Seq<ManifestEntry>, path: Seq<char>) -> bool {
    exists|j: int| 0 <= j < entries.len() && (#[trigger] entries[j]).relative_path@ == path
}

/// What was found is what is recorded, path by path.
pub open spec fn same_paths(entries: Seq<ManifestEntry>, observed: Seq<ObservedEntry>) -> bool {
    &&& forall|j: int|
        0 <= j < observed.len() ==> is_recorded(entries, (#[trigger] observed[j]).path@)
    &&& forall|j: int|
        0 <= j < entries.len() ==> is_observed(observed, (#[trigger] entries[j]).relative_path@)
}

/// The first entry that was found with the path.
pub open spec fn observation(observed: Seq<ObservedEntry>, path: Seq<char>) -> ObservedEntry
    decreases observed.len(),
{
    if observed.len() <= 1 || observed[0].path@ == path {
        observed[0]
    } else {
        observation(observed.drop_first(), path)
    }
}

/// The inodes of the files among the first `n` entries, by the inodes that they had when
/// they were cloned.
pub open spec fn inodes(
    entries: Seq<ManifestEntry>,
    observed: Seq<ObservedEntry>,
    n: nat,
) -> Map<u64, u64>
    decreases n,
{
    if n == 0 {
        Map::empty()
    } else {
        let before = inodes(entries, observed, (n - 1) as nat);
        let entry = entries[n - 1];
        if entry.kind == EntryKind::File {
            before.insert(
                entry.source_inode,
                observation(observed, entry.relative_path@).facts.inode,
            )
        } else {
            before
        }
    }
}

/// The entry at `k` looks as it is recorded.
pub open spec fn entry_matches(
    entries: Seq<ManifestEntry>,
    observed: Seq<ObservedEntry>,
    k: int,
) -> bool {
    let entry = entries[k];
    let found = observation(observed, entry.relative_path@);
    &&& found.facts.kind == entry.kind.file_kind()
    &&& found.facts.mode == entry.mode
    &&& found.facts.size == entry.size
    &&& match entry.kind {
        EntryKind::Directory => true,
        EntryKind::File => entry.structural_hash is Some && digest_option(found.contents) == optional_text(
            entry.structural_hash,
        ),
        EntryKind::Hardlink => {
            &&& inodes(entries, observed, k as nat).contains_key(entry.source_inode)
            &&& inodes(entries, observed, k as nat)[entry.source_inode] == found.facts.inode
            &&& entry.structural_hash is Some
            &&& digest_option(found.contents) == optional_text(entry.structural_hash)
        },
        EntryKind::Symlink => optional_text(found.target) == optional_text(entry.symlink_target),
    }
}

/// The entry at `k` is the first that does not look as it is recorded.
pub open spec fn first_mismatch(
    entries: Seq<ManifestEntry>,
    observed: Seq<ObservedEntry>,
    k: int,
) -> bool {
    &&& 0 <= k < entries.len()
    &&& !entry_matches(entries, observed, k)
    &&& forall|j: int| 0 <= j < k ==> #[trigger] entry_matches(entries, observed, j)
}

pub open spec fn all_match(entries: Seq<ManifestEntry>, observed: Seq<ObservedEntry>) -> bool {
    forall|j: int| 0 <= j < entries.len() ==> #[trigger] entry_matches(entries, observed, j)
}

/// The root of the tree is the one that the manifest was made of.
pub open spec fn root_matches(root: FileFacts, manifest: CloneManifest) -> bool {
    root.kind == FileKind::Directory && root.device == manifest.source_device
}

proof fn lemma_observation(observed: Seq<ObservedEntry>, path: Seq<char>, k: int)
    requires
        0 <= k < observed.len(),
        observed[k].path@ == path,
        forall|j: int| 0 <= j < k ==> (#[trigger] observed[j]).path@ != path,
    ensures
        observation(observed, path) == observed[k],
    decreases observed.len(),
{
    if k > 0 {
        let rest = observed.drop_first();
        assert(observed[0].path@ != path);
        assert forall|j: int| 0 <= j < k - 1 implies (#[trigger] rest[j]).path@ != path by {
            assert(observed[j + 1].path@ != path);
        }
        assert(rest[k - 1] == observed[k]);
        lemma_observation(rest, path, k - 1);
    }
}

fn find_observed(observed: &Vec<ObservedEntry>, path: &str) -> (r: Option<usize>)
    ensures
        r is Some <==> is_observed(observed@, path@),
        r matches Some(k) ==> k < observed@.len() && observed@[k as int] == observation(
            observed@,
            path@,
        ),
{
    let mut k: usize = 0;
    while k < observed.len()
        invariant
            k <= observed@.len(),
            forall|j: int| 0 <= j < k ==> (#[trigger] observed@[j]).path@ != path@,
        decreases observed@.len() - k,
    {
        if str_equal(observed[k].path.as_str(), path) {
            proof {
                lemma_observation(observed@, path@, k as int);
            }
            return Some(k);
        }
        k += 1;
    }
    None
}

fn recorded(entries: &Vec<ManifestEntry>, path: &str) -> (r: bool)
    ensures
        r == is_recorded(entries@, path@),
{
    let mut k: usize = 0;
    while k < entries.len()
        invariant
            k <= entries@.len(),
            forall|j: int| 0 <= j < k ==> (#[trigger] entries@[j]).relative_path@ != path@,
        decreases entries@.len() - k,
    {
        if str_equal(entries[k].relative_path.as_str(), path) {
            return true;
        }
        k += 1;
    }
    false
}

fn paths_agree(entries: &Vec<ManifestEntry>, observed: &Vec<ObservedEntry>) -> (r: bool)
    ensures
        r == same_paths(entries@, observed@),
{
    let mut k: usize = 0;
    while k < observed.len()
        invariant
            k <= observed@.len(),
            forall|j: int|
                0 <= j < k ==> is_recorded(entries@, (#[trigger] observed@[j]).path@),
        decreases observed@.len() - k,
    {
        if !recorded(entries, observed[k].path.as_str()) {
            return false;
        }
        k += 1;
    }
    let mut m: usize = 0;
    while m < entries.len()
        invariant
            m <= entries@.len(),
            forall|j: int|
                0 <= j < m ==> is_observed(observed@, (#[trigger] entries@[j]).relative_path@),
        decreases entries@.len() - m,
    {
        if find_observed(observed, entries[m].relative_path.as_str()).is_none() {
            return false;
        }
        m += 1;
    }
    true
}

fn same_option(a: &Option<String>, b: &Option<String>) -> (r: bool)
    ensures
        r == (optional_text(*a) == optional_text(*b)),
{
    match (a, b) {
        (Some(a), Some(b)) => str_equal(a.as_str(), b.as_str()),
        (None, None) => true,
        _ => false,
    }
}

fn same_contents(contents: &Option<ContentDigest>, hash: &Option<String>) -> (r: bool)
    ensures
        r == (hash is Some && digest_option(*contents) == optional_text(*hash)),
{
    match (contents, hash) {
        (Some(contents), Some(hash)) => str_equal(contents.finish().as_str(), hash.as_str()),
        _ => false,
    }
}

/// Holds a tree as it was found against its manifest.
pub fn verify_clone_tree(
    source: &str,
    root: &FileFacts,
    manifest: &CloneManifest,
    observed: &Vec<ObservedEntry>,
) -> (r: Result<(), CloneError>)
    ensures
        r is Ok <==> root_matches(*root, *manifest) && all_in_place(*root, observed@) && same_paths(
            manifest.entries@,
            observed@,
        ) && all_match(manifest.entries@, observed@),
        r matches Err(error) ==> if !root_matches(*root, *manifest) {
            error.is_unsafe(source@, "seed root identity differs from its manifest"@)
        } else if !all_in_place(*root, observed@) {
            exists|k: int| #[trigger]
                first_out_of_place(*root, observed@, k) && error.is_unsafe(
                    observed@[k].path@,
                    observation_fault(*root, observed@[k])->0,
                )
        } else if !same_paths(manifest.entries@, observed@) {
            error.is_changed(source@)
        } else {
            exists|k: int| #[trigger]
                first_mismatch(manifest.entries@, observed@, k) && error.is_changed(
                    manifest.entries@[k].relative_path@,
                )
        },
{
    if root.kind != FileKind::Directory || root.device != manifest.source_device {
        return Err(
            CloneError::UnsafeEntry {
                path: source.to_owned(),
                reason: "seed root identity differs from its manifest".to_owned(),
            },
        );
    }
    let mut i: usize = 0;
    while i < observed.len()
        invariant
            i <= observed@.len(),
            root_matches(*root, *manifest),
            forall|j: int|
                0 <= j < i ==> observation_fault(*root, #[trigger] observed@[j]) is None,
        decreases observed@.len() - i,
    {
        let found = &observed[i];
        let reason: &str = if !plain_relative(found.path.as_str()) {
            "path is not a normalized relative path"
        } else if found.facts.device != root.device {
            "mount/device boundary"
        } else if found.facts.kind == FileKind::Other {
            "devices, sockets, and FIFOs are forbidden"
        } else {
            i += 1;
            continue;
        };
        assert(first_out_of_place(*root, observed@, i as int));
        return Err(
            CloneError::UnsafeEntry {
                path: found.path.as_str().to_owned(),
                reason: reason.to_owned(),
            },
        );
    }
    if !paths_agree(&manifest.entries, observed) {
        return Err(CloneError::SourceChanged(source.to_owned()));
    }
    let entries = &manifest.entries;
    let mut inode_of: HashMap<u64, u64> = HashMap::new();
    let mut k: usize = 0;
    assert(inode_of@ =~= inodes(entries@, observed@, 0));
    while k < entries.len()
        invariant
            k <= entries@.len(),
            entries@ == manifest.entries@,
            root_matches(*root, *manifest),
            all_in_place(*root, observed@),
            same_paths(entries@, observed@),
            inode_of@ == inodes(entries@, observed@, k as nat),
            forall|j: int| 0 <= j < k ==> #[trigger] entry_matches(entries@, observed@, j),
        decreases entries@.len() - k,
    {
        let entry = &entries[k];
        assert(is_observed(observed@, entries@[k as int].relative_path@));
        let at: usize = match find_observed(observed, entry.relative_path.as_str()) {
            Some(at) => at,
            None => {
                assert(false);
                0
            },
        };
        let found = &observed[at];
        let same_kind = match (entry.kind, found.facts.kind) {
            (EntryKind::Directory, FileKind::Directory) => true,
            (EntryKind::File, FileKind::File) => true,
            (EntryKind::Hardlink, FileKind::File) => true,
            (EntryKind::Symlink, FileKind::Symlink) => true,
            _ => false,
        };
        let mut same = same_kind && found.facts.mode == entry.mode && found.facts.size
            == entry.size;
        if same {
            match entry.kind {
                EntryKind::Directory => {},
                EntryKind::File => {
                    inode_of.insert(entry.source_inode, found.facts.inode);
                    same = same_contents(&found.contents, &entry.structural_hash);
                },
                EntryKind::Hardlink => {
                    let known = match inode_of.get(&entry.source_inode) {
                        Some(inode) => *inode == found.facts.inode,
                        None => false,
                    };
                    same = known && same_contents(&found.contents, &entry.structural_hash);
                },
                EntryKind::Symlink => {
                    same = same_option(&found.target, &entry.symlink_target);
                },
            }
        }
        if !same {
            assert(first_mismatch(entries@, observed@, k as int));
            return Err(CloneError::SourceChanged(entry.relative_path.as_str().to_owned()));
        }
        k += 1;
    }
    Ok(())
}

/// Where the inode of a file comes from.
proof fn lemma_inodes(
    entries: Seq<ManifestEntry>,
    observed: Seq<ObservedEntry>,
    n: nat,
    inode: u64,
) -> (j: int)
    requires
        n <= entries.len(),
        inodes(entries, observed, n).contains_key(inode),
    ensures
        0 <= j < n,
        entries[j].kind == EntryKind::File,
        entries[j].source_inode == inode,
        observation(observed, entries[j].relative_path@).facts.inode == inodes(
            entries,
            observed,
            n,
        )[inode],
    decreases n,
{
    let last = entries[n - 1];
    if last.kind == EntryKind::File && last.source_inode == inode {
        n - 1
    } else {
        lemma_inodes(entries, observed, (n - 1) as nat, inode)
    }
}

/// In a tree that is accepted, every hard link still is one and the same file with an
/// earlier entry, and with one that it was linked to when it was cloned.
pub proof fn law_hard_links_stay_together(
    entries: Seq<ManifestEntry>,
    observed: Seq<ObservedEntry>,
    k: int,
)
    requires
        all_match(entries, observed),
        0 <= k < entries.len(),
        entries[k].kind == EntryKind::Hardlink,
    ensures
        exists|j: int|
            0 <= j < k && (#[trigger] entries[j]).kind == EntryKind::File && entries[j].source_inode
                == entries[k].source_inode && observation(
                observed,
                entries[j].relative_path@,
            ).facts.inode == observation(observed, entries[k].relative_path@).facts.inode,
{
    assert(entry_matches(entries, observed, k));
    let j = lemma_inodes(entries, observed, k as nat, entries[k].source_inode);
    assert(entries[j].kind == EntryKind::File);
}

} // verus!
