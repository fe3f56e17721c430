//! Cloning a directory tree entry by entry, and checking a clone against its manifest.
//!
//! The walk asks for one thing at a time: to list a directory, to look at an entry, to
//! make one, to look at one again. What was found is handed back, and the walk says what
//! comes next.
//!
//! Names and the targets of links are text, as they are in a manifest.

use crate::content_digest::ContentDigest;
#[allow(unused_imports)]
use crate::content_digest::digest_option;
use crate::paths::{join_path, plain_relative, validate_symlink};
#[allow(unused_imports)]
use crate::paths::{is_plain_relative, joined, symlink_fault};
use crate::text::{concat3, sort_texts};
#[allow(unused_imports)]
use crate::text::{is_sorted_set, optional_text, texts};
use std::collections::HashMap;
use vstd::prelude::*;

verus! {

broadcast use vstd::std_specs::hash::group_hash_axioms;

/// Why a tree was not cloned.
#[derive(Clone, Debug, PartialEq, Eq)]
#[allow(inconsistent_fields)]
pub enum CloneError {
    CrossVolume,
    CloneFailed { path: String, source: String },
    UnsafeEntry { path: String, reason: String },
    SourceChanged(String),
    DestinationExists(String),
    Io(String),
    Manifest(String),
    UnsupportedPlatform,
}

impl CloneError {
    /// The message shown for the error.
    pub open spec fn text(self) -> Seq<char> {
        match self {
            CloneError::CrossVolume =>
                "clone source and destination are on different volumes"@,
            CloneError::CloneFailed { path, source } => "APFS force clone failed for "@ + path@
                + ": "@ + source@,
            CloneError::UnsafeEntry { path, reason } => "unsafe cache entry "@ + path@ + ": "@
                + reason@,
            CloneError::SourceChanged(path) =>
                "cache source changed while it was being captured: "@ + path@,
            CloneError::DestinationExists(path) => "destination already exists: "@ + path@,
            CloneError::Io(reason) => "I/O error: "@ + reason@,
            CloneError::Manifest(reason) => "manifest serialization error: "@ + reason@,
            CloneError::UnsupportedPlatform => "force cloning is supported only on macOS APFS"@,
        }
    }

    /// The message shown for the error.
    pub fn message(&self) -> (r: String)
        ensures
            r@ == self.text(),
    {
        match self {
            CloneError::CrossVolume =>
                "clone source and destination are on different volumes".to_owned(),
            CloneError::CloneFailed { path, source } => concat3(
                "APFS force clone failed for ",
                path.as_str(),
                ": ",
            ).concat(source.as_str()),
            CloneError::UnsafeEntry { path, reason } => concat3(
                "unsafe cache entry ",
                path.as_str(),
                ": ",
            ).concat(reason.as_str()),
            CloneError::SourceChanged(path) =>
                "cache source changed while it was being captured: ".to_owned().concat(
                path.as_str(),
            ),
            CloneError::DestinationExists(path) =>
                "destination already exists: ".to_owned().concat(path.as_str()),
            CloneError::Io(reason) => "I/O error: ".to_owned().concat(reason.as_str()),
            CloneError::Manifest(reason) =>
                "manifest serialization error: ".to_owned().concat(reason.as_str()),
            CloneError::UnsupportedPlatform =>
                "force cloning is supported only on macOS APFS".to_owned(),
        }
    }

    /// The error says that the entry must not be cloned, for this reason.
    pub open spec fn is_unsafe(self, at: Seq<char>, why: Seq<char>) -> bool {
        self matches CloneError::UnsafeEntry { path, reason } && path@ == at && reason@ == why
    }

    /// The error says that something changed under the walk.
    pub open spec fn is_changed(self, at: Seq<char>) -> bool {
        self matches CloneError::SourceChanged(path) && path@ == at
    }
}

fn unsafe_entry(path: &str, reason: &str) -> (r: CloneError)
    ensures
        r.is_unsafe(path@, reason@),
{
    CloneError::UnsafeEntry { path: path.to_owned(), reason: reason.to_owned() }
}

/// What kind of file an entry is.
#[derive(Clone, Copy, Debug, PartialEq, Eq, Structural)]
pub enum FileKind {
    Directory,
    File,
    Symlink,
    Other,
}

/// What the file system says of an entry, without following a link.
#[derive(Clone, Copy, Debug, PartialEq, Eq, Structural)]
pub struct FileFacts {
    pub kind: FileKind,
    pub device: u64,
    pub inode: u64,
    pub mode: u32,
    pub size: u64,
    pub links: u64,
    pub owner: u32,
    pub modified: i64,
    pub modified_nanos: i64,
}

impl FileFacts {
    /// Two looks at an entry saw the same.
    pub open spec fn same_entry(self, other: FileFacts) -> bool {
        &&& self.device == other.device
        &&& self.inode == other.inode
        &&& self.mode == other.mode
        &&& self.size == other.size
        &&& self.modified == other.modified
        &&& self.modified_nanos == other.modified_nanos
    }

    /// Two looks at an open directory saw the same.
    pub open spec fn same_directory(self, other: FileFacts) -> bool {
        &&& self.inode == other.inode
        &&& self.modified == other.modified
        &&& self.modified_nanos == other.modified_nanos
    }

    fn unchanged(&self, other: &FileFacts) -> (r: bool)
        ensures
            r == self.same_entry(*other),
    {
        self.device == other.device && self.inode == other.inode && self.mode == other.mode
            && self.size == other.size && self.modified == other.modified && self.modified_nanos
            == other.modified_nanos
    }

    fn directory_unchanged(&self, other: &FileFacts) -> (r: bool)
        ensures
            r == self.same_directory(*other),
    {
        self.inode == other.inode && self.modified == other.modified && self.modified_nanos
            == other.modified_nanos
    }

    /// What tells one file from all others.
    pub open spec fn identity(self) -> u128 {
        ((self.device as nat) * 0x1_0000_0000_0000_0000 + self.inode) as u128
    }

    fn key(&self) -> (r: u128)
        ensures
            r == self.identity(),
    {
        assert((self.device as nat) * 0x1_0000_0000_0000_0000 + self.inode <= u128::MAX)
            by (nonlinear_arith)
            requires
                self.device <= 0xffff_ffff_ffff_ffff,
                self.inode <= 0xffff_ffff_ffff_ffff,
        ;
        self.device as u128 * 0x1_0000_0000_0000_0000u128 + self.inode as u128
    }
}

/// What an entry of a manifest is.
#[derive(Clone, Copy, Debug, PartialEq, Eq, Structural)]
pub enum EntryKind {
    Directory,
    File,
    Symlink,
    Hardlink,
}

impl EntryKind {
    /// The kind as it is written.
    pub open spec fn wire_name(self) -> Seq<char> {
        match self {
            EntryKind::Directory => "directory"@,
            EntryKind::File => "file"@,
            EntryKind::Symlink => "symlink"@,
            EntryKind::Hardlink => "hardlink"@,
        }
    }

    /// The kind as it is written.
    pub fn as_str(self) -> (r: &'static str)
        ensures
            r@ == self.wire_name(),
    {
        match self {
            EntryKind::Directory => "directory",
            EntryKind::File => "file",
            EntryKind::Symlink => "symlink",
            EntryKind::Hardlink => "hardlink",
        }
    }

    /// The kind of file that such an entry is.
    pub open spec fn file_kind(self) -> FileKind {
        match self {
            EntryKind::Directory => FileKind::Directory,
            EntryKind::File | EntryKind::Hardlink => FileKind::File,
            EntryKind::Symlink => FileKind::Symlink,
        }
    }

    /// Such an entry is cloned, not written anew.
    pub open spec fn is_cloned(self) -> bool {
        self == EntryKind::File || self == EntryKind::Hardlink
    }
}

/// One entry of a cloned tree.
#[derive(Clone, Debug, PartialEq, Eq)]
pub struct ManifestEntry {
    pub relative_path: String,
    pub kind: EntryKind,
    pub mode: u32,
    pub size: u64,
    pub source_inode: u64,
    pub structural_hash: Option<String>,
    pub symlink_target: Option<String>,
    pub clone_succeeded: bool,
}

/// What a `ManifestEntry` says.
pub struct EntryView {
    pub path: Seq<char>,
    pub kind: EntryKind,
    pub mode: u32,
    pub size: u64,
    pub inode: u64,
    pub hash: Option<Seq<char>>,
    pub target: Option<Seq<char>>,
    pub cloned: bool,
}

impl View for ManifestEntry {
    type V = EntryView;

    open spec fn view(&self) -> EntryView {
        EntryView {
            path: self.relative_path@,
            kind: self.kind,
            mode: self.mode,
            size: self.size,
            inode: self.source_inode,
            hash: optional_text(self.structural_hash),
            target: optional_text(self.symlink_target),
            cloned: self.clone_succeeded,
        }
    }
}

/// What several entries say.
pub open spec fn entry_views(entries: Seq<ManifestEntry>) -> Seq<EntryView> {
    entries.map_values(|entry: ManifestEntry| entry@)
}

/// The record of a cloned tree.
#[derive(Clone, Debug, PartialEq, Eq)]
pub struct CloneManifest {
    pub version: u16,
    pub source_device: u64,
    pub logical_size: u64,
    pub entries: Vec<ManifestEntry>,
}

/// A directory that the walk is in.
struct OpenDirectory {
    path: String,
    before: FileFacts,
    outer: Option<FileFacts>,
    waiting: Vec<String>,
}

/// What is known of a directory that the walk is in: how it looked when it was listed,
/// how it looked from outside, and the entries that are still to come.
pub struct OpenView {
    pub path: Seq<char>,
    pub before: FileFacts,
    pub outer: Option<FileFacts>,
    pub waiting: Seq<Seq<char>>,
}

impl View for OpenDirectory {
    type V = OpenView;

    closed spec fn view(&self) -> OpenView {
        OpenView {
            path: self.path@,
            before: self.before,
            outer: self.outer,
            waiting: texts(self.waiting@),
        }
    }
}

/// What the walk waits for.
enum Phase {
    Listing { path: String, outer: Option<FileFacts> },
    Looking { path: String },
    Making { path: String, facts: FileFacts, kind: EntryKind, target: Option<String> },
    Checking { path: String, facts: FileFacts },
    Leaving,
    Finished,
}

/// What the walk waits for: the listing of a directory, a look at an entry, an entry to
/// be made, a second look at one, a second look at the directory that it is about to
/// leave, or nothing any more.
#[allow(inconsistent_fields)]
pub enum PhaseView {
    Listing { path: Seq<char>, outer: Option<FileFacts> },
    Looking { path: Seq<char> },
    Making { path: Seq<char>, facts: FileFacts, kind: EntryKind, target: Option<Seq<char>> },
    Checking { path: Seq<char>, facts: FileFacts },
    Leaving,
    Finished,
}

impl View for Phase {
    type V = PhaseView;

    closed spec fn view(&self) -> PhaseView {
        match self {
            Phase::Listing { path, outer } => PhaseView::Listing { path: path@, outer: *outer },
            Phase::Looking { path } => PhaseView::Looking { path: path@ },
            Phase::Making { path, facts, kind, target } => PhaseView::Making {
                path: path@,
                facts: *facts,
                kind: *kind,
                target: optional_text(*target),
            },
            Phase::Checking { path, facts } => PhaseView::Checking { path: path@, facts: *facts },
            Phase::Leaving => PhaseView::Leaving,
            Phase::Finished => PhaseView::Finished,
        }
    }
}

/// What is to be done next.
#[derive(Clone, Debug, PartialEq, Eq)]
#[allow(inconsistent_fields)]
pub enum WalkAction {
    /// List the directory, and say how it looks.
    List { path: String },
    /// Look at the entry.
    Look { path: String },
    /// Make the directory.
    MakeDirectory { path: String },
    /// Make the entry another name of one that was made before.
    HardLink { path: String, original: String },
    /// Clone the file.
    CloneFile { path: String },
    /// Make the symbolic link.
    MakeSymlink { path: String, target: String },
    /// Look at the entry again.
    LookAgain { path: String },
    /// Give the directory its mode, then look at its source again.
    Restore { path: String, mode: u32 },
    /// Nothing: the tree is cloned.
    Done,
}

/// What a `WalkAction` asks for.
#[allow(inconsistent_fields)]
pub enum ActionView {
    List { path: Seq<char> },
    Look { path: Seq<char> },
    MakeDirectory { path: Seq<char> },
    HardLink { path: Seq<char>, original: Seq<char> },
    CloneFile { path: Seq<char> },
    MakeSymlink { path: Seq<char>, target: Seq<char> },
    LookAgain { path: Seq<char> },
    Restore { path: Seq<char>, mode: u32 },
    Done,
}

impl View for WalkAction {
    type V = ActionView;

    open spec fn view(&self) -> ActionView {
        match self {
            WalkAction::List { path } => ActionView::List { path: path@ },
            WalkAction::Look { path } => ActionView::Look { path: path@ },
            WalkAction::MakeDirectory { path } => ActionView::MakeDirectory { path: path@ },
            WalkAction::HardLink { path, original } => ActionView::HardLink {
                path: path@,
                original: original@,
            },
            WalkAction::CloneFile { path } => ActionView::CloneFile { path: path@ },
            WalkAction::MakeSymlink { path, target } => ActionView::MakeSymlink {
                path: path@,
                target: target@,
            },
            WalkAction::LookAgain { path } => ActionView::LookAgain { path: path@ },
            WalkAction::Restore { path, mode } => ActionView::Restore { path: path@, mode: *mode },
            WalkAction::Done => ActionView::Done,
        }
    }
}

/// A walk that clones a tree.
pub struct CloneWalk {
    device: u64,
    owner: u32,
    open: Vec<OpenDirectory>,
    phase: Phase,
    logical_size: u64,
    entries: Vec<ManifestEntry>,
    originals: HashMap<u128, String>,
}

/// How far a walk has come.
pub struct WalkView {
    pub device: u64,
    pub owner: u32,
    pub open: Seq<OpenView>,
    pub phase: PhaseView,
    pub logical_size: u64,
    pub entries: Seq<EntryView>,
    pub originals: Map<u128, Seq<char>>,
}

impl View for CloneWalk {
    type V = WalkView;

    closed spec fn view(&self) -> WalkView {
        WalkView {
            device: self.device,
            owner: self.owner,
            open: self.open@.map_values(|directory: OpenDirectory| directory@),
            phase: self.phase@,
            logical_size: self.logical_size,
            entries: entry_views(self.entries@),
            originals: self.originals@.map_values(|path: String| path@),
        }
    }
}

/// What a name of the directory that the walk is in leads to.
pub open spec fn next_path(walk: WalkView) -> Seq<char> {
    joined(walk.open.last().path, walk.open.last().waiting[0])
}

/// The walk cannot go on, because the next path is not a plain one.
pub open spec fn next_is_odd(walk: WalkView) -> bool {
    walk.open.last().waiting.len() > 0 && !is_plain_relative(next_path(walk))
}

/// The walk, gone on to the next entry of the directory that it is in, or to its end.
pub open spec fn gone_on(walk: WalkView) -> WalkView {
    let top = walk.open.last();
    if top.waiting.len() > 0 {
        WalkView {
            open: walk.open.drop_last().push(
                OpenView { waiting: top.waiting.drop_first(), ..top },
            ),
            phase: PhaseView::Looking { path: next_path(walk) },
            ..walk
        }
    } else {
        WalkView { phase: PhaseView::Leaving, ..walk }
    }
}

/// What going on asks for.
pub open spec fn going_on(walk: WalkView) -> ActionView {
    if walk.open.last().waiting.len() > 0 {
        ActionView::Look { path: next_path(walk) }
    } else {
        ActionView::LookAgain { path: walk.open.last().path }
    }
}

/// The walk in a directory that has just been listed.
pub open spec fn inside(walk: WalkView, facts: FileFacts, names: Seq<Seq<char>>) -> WalkView {
    match walk.phase {
        PhaseView::Listing { path, outer } => WalkView {
            open: walk.open.push(OpenView { path, before: facts, outer, waiting: names }),
            ..walk
        },
        _ => walk,
    }
}

/// Why an entry must not be cloned.
pub open spec fn entry_fault(
    walk: WalkView,
    facts: FileFacts,
    target: Option<Seq<char>>,
) -> Option<Seq<char>> {
    if facts.device != walk.device {
        Some("mount/device boundary"@)
    } else if facts.owner != walk.owner {
        Some("entry is not owned by the current user"@)
    } else if facts.kind == FileKind::Other {
        Some("devices, sockets, and FIFOs are forbidden"@)
    } else if facts.kind == FileKind::Symlink {
        symlink_fault(walk.open.last().path, target->0)
    } else {
        None
    }
}

/// The entry is another name of a file that was cloned before.
pub open spec fn is_repeated(walk: WalkView, facts: FileFacts) -> bool {
    facts.links > 1 && walk.originals.contains_key(facts.identity())
}

/// What kind of entry the manifest records.
pub open spec fn recorded_kind(walk: WalkView, facts: FileFacts) -> EntryKind {
    match facts.kind {
        FileKind::Directory => EntryKind::Directory,
        FileKind::File => if is_repeated(walk, facts) {
            EntryKind::Hardlink
        } else {
            EntryKind::File
        },
        _ => EntryKind::Symlink,
    }
}

/// The sum of two sizes, or the greatest size.
pub open spec fn saturating_sum(a: u64, b: u64) -> u64 {
    if a + b <= u64::MAX {
        (a + b) as u64
    } else {
        u64::MAX
    }
}

/// The walk once an entry has been looked at.
pub open spec fn seen(walk: WalkView, facts: FileFacts, target: Option<Seq<char>>) -> WalkView {
    WalkView {
        phase: PhaseView::Making {
            path: walk.phase->Looking_path,
            facts,
            kind: recorded_kind(walk, facts),
            target: if facts.kind == FileKind::Symlink {
                target
            } else {
                None
            },
        },
        logical_size: if facts.kind == FileKind::File {
            saturating_sum(walk.logical_size, facts.size)
        } else {
            walk.logical_size
        },
        ..walk
    }
}

/// What an entry that has been looked at asks for.
pub open spec fn making(walk: WalkView, facts: FileFacts, target: Option<Seq<char>>) -> ActionView {
    let path = walk.phase->Looking_path;
    match recorded_kind(walk, facts) {
        EntryKind::Directory => ActionView::MakeDirectory { path },
        EntryKind::Hardlink => ActionView::HardLink {
            path,
            original: walk.originals[facts.identity()],
        },
        EntryKind::File => ActionView::CloneFile { path },
        EntryKind::Symlink => ActionView::MakeSymlink { path, target: target->0 },
    }
}

/// The walk once an entry has been made.
pub open spec fn entry_made(walk: WalkView, hash: Option<Seq<char>>) -> WalkView {
    match walk.phase {
        PhaseView::Making { path, facts, kind, target } => WalkView {
            phase: if kind == EntryKind::Directory {
                PhaseView::Listing { path, outer: Some(facts) }
            } else {
                PhaseView::Checking { path, facts }
            },
            entries: walk.entries.push(
                EntryView {
                    path,
                    kind,
                    mode: facts.mode,
                    size: facts.size,
                    inode: facts.inode,
                    hash: if kind.is_cloned() {
                        hash
                    } else {
                        None
                    },
                    target,
                    cloned: kind.is_cloned(),
                },
            ),
            originals: if kind == EntryKind::File {
                walk.originals.insert(facts.identity(), path)
            } else {
                walk.originals
            },
            ..walk
        },
        _ => walk,
    }
}

/// The walk once it has left a directory.
pub open spec fn left(walk: WalkView) -> WalkView {
    let top = walk.open.last();
    WalkView {
        open: walk.open.drop_last(),
        phase: match top.outer {
            Some(facts) => PhaseView::Checking { path: top.path, facts },
            None => PhaseView::Finished,
        },
        ..walk
    }
}

/// The entry is a link, next to which its target was found not to lead out of the tree.
pub open spec fn link_stays_inside(entry: EntryView) -> bool {
    exists|parent: Seq<char>, name: Seq<char>|
        entry.path == #[trigger] joined(parent, name) && symlink_fault(parent, entry.target->0) is None
}

/// Before position `k` a file with that inode is recorded as cloned.
pub open spec fn cloned_before(entries: Seq<EntryView>, k: int, inode: u64) -> bool {
    exists|j: int|
        0 <= j < k && (#[trigger] entries[j]).kind == EntryKind::File && entries[j].inode == inode
}

/// What holds of every entry of a manifest: its path is plain, exactly what was cloned
/// is recorded as cloned and with a digest, a hard link comes after the file that it is
/// another name of, and no symbolic link leads out of the tree.
pub open spec fn entry_sound(entries: Seq<EntryView>, k: int) -> bool {
    let entry = entries[k];
    &&& is_plain_relative(entry.path)
    &&& entry.cloned == entry.kind.is_cloned()
    &&& entry.hash is Some <==> entry.kind.is_cloned()
    &&& entry.target is Some <==> entry.kind == EntryKind::Symlink
    &&& entry.kind == EntryKind::Hardlink ==> cloned_before(entries, k, entry.inode)
    &&& entry.kind == EntryKind::Symlink ==> link_stays_inside(entry)
}

/// What holds of every manifest.
pub open spec fn manifest_sound(entries: Seq<EntryView>) -> bool {
    forall|k: int| 0 <= k < entries.len() ==> #[trigger] entry_sound(entries, k)
}

/// Every file that is remembered as cloned is recorded so.
pub open spec fn originals_recorded(walk: WalkView) -> bool {
    forall|id: u128| #[trigger]
        walk.originals.contains_key(id) ==> cloned_before(
            walk.entries,
            walk.entries.len() as int,
            (id % 0x1_0000_0000_0000_0000) as u64,
        )
}

/// All directories that the walk is in but the first are entries of their own.
pub open spec fn properly_nested(open: Seq<OpenView>) -> bool {
    forall|i: int| 0 <= i < open.len() ==> ((#[trigger] open[i]).outer is None <==> i == 0)
}

/// What the walk waits for fits what it has seen.
pub open spec fn phase_sound(walk: WalkView) -> bool {
    match walk.phase {
        PhaseView::Listing { path, outer } => outer is None <==> walk.open.len() == 0,
        PhaseView::Looking { path } => {
            &&& walk.open.len() > 0
            &&& is_plain_relative(path)
            &&& exists|name: Seq<char>| path == #[trigger] joined(walk.open.last().path, name)
        },
        PhaseView::Making { path, facts, kind, target } => {
            &&& walk.open.len() > 0
            &&& is_plain_relative(path)
            &&& kind == recorded_kind(walk, facts)
            &&& facts.kind != FileKind::Other
            &&& target is Some <==> kind == EntryKind::Symlink
            &&& kind == EntryKind::Symlink ==> symlink_fault(
                walk.open.last().path,
                target->0,
            ) is None && exists|name: Seq<char>|
                path == #[trigger] joined(walk.open.last().path, name)
        },
        PhaseView::Checking { .. } | PhaseView::Leaving => walk.open.len() > 0,
        PhaseView::Finished => walk.open.len() == 0,
    }
}

impl WalkView {
    /// What holds of every walk.
    pub open spec fn sound(self) -> bool {
        &&& manifest_sound(self.entries)
        &&& originals_recorded(self)
        &&& properly_nested(self.open)
        &&& phase_sound(self)
    }
}

proof fn lemma_going_on(walk: WalkView)
    requires
        manifest_sound(walk.entries),
        originals_recorded(walk),
        properly_nested(walk.open),
        walk.open.len() > 0,
        !next_is_odd(walk),
    ensures
        gone_on(walk).sound(),
{
    let after = gone_on(walk);
    let top = walk.open.last();
    if top.waiting.len() > 0 {
        assert(after.open.last().path == top.path);
        assert(next_path(walk) == joined(after.open.last().path, top.waiting[0]));
    }
}

proof fn lemma_entry_made(walk: WalkView, hash: Option<Seq<char>>)
    requires
        walk.sound(),
        walk.phase is Making,
        walk.phase->kind.is_cloned() ==> hash is Some,
    ensures
        entry_made(walk, hash).sound(),
{
    let after = entry_made(walk, hash);
    let entries = after.entries;
    let n = walk.entries.len() as int;
    let facts = walk.phase->Making_facts;
    let kind = walk.phase->kind;
    let id = facts.identity();
    assert((facts.device as nat) * 0x1_0000_0000_0000_0000 + facts.inode <= u128::MAX)
        by (nonlinear_arith)
        requires
            facts.device <= 0xffff_ffff_ffff_ffff,
            facts.inode <= 0xffff_ffff_ffff_ffff,
    ;
    assert(id % 0x1_0000_0000_0000_0000 == facts.inode);
    assert forall|k: int| 0 <= k < entries.len() implies #[trigger] entry_sound(entries, k) by {
        if k < n {
            assert(entry_sound(walk.entries, k));
            assert(entries[k] == walk.entries[k]);
            if entries[k].kind == EntryKind::Hardlink {
                let j = choose|j: int|
                    0 <= j < k && (#[trigger] walk.entries[j]).kind == EntryKind::File
                        && walk.entries[j].inode == entries[k].inode;
                assert(entries[j] == walk.entries[j]);
            }
        } else {
            if kind == EntryKind::Hardlink {
                assert(walk.originals.contains_key(id));
                let j = choose|j: int|
                    0 <= j < n && (#[trigger] walk.entries[j]).kind == EntryKind::File
                        && walk.entries[j].inode == facts.inode;
                assert(entries[j] == walk.entries[j]);
                assert(cloned_before(entries, k, facts.inode));
            }
        }
    }
    assert forall|other: u128| #[trigger] after.originals.contains_key(other) implies cloned_before(
        entries,
        entries.len() as int,
        (other % 0x1_0000_0000_0000_0000) as u64,
    ) by {
        if kind == EntryKind::File && other == id {
            assert(entries[n].kind == EntryKind::File && entries[n].inode == facts.inode);
        } else {
            assert(walk.originals.contains_key(other));
            let inode = (other % 0x1_0000_0000_0000_0000) as u64;
            let j = choose|j: int|
                0 <= j < n && (#[trigger] walk.entries[j]).kind == EntryKind::File
                    && walk.entries[j].inode == inode;
            assert(entries[j] == walk.entries[j]);
        }
    }
}

impl CloneWalk {
    /// Begins to clone a tree. `destination_device` is that of the directory in which the
    /// clone is to stand, if there is one.
    pub fn begin(
        source: &str,
        facts: &FileFacts,
        destination: &str,
        destination_exists: bool,
        destination_device: Option<u64>,
        owner: u32,
    ) -> (r: Result<(CloneWalk, WalkAction), CloneError>)
        ensures
            r is Ok <==> !destination_exists && facts.kind == FileKind::Directory
                && destination_device == Some(facts.device),
            r matches Ok((walk, action)) ==> {
                &&& walk@.sound()
                &&& walk@ == (WalkView {
                    device: facts.device,
                    owner,
                    open: Seq::empty(),
                    phase: PhaseView::Listing { path: Seq::empty(), outer: None },
                    logical_size: 0,
                    entries: Seq::empty(),
                    originals: Map::empty(),
                })
                &&& action@ == (ActionView::List { path: Seq::empty() })
            },
            r matches Err(error) ==> if destination_exists {
                error matches CloneError::DestinationExists(path) && path@ == destination@
            } else if facts.kind != FileKind::Directory {
                error.is_unsafe(source@, "source root is not a directory"@)
            } else if destination_device is None {
                error.is_unsafe(destination@, "destination has no parent"@)
            } else {
                error is CrossVolume
            },
    {
        if destination_exists {
            return Err(CloneError::DestinationExists(destination.to_owned()));
        }
        if facts.kind != FileKind::Directory {
            return Err(unsafe_entry(source, "source root is not a directory"));
        }
        match destination_device {
            None => {
                return Err(unsafe_entry(destination, "destination has no parent"));
            },
            Some(device) => {
                if device != facts.device {
                    return Err(CloneError::CrossVolume);
                }
            },
        }
        let walk = CloneWalk {
            device: facts.device,
            owner,
            open: Vec::new(),
            phase: Phase::Listing { path: String::new(), outer: None },
            logical_size: 0,
            entries: Vec::new(),
            originals: HashMap::new(),
        };
        proof {
            assert(walk@.open =~= Seq::empty());
            assert(walk@.entries =~= Seq::empty());
            assert(walk@.originals =~= Map::empty());
            assert(walk@.phase->Listing_path =~= Seq::empty());
        }
        Ok((walk, WalkAction::List { path: String::new() }))
    }

    /// Goes on to the next entry of the directory that the walk is in, or to its end.
    fn go_on(&mut self) -> (r: Result<WalkAction, CloneError>)
        requires
            old(self)@.open.len() > 0,
        ensures
            r is Ok <==> !next_is_odd(old(self)@),
            r matches Ok(action) ==> final(self)@ == gone_on(old(self)@) && action@ == going_on(
                old(self)@,
            ),
            r matches Err(error) ==> error.is_unsafe(
                next_path(old(self)@),
                "path is not a normalized relative path"@,
            ),
    {
        let ghost before = self@;
        let count: usize = self.open.len();
        assert(before.open.last() == self.open@[count - 1]@);
        let mut top = match self.open.pop() {
            Some(top) => top,
            None => {
                assert(false);
                return Err(CloneError::CrossVolume);
            },
        };
        if top.waiting.len() > 0 {
            let ghost names = top.waiting@;
            assert(texts(names)[0] == names[0]@);
            let name = top.waiting.remove(0);
            let path = join_path(top.path.as_str(), name.as_str());
            if !plain_relative(path.as_str()) {
                return Err(unsafe_entry(path.as_str(), "path is not a normalized relative path"));
            }
            assert(texts(top.waiting@) =~= texts(names).drop_first());
            self.open.push(top);
            self.phase = Phase::Looking { path: path.as_str().to_owned() };
            proof {
                assert(self@.open =~= gone_on(before).open);
            }
            Ok(WalkAction::Look { path })
        } else {
            let path = top.path.as_str().to_owned();
            self.open.push(top);
            self.phase = Phase::Leaving;
            proof {
                assert(self@.open =~= before.open);
            }
            Ok(WalkAction::LookAgain { path })
        }
    }

    /// The directory has been listed.
    pub fn listed(&mut self, facts: &FileFacts, names: &Vec<String>) -> (r: Result<
        WalkAction,
        CloneError,
    >)
        requires
            old(self)@.sound(),
            old(self)@.phase is Listing,
        ensures
            facts.device != old(self)@.device ==> (r matches Err(error) && error.is_unsafe(
                old(self)@.phase->Listing_path,
                "mount/device boundary"@,
            )),
            facts.device == old(self)@.device ==> exists|sorted: Seq<Seq<char>>| #[trigger]
                is_sorted_set(texts(names@), sorted) && {
                    let walk = inside(old(self)@, *facts, sorted);
                    match r {
                        Ok(action) => !next_is_odd(walk) && final(self)@ == gone_on(walk)
                            && action@ == going_on(walk) && final(self)@.sound(),
                        Err(error) => next_is_odd(walk) && error.is_unsafe(
                            next_path(walk),
                            "path is not a normalized relative path"@,
                        ),
                    }
                },
    {
        let ghost before = self@;
        let mut phase = Phase::Finished;
        std::mem::swap(&mut phase, &mut self.phase);
        match phase {
            Phase::Listing { path, outer } => {
                if facts.device != self.device {
                    return Err(unsafe_entry(path.as_str(), "mount/device boundary"));
                }
                let waiting = sort_texts(names);
                let ghost sorted = texts(waiting@);
                let ghost frames = self.open@;
                self.open.push(OpenDirectory { path, before: *facts, outer, waiting });
                let ghost walk = inside(before, *facts, sorted);
                proof {
                    assert(self@.open =~= walk.open);
                    assert(gone_on(WalkView { phase: walk.phase, ..self@ }) == gone_on(walk));
                    assert(gone_on(self@) == gone_on(walk)) by {
                        assert(next_path(self@) == next_path(walk));
                    }
                    if !next_is_odd(walk) {
                        lemma_going_on(walk);
                    }
                }
                self.go_on()
            },
            other => {
                assert(false);
                Err(CloneError::CrossVolume)
            },
        }
    }

    /// The entry has been looked at. `target` is where it points, if it is a symbolic link.
    pub fn looked(&mut self, facts: &FileFacts, target: Option<&str>) -> (r: Result<
        WalkAction,
        CloneError,
    >)
        requires
            old(self)@.sound(),
            old(self)@.phase is Looking,
            facts.kind == FileKind::Symlink ==> target is Some,
        ensures
            r is Ok <==> entry_fault(
                old(self)@,
                *facts,
                match target { Some(text) => Some(text@), None => None },
            ) is None,
            r matches Ok(action) ==> {
                let text = match target { Some(text) => Some(text@), None => None };
                &&& final(self)@ == seen(old(self)@, *facts, text)
                &&& action@ == making(old(self)@, *facts, text)
                &&& final(self)@.sound()
            },
            r matches Err(error) ==> error.is_unsafe(
                old(self)@.phase->Looking_path,
                entry_fault(
                    old(self)@,
                    *facts,
                    match target { Some(text) => Some(text@), None => None },
                )->0,
            ),
    {
        let ghost before = self@;
        let mut phase = Phase::Finished;
        std::mem::swap(&mut phase, &mut self.phase);
        let path = match phase {
            Phase::Looking { path } => path,
            other => {
                assert(false);
                String::new()
            },
        };
        assert(path@ == before.phase->Looking_path);
        if facts.device != self.device {
            return Err(unsafe_entry(path.as_str(), "mount/device boundary"));
        }
        if facts.owner != self.owner {
            return Err(unsafe_entry(path.as_str(), "entry is not owned by the current user"));
        }
        let copy = path.as_str().to_owned();
        match facts.kind {
            FileKind::Directory => {
                self.phase = Phase::Making {
                    path,
                    facts: *facts,
                    kind: EntryKind::Directory,
                    target: None,
                };
                Ok(WalkAction::MakeDirectory { path: copy })
            },
            FileKind::File => {
                self.logical_size = self.logical_size.saturating_add(facts.size);
                let key: u128 = facts.key();
                if facts.links > 1 {
                    if let Some(original) = self.originals.get(&key) {
                        assert(before.originals[facts.identity()] == original@);
                        let original = original.as_str().to_owned();
                        self.phase = Phase::Making {
                            path,
                            facts: *facts,
                            kind: EntryKind::Hardlink,
                            target: None,
                        };
                        return Ok(WalkAction::HardLink { path: copy, original });
                    }
                }
                self.phase = Phase::Making {
                    path,
                    facts: *facts,
                    kind: EntryKind::File,
                    target: None,
                };
                Ok(WalkAction::CloneFile { path: copy })
            },
            FileKind::Symlink => {
                let target: &str = match target {
                    Some(text) => text,
                    None => {
                        assert(false);
                        ""
                    },
                };
                let top = &self.open[self.open.len() - 1];
                assert(before.open.last().path == top.path@);
                match validate_symlink(top.path.as_str(), target) {
                    Ok(()) => {},
                    Err(reason) => {
                        return Err(CloneError::UnsafeEntry { path, reason });
                    },
                }
                self.phase = Phase::Making {
                    path,
                    facts: *facts,
                    kind: EntryKind::Symlink,
                    target: Some(target.to_owned()),
                };
                Ok(WalkAction::MakeSymlink { path: copy, target: target.to_owned() })
            },
            FileKind::Other => Err(
                unsafe_entry(path.as_str(), "devices, sockets, and FIFOs are forbidden"),
            ),
        }
    }

    /// The entry has been made. `contents` is what its source holds, if it is a file.
    pub fn made(&mut self, contents: Option<ContentDigest>) -> (r: WalkAction)
        requires
            old(self)@.sound(),
            old(self)@.phase is Making,
            old(self)@.phase->kind.is_cloned() ==> contents is Some,
        ensures
            final(self)@ == entry_made(old(self)@, digest_option(contents)),
            final(self)@.sound(),
            r@ == match old(self)@.phase->kind {
                EntryKind::Directory => ActionView::List { path: old(self)@.phase->Making_path },
                _ => ActionView::LookAgain { path: old(self)@.phase->Making_path },
            },
    {
        let ghost before = self@;
        proof {
            lemma_entry_made(before, digest_option(contents));
        }
        let hash = match &contents {
            Some(contents) => Some(contents.finish()),
            None => None,
        };
        assert(optional_text(hash) == digest_option(contents));
        let mut phase = Phase::Finished;
        std::mem::swap(&mut phase, &mut self.phase);
        match phase {
            Phase::Making { path, facts, kind, target } => {
                let cloned = match kind {
                    EntryKind::File | EntryKind::Hardlink => true,
                    EntryKind::Directory | EntryKind::Symlink => false,
                };
                let ghost entries = self.entries@;
                self.entries.push(
                    ManifestEntry {
                        relative_path: path.as_str().to_owned(),
                        kind,
                        mode: facts.mode,
                        size: facts.size,
                        source_inode: facts.inode,
                        structural_hash: if cloned {
                            hash
                        } else {
                            None
                        },
                        symlink_target: target,
                        clone_succeeded: cloned,
                    },
                );
                let copy = path.as_str().to_owned();
                if kind == EntryKind::File {
                    let key: u128 = facts.key();
                    self.originals.insert(key, path.as_str().to_owned());
                }
                let action = if kind == EntryKind::Directory {
                    self.phase = Phase::Listing { path, outer: Some(facts) };
                    WalkAction::List { path: copy }
                } else {
                    self.phase = Phase::Checking { path, facts };
                    WalkAction::LookAgain { path: copy }
                };
                proof {
                    let after = entry_made(before, digest_option(contents));
                    assert(self@.entries =~= after.entries);
                    assert(self@.originals =~= after.originals);
                }
                action
            },
            other => {
                assert(false);
                WalkAction::Done
            },
        }
    }

    /// What was asked for has been looked at again.
    pub fn looked_again(&mut self, facts: &FileFacts) -> (r: Result<WalkAction, CloneError>)
        requires
            old(self)@.sound(),
            old(self)@.phase is Checking || old(self)@.phase is Leaving,
        ensures
            old(self)@.phase matches PhaseView::Checking { path, facts: before } ==> {
                &&& r is Ok <==> facts.same_entry(before) && !next_is_odd(old(self)@)
                &&& r matches Ok(action) ==> final(self)@ == gone_on(old(self)@) && action@
                    == going_on(old(self)@)
                &&& r matches Err(error) ==> if facts.same_entry(before) {
                    error.is_unsafe(
                        next_path(old(self)@),
                        "path is not a normalized relative path"@,
                    )
                } else {
                    error.is_changed(path)
                }
            },
            old(self)@.phase is Leaving ==> {
                let top = old(self)@.open.last();
                &&& r is Ok <==> facts.same_directory(top.before)
                &&& r matches Ok(action) ==> final(self)@ == left(old(self)@) && action@
                    == match top.outer {
                    Some(outer) => ActionView::Restore { path: top.path, mode: outer.mode },
                    None => ActionView::Done,
                }
                &&& r matches Err(error) ==> error.is_changed(top.path)
            },
            r is Ok ==> final(self)@.sound(),
    {
        let ghost before = self@;
        let mut phase = Phase::Finished;
        std::mem::swap(&mut phase, &mut self.phase);
        match phase {
            Phase::Checking { path, facts: seen } => {
                if !facts.unchanged(&seen) {
                    return Err(CloneError::SourceChanged(path));
                }
                proof {
                    assert(gone_on(self@) == gone_on(before)) by {
                        assert(next_path(self@) == next_path(before));
                    }
                    if !next_is_odd(before) {
                        lemma_going_on(before);
                    }
                }
                self.go_on()
            },
            _ => {
                let count: usize = self.open.len();
                assert(before.open.last() == self.open@[count - 1]@);
                let top = match self.open.pop() {
                    Some(top) => top,
                    None => {
                        assert(false);
                        return Err(CloneError::CrossVolume);
                    },
                };
                if !facts.directory_unchanged(&top.before) {
                    return Err(CloneError::SourceChanged(top.path));
                }
                proof {
                    assert(self@.open =~= before.open.drop_last());
                    assert(before.open[before.open.len() - 1].outer is None <==> before.open.len()
                        == 1);
                    assert forall|i: int| 0 <= i < self@.open.len() implies ((
                    #[trigger] self@.open[i]).outer is None <==> i == 0) by {
                        assert(self@.open[i] == before.open[i]);
                    }
                }
                match top.outer {
                    Some(outer) => {
                        let copy = top.path.as_str().to_owned();
                        self.phase = Phase::Checking { path: top.path, facts: outer };
                        Ok(WalkAction::Restore { path: copy, mode: outer.mode })
                    },
                    None => {
                        self.phase = Phase::Finished;
                        Ok(WalkAction::Done)
                    },
                }
            },
        }
    }

    /// The manifest of the tree, once it is cloned, if its root still looks as it did.
    pub fn finish(self, source: &str, before: &FileFacts, after: &FileFacts) -> (r: Result<
        CloneManifest,
        CloneError,
    >)
        requires
            self@.sound(),
            self@.phase is Finished,
        ensures
            r is Ok <==> before.device == after.device && after.same_directory(*before),
            r matches Ok(manifest) ==> {
                &&& manifest.version == 1
                &&& manifest.source_device == before.device
                &&& manifest.logical_size == self@.logical_size
                &&& entry_views(manifest.entries@) == self@.entries
                &&& manifest_sound(entry_views(manifest.entries@))
            },
            r matches Err(error) ==> error.is_changed(source@),
    {
        if before.device != after.device || !after.directory_unchanged(before) {
            return Err(CloneError::SourceChanged(source.to_owned()));
        }
        Ok(
            CloneManifest {
                version: 1,
                source_device: before.device,
                logical_size: self.logical_size,
                entries: self.entries,
            },
        )
    }
}

} // verus!
