//! A chain of commits that puts the sources of a queue onto a base, one after the other.

use crate::git_error::GitError;
use crate::git_parse::{nul_delimited_strings, parse_oid, parse_single_parent};
#[allow(unused_imports)]
use crate::git_parse::{
    no_single_parent, nul_fields, oid_in, single_parent_in, unreadable_oid,
};
use crate::oid::GitOid;
#[allow(unused_imports)]
use crate::oid::{oid_views, GitOidView};
use crate::outside::lossy_text;
#[allow(unused_imports)]
use crate::outside::lossy_text_of;
use crate::raw_commit::RawCommit;
#[allow(unused_imports)]
use crate::raw_commit::{commit_error, commit_of, rewritten, CommitView};
use crate::scan::trim_str;
#[allow(unused_imports)]
use crate::scan::trimmed;
use crate::text::{bytes_equal, sort_texts};
#[allow(unused_imports)]
use crate::text::{is_sorted_set, texts};
use vstd::prelude::*;
#[allow(unused_imports)]
use vstd::utf8::{encode_utf8, valid_utf8};

verus! {

/// A source commit as it stands in the chain.
#[derive(Clone, Debug, PartialEq, Eq)]
pub struct SyntheticCommit {
    pub source_oid: GitOid,
    pub oid: GitOid,
    pub parent_oid: GitOid,
    pub tree_oid: GitOid,
}

/// What a `SyntheticCommit` denotes.
#[verifier::ext_equal]
pub struct SyntheticView {
    pub source: GitOidView,
    pub oid: GitOidView,
    pub parent: GitOidView,
    pub tree: GitOidView,
}

impl View for SyntheticCommit {
    type V = SyntheticView;

    open spec fn view(&self) -> SyntheticView {
        SyntheticView {
            source: self.source_oid@,
            oid: self.oid@,
            parent: self.parent_oid@,
            tree: self.tree_oid@,
        }
    }
}

/// What the commits denote.
pub open spec fn synthetic_views(commits: Seq<SyntheticCommit>) -> Seq<SyntheticView> {
    commits.map_values(|commit: SyntheticCommit| commit@)
}

/// How far the work on the next source is.
#[allow(inconsistent_fields)]
pub enum PrefixPhase {
    /// The parent of the source is to be read.
    Parent,
    /// The source is to be picked.
    Picking { parent: GitOidView },
    /// Picking failed; the paths in conflict are to be listed.
    Conflicts { parent: GitOidView, stderr: Seq<char> },
    /// Picking failed without a conflict; the tree is to be written.
    Attempt { parent: GitOidView, stderr: Seq<char> },
    /// Picking failed; the tree of the chain's tip is to be read.
    Failed {
        parent: GitOidView,
        stderr: Seq<char>,
        conflicts: Seq<Seq<char>>,
        attempt: Option<GitOidView>,
    },
    /// The source is picked; the tree is to be written.
    Tree { parent: GitOidView },
    /// The tree is written; the tree of the chain's tip is to be read.
    TipTree { parent: GitOidView, tree: GitOidView },
    /// The source commit is to be read.
    Source { tree: GitOidView },
    /// The new commit is to be written.
    Writing { tree: GitOidView },
    /// The new commit is to be checked out.
    Moving { tree: GitOidView, oid: GitOidView },
    /// There is nothing left to do.
    Finished,
}

#[allow(inconsistent_fields)]
enum Phase {
    Parent,
    Picking { parent: GitOid },
    Conflicts { parent: GitOid, stderr: String },
    Attempt { parent: GitOid, stderr: String },
    Failed {
        parent: GitOid,
        stderr: String,
        conflicts: Vec<String>,
        attempt: Option<GitOid>,
    },
    Tree { parent: GitOid },
    TipTree { parent: GitOid, tree: GitOid },
    Source { tree: GitOid },
    Writing { tree: GitOid },
    Moving { tree: GitOid, oid: GitOid },
    Finished,
}

spec fn phase_view(phase: Phase) -> PrefixPhase {
    match phase {
        Phase::Parent => PrefixPhase::Parent,
        Phase::Picking { parent } => PrefixPhase::Picking { parent: parent@ },
        Phase::Conflicts { parent, stderr } => PrefixPhase::Conflicts {
            parent: parent@,
            stderr: stderr@,
        },
        Phase::Attempt { parent, stderr } => PrefixPhase::Attempt {
            parent: parent@,
            stderr: stderr@,
        },
        Phase::Failed { parent, stderr, conflicts, attempt } => PrefixPhase::Failed {
            parent: parent@,
            stderr: stderr@,
            conflicts: texts(conflicts@),
            attempt: match attempt {
                Some(oid) => Some(oid@),
                None => None,
            },
        },
        Phase::Tree { parent } => PrefixPhase::Tree { parent: parent@ },
        Phase::TipTree { parent, tree } => PrefixPhase::TipTree { parent: parent@, tree: tree@ },
        Phase::Source { tree } => PrefixPhase::Source { tree: tree@ },
        Phase::Writing { tree } => PrefixPhase::Writing { tree: tree@ },
        Phase::Moving { tree, oid } => PrefixPhase::Moving { tree: tree@, oid: oid@ },
        Phase::Finished => PrefixPhase::Finished,
    }
}

/// The work on a chain.
pub struct PrefixRun {
    base: GitOid,
    sources: Vec<GitOid>,
    commits: Vec<SyntheticCommit>,
    tip: GitOid,
    phase: Phase,
}

/// What the work on a chain has come to.
#[verifier::ext_equal]
pub struct PrefixView {
    pub base: GitOidView,
    pub sources: Seq<GitOidView>,
    pub commits: Seq<SyntheticView>,
    pub phase: PrefixPhase,
}

/// A commit stands for its source and has the one before it as its parent, the first
/// one the base.
pub open spec fn linked(
    base: GitOidView,
    sources: Seq<GitOidView>,
    commits: Seq<SyntheticView>,
    i: int,
) -> bool {
    &&& commits[i].source == sources[i]
    &&& commits[i].parent == if i == 0 {
        base
    } else {
        commits[i - 1].oid
    }
}

impl PrefixView {
    /// The last commit of the chain, or the base.
    pub open spec fn tip(self) -> GitOidView {
        if self.commits.len() == 0 {
            self.base
        } else {
            self.commits.last().oid
        }
    }

    /// The source that is worked on.
    pub open spec fn source(self) -> GitOidView {
        self.sources[self.commits.len() as int]
    }

    /// The same work in another phase.
    pub open spec fn moved(self, phase: PrefixPhase) -> PrefixView {
        PrefixView { phase, ..self }
    }

    /// Every commit of the chain is linked to the one before it.
    pub open spec fn chained(self) -> bool {
        &&& self.commits.len() <= self.sources.len()
        &&& forall|i: int| 0 <= i < self.commits.len() ==> #[trigger] linked(
            self.base,
            self.sources,
            self.commits,
            i,
        )
    }

    /// The chain holds together, and there is a source left unless the work is finished.
    pub open spec fn sound(self) -> bool {
        &&& self.chained()
        &&& self.phase is Finished <==> self.commits.len() == self.sources.len()
    }
}

impl View for PrefixRun {
    type V = PrefixView;

    closed spec fn view(&self) -> PrefixView {
        PrefixView {
            base: self.base@,
            sources: oid_views(self.sources@),
            commits: synthetic_views(self.commits@),
            phase: phase_view(self.phase),
        }
    }
}

/// What is to be done next for a chain.
#[derive(Clone, Debug, PartialEq, Eq)]
#[allow(inconsistent_fields)]
pub enum PrefixAction {
    /// Read the parents of the commit.
    ReadParents(GitOid),
    /// Pick the commit without committing.
    CherryPick(GitOid),
    /// List the paths in conflict.
    ListConflicts,
    /// Write the tree of the index.
    WriteTree,
    /// Read the tree of the commit.
    ReadTree(GitOid),
    /// Read the bytes of the commit.
    ReadCommit(GitOid),
    /// Write a commit that has these bytes.
    WriteCommit(Vec<u8>),
    /// Check the commit out.
    Reset(GitOid),
    /// There is nothing left to do.
    Done,
}

/// What is asked for next.
#[allow(inconsistent_fields)]
pub enum PrefixAsk {
    ReadParents(GitOidView),
    CherryPick(GitOidView),
    ListConflicts,
    WriteTree,
    ReadTree(GitOidView),
    ReadCommit(GitOidView),
    WriteCommit(Seq<u8>),
    Reset(GitOidView),
    Done,
}

impl View for PrefixAction {
    type V = PrefixAsk;

    open spec fn view(&self) -> PrefixAsk {
        match self {
            PrefixAction::ReadParents(oid) => PrefixAsk::ReadParents(oid@),
            PrefixAction::CherryPick(oid) => PrefixAsk::CherryPick(oid@),
            PrefixAction::ListConflicts => PrefixAsk::ListConflicts,
            PrefixAction::WriteTree => PrefixAsk::WriteTree,
            PrefixAction::ReadTree(oid) => PrefixAsk::ReadTree(oid@),
            PrefixAction::ReadCommit(oid) => PrefixAsk::ReadCommit(oid@),
            PrefixAction::WriteCommit(bytes) => PrefixAsk::WriteCommit(bytes@),
            PrefixAction::Reset(oid) => PrefixAsk::Reset(oid@),
            PrefixAction::Done => PrefixAsk::Done,
        }
    }
}

/// A chain that cannot be made: the builder is to be set back before the error is
/// reported.
#[derive(Clone, Debug, PartialEq, Eq)]
pub struct PrefixFailure {
    pub reset_to: GitOid,
    pub error: GitError,
}

/// The error says that the source changes nothing.
pub open spec fn reports_empty(
    error: GitError,
    source: GitOidView,
    parent: GitOidView,
    tip: GitOidView,
) -> bool {
    error matches GitError::SyntheticEmpty { source_oid, source_parent_oid, prefix_oid }
        && source_oid@ == source && source_parent_oid@ == parent && prefix_oid@ == tip
}

/// The error says which paths are in conflict.
pub open spec fn reports_conflict(
    error: GitError,
    source: GitOidView,
    parent: GitOidView,
    tip: GitOidView,
    paths: Seq<Seq<char>>,
) -> bool {
    error matches GitError::SyntheticConflict {
        source_oid,
        source_parent_oid,
        prefix_oid,
        conflicting_paths,
    } && source_oid@ == source && source_parent_oid@ == parent && prefix_oid@ == tip && texts(
        conflicting_paths@,
    ) == paths
}

/// The error says that picking the source failed otherwise.
pub open spec fn reports_pick(error: GitError, source: GitOidView, stderr: Seq<char>) -> bool {
    error matches GitError::Command { command, stderr: said } && command@
        == "git cherry-pick --no-commit --strategy=ort "@ + source.hex() && said@ == stderr
}

/// The source commit is already the one that the chain needs.
pub open spec fn fits_as_it_is(
    commit: CommitView,
    tree: GitOidView,
    tip: GitOidView,
) -> bool {
    commit.tree == encode_utf8(tree.hex()) && commit.parent == encode_utf8(tip.hex())
}

/// What a phase asks for at the start of the work on a source.
pub open spec fn asks_for_source(run: PrefixView) -> PrefixAsk {
    if run.commits.len() < run.sources.len() {
        PrefixAsk::ReadParents(run.source())
    } else {
        PrefixAsk::Done
    }
}

/// The phase at the start of the work on a source.
pub open spec fn opening(run: PrefixView) -> PrefixPhase {
    if run.commits.len() < run.sources.len() {
        PrefixPhase::Parent
    } else {
        PrefixPhase::Finished
    }
}

impl PrefixRun {
    spec fn inv(self) -> bool {
        &&& self@.sound()
        &&& self.tip@ == self@.tip()
    }

    /// The work can go on.
    pub closed spec fn wf(self) -> bool {
        self.inv()
    }

    /// The work that can go on is sound: what was built is a chain on the base.
    pub proof fn law_work_under_way_is_sound(self)
        requires
            self.wf(),
        ensures
            self@.sound(),
    {
    }

    /// Starts a chain of the sources on the base. The builder stands at the base.
    pub fn start(base: GitOid, sources: Vec<GitOid>) -> (r: (PrefixRun, PrefixAction))
        ensures
            r.0.wf(),
            r.0@.base == base@,
            r.0@.sources == oid_views(sources@),
            r.0@.commits.len() == 0,
            r.0@.phase == opening(r.0@),
            r.1@ == asks_for_source(r.0@),
    {
        let tip = base.duplicate();
        let mut run = PrefixRun {
            base,
            sources,
            commits: Vec::new(),
            tip,
            phase: Phase::Finished,
        };
        assert(run@.commits =~= Seq::empty());
        let action = run.open_source();
        (run, action)
    }

    fn open_source(&mut self) -> (r: PrefixAction)
        requires
            old(self)@.chained(),
            old(self).tip@ == old(self)@.tip(),
        ensures
            final(self).wf(),
            final(self)@ == old(self)@.moved(opening(old(self)@)),
            r@ == asks_for_source(old(self)@),
    {
        assert(self@.commits.len() == self.commits@.len());
        assert(self@.sources.len() == self.sources@.len());
        if self.commits.len() < self.sources.len() {
            let at: usize = self.commits.len();
            assert(self@.sources[at as int] == self.sources@[at as int]@);
            self.phase = Phase::Parent;
            PrefixAction::ReadParents(self.sources[at].duplicate())
        } else {
            self.phase = Phase::Finished;
            PrefixAction::Done
        }
    }

    fn current(&self) -> (r: GitOid)
        requires
            self.wf(),
            !(self@.phase is Finished),
        ensures
            r@ == self@.source(),
    {
        assert(self@.commits.len() == self.commits@.len());
        assert(self@.sources.len() == self.sources@.len());
        let at: usize = self.commits.len();
        assert(self@.sources[at as int] == self.sources@[at as int]@);
        self.sources[at].duplicate()
    }

    fn take_phase(&mut self) -> (r: Phase)
        requires
            old(self).wf(),
        ensures
            phase_view(r) == old(self)@.phase,
            final(self)@ == old(self)@.moved(PrefixPhase::Finished),
            final(self).tip@ == old(self).tip@,
    {
        let mut phase = Phase::Finished;
        std::mem::swap(&mut phase, &mut self.phase);
        phase
    }

    /// The parents of the source have been read.
    pub fn parents(&mut self, output: &[u8]) -> (r: Result<PrefixAction, GitError>)
        requires
            old(self).wf(),
            old(self)@.phase is Parent,
        ensures
            r is Ok <==> single_parent_in(output@) is Some,
            r matches Ok(action) ==> final(self).wf() && final(self)@ == old(self)@.moved(
                PrefixPhase::Picking { parent: single_parent_in(output@)->0 },
            ) && action@ == PrefixAsk::CherryPick(old(self)@.source()),
            r matches Err(error) ==> no_single_parent(error, output@),
    {
        match parse_single_parent(output) {
            Ok(parent) => {
                let source = self.current();
                self.phase = Phase::Picking { parent };
                Ok(PrefixAction::CherryPick(source))
            },
            Err(error) => Err(error),
        }
    }

    /// Picking the source has come to an end.
    pub fn picked(&mut self, success: bool, stderr: &[u8]) -> (r: PrefixAction)
        requires
            old(self).wf(),
            old(self)@.phase is Picking,
        ensures
            final(self).wf(),
            success ==> final(self)@ == old(self)@.moved(
                PrefixPhase::Tree { parent: old(self)@.phase->Picking_parent },
            ) && r@ == PrefixAsk::WriteTree,
            !success ==> final(self)@ == old(self)@.moved(
                PrefixPhase::Conflicts {
                    parent: old(self)@.phase->Picking_parent,
                    stderr: trimmed(lossy_text_of(stderr@)),
                },
            ) && r@ == PrefixAsk::ListConflicts,
    {
        let phase = self.take_phase();
        let parent = match phase {
            Phase::Picking { parent } => parent,
            _ => {
                assert(false);
                self.base.duplicate()
            },
        };
        if success {
            self.phase = Phase::Tree { parent };
            PrefixAction::WriteTree
        } else {
            let stderr = trim_str(lossy_text(stderr).as_str());
            self.phase = Phase::Conflicts { parent, stderr };
            PrefixAction::ListConflicts
        }
    }

    /// The paths in conflict have been listed.
    pub fn conflicts(&mut self, output: &[u8]) -> (r: PrefixAction)
        requires
            old(self).wf(),
            old(self)@.phase is Conflicts,
        ensures
            final(self).wf(),
            nul_fields(output@).len() == 0 ==> final(self)@ == old(self)@.moved(
                PrefixPhase::Attempt {
                    parent: old(self)@.phase->Conflicts_parent,
                    stderr: old(self)@.phase->Conflicts_stderr,
                },
            ) && r@ == PrefixAsk::WriteTree,
            nul_fields(output@).len() > 0 ==> exists|paths: Seq<Seq<char>>|
                is_sorted_set(
                    nul_fields(output@).map_values(|field: Seq<u8>| lossy_text_of(field)),
                    paths,
                ) && final(self)@ == #[trigger] old(self)@.moved(
                    PrefixPhase::Failed {
                        parent: old(self)@.phase->Conflicts_parent,
                        stderr: old(self)@.phase->Conflicts_stderr,
                        conflicts: paths,
                        attempt: None,
                    },
                ) && r@ == PrefixAsk::ReadTree(old(self)@.tip()),
    {
        let ghost before = self@;
        let phase = self.take_phase();
        let (parent, stderr) = match phase {
            Phase::Conflicts { parent, stderr } => (parent, stderr),
            _ => {
                assert(false);
                (self.base.duplicate(), String::new())
            },
        };
        let listed = nul_delimited_strings(output);
        assert(texts(listed@).len() == listed@.len());
        if listed.len() == 0 {
            self.phase = Phase::Attempt { parent, stderr };
            return PrefixAction::WriteTree;
        }
        let conflicts = sort_texts(&listed);
        let ghost paths = texts(conflicts@);
        self.phase = Phase::Failed { parent, stderr, conflicts, attempt: None };
        assert(self@ =~= before.moved(
            PrefixPhase::Failed {
                parent: before.phase->Conflicts_parent,
                stderr: before.phase->Conflicts_stderr,
                conflicts: paths,
                attempt: None,
            },
        ));
        PrefixAction::ReadTree(self.tip.duplicate())
    }

    /// The tree has been written after picking failed without a conflict.
    pub fn attempted(&mut self, output: &[u8]) -> (r: Result<PrefixAction, GitError>)
        requires
            old(self).wf(),
            old(self)@.phase is Attempt,
        ensures
            r is Ok <==> oid_in(output@) is Some,
            r matches Ok(action) ==> final(self).wf() && final(self)@ == old(self)@.moved(
                PrefixPhase::Failed {
                    parent: old(self)@.phase->Attempt_parent,
                    stderr: old(self)@.phase->Attempt_stderr,
                    conflicts: Seq::empty(),
                    attempt: Some(oid_in(output@)->0),
                },
            ) && action@ == PrefixAsk::ReadTree(old(self)@.tip()),
            r matches Err(error) ==> unreadable_oid(error, output@),
    {
        let tree = match parse_oid(output) {
            Ok(tree) => tree,
            Err(error) => {
                return Err(error);
            },
        };
        let phase = self.take_phase();
        let (parent, stderr) = match phase {
            Phase::Attempt { parent, stderr } => (parent, stderr),
            _ => {
                assert(false);
                (self.base.duplicate(), String::new())
            },
        };
        let none: Vec<String> = Vec::new();
        assert(texts(none@) =~= Seq::empty());
        self.phase = Phase::Failed { parent, stderr, conflicts: none, attempt: Some(tree) };
        Ok(PrefixAction::ReadTree(self.tip.duplicate()))
    }

    /// The tree of the chain's tip has been read after picking failed.
    pub fn failed(&mut self, output: &[u8]) -> (r: Result<PrefixFailure, GitError>)
        requires
            old(self).wf(),
            old(self)@.phase is Failed,
        ensures
            r is Ok <==> oid_in(output@) is Some,
            r matches Err(error) ==> unreadable_oid(error, output@),
            r matches Ok(failure) ==> {
                let run = old(self)@;
                let parent = run.phase->Failed_parent;
                let paths = run.phase->Failed_conflicts;
                &&& failure.reset_to@ == run.tip()
                &&& if paths.len() > 0 {
                    reports_conflict(failure.error, run.source(), parent, run.tip(), paths)
                } else if run.phase->Failed_attempt == oid_in(output@) {
                    reports_empty(failure.error, run.source(), parent, run.tip())
                } else {
                    reports_pick(failure.error, run.source(), run.phase->Failed_stderr)
                }
            },
    {
        let tip_tree = match parse_oid(output) {
            Ok(tree) => tree,
            Err(error) => {
                return Err(error);
            },
        };
        let source_oid = self.current();
        let prefix_oid = self.tip.duplicate();
        let reset_to = self.tip.duplicate();
        let phase = self.take_phase();
        let (source_parent_oid, stderr, conflicting_paths, attempt) = match phase {
            Phase::Failed { parent, stderr, conflicts, attempt } => (
                parent,
                stderr,
                conflicts,
                attempt,
            ),
            _ => {
                assert(false);
                (self.base.duplicate(), String::new(), Vec::new(), None)
            },
        };
        assert(texts(conflicting_paths@).len() == conflicting_paths@.len());
        if conflicting_paths.len() > 0 {
            return Ok(
                PrefixFailure {
                    reset_to,
                    error: GitError::SyntheticConflict {
                        source_oid,
                        source_parent_oid,
                        prefix_oid,
                        conflicting_paths,
                    },
                },
            );
        }
        let empty = match &attempt {
            Some(tree) => tree.same(&tip_tree),
            None => false,
        };
        if empty {
            return Ok(
                PrefixFailure {
                    reset_to,
                    error: GitError::SyntheticEmpty { source_oid, source_parent_oid, prefix_oid },
                },
            );
        }
        let command = "git cherry-pick --no-commit --strategy=ort ".to_owned().concat(
            source_oid.to_hex().as_str(),
        );
        Ok(PrefixFailure { reset_to, error: GitError::Command { command, stderr } })
    }

    /// The tree of the picked source has been written.
    pub fn tree(&mut self, output: &[u8]) -> (r: Result<PrefixAction, GitError>)
        requires
            old(self).wf(),
            old(self)@.phase is Tree,
        ensures
            r is Ok <==> oid_in(output@) is Some,
            r matches Ok(action) ==> final(self).wf() && final(self)@ == old(self)@.moved(
                PrefixPhase::TipTree {
                    parent: old(self)@.phase->Tree_parent,
                    tree: oid_in(output@)->0,
                },
            ) && action@ == PrefixAsk::ReadTree(old(self)@.tip()),
            r matches Err(error) ==> unreadable_oid(error, output@),
    {
        let tree = match parse_oid(output) {
            Ok(tree) => tree,
            Err(error) => {
                return Err(error);
            },
        };
        let phase = self.take_phase();
        let parent = match phase {
            Phase::Tree { parent } => parent,
            _ => {
                assert(false);
                self.base.duplicate()
            },
        };
        self.phase = Phase::TipTree { parent, tree };
        Ok(PrefixAction::ReadTree(self.tip.duplicate()))
    }

    /// The tree of the chain's tip has been read. A source that changes nothing is
    /// refused.
    pub fn tip_tree(&mut self, output: &[u8]) -> (r: Result<PrefixAction, GitError>)
        requires
            old(self).wf(),
            old(self)@.phase is TipTree,
        ensures
            r is Ok <==> oid_in(output@) is Some && oid_in(output@)->0
                != old(self)@.phase->TipTree_tree,
            r matches Ok(action) ==> final(self).wf() && final(self)@ == old(self)@.moved(
                PrefixPhase::Source { tree: old(self)@.phase->TipTree_tree },
            ) && action@ == PrefixAsk::ReadCommit(old(self)@.source()),
            r matches Err(error) ==> if oid_in(output@) is Some {
                reports_empty(
                    error,
                    old(self)@.source(),
                    old(self)@.phase->TipTree_parent,
                    old(self)@.tip(),
                )
            } else {
                unreadable_oid(error, output@)
            },
    {
        let tip_tree = match parse_oid(output) {
            Ok(tree) => tree,
            Err(error) => {
                return Err(error);
            },
        };
        let source_oid = self.current();
        let phase = self.take_phase();
        let (source_parent_oid, tree) = match phase {
            Phase::TipTree { parent, tree } => (parent, tree),
            _ => {
                assert(false);
                (self.base.duplicate(), self.base.duplicate())
            },
        };
        if tree.same(&tip_tree) {
            let prefix_oid = self.tip.duplicate();
            return Err(GitError::SyntheticEmpty { source_oid, source_parent_oid, prefix_oid });
        }
        self.phase = Phase::Source { tree };
        Ok(PrefixAction::ReadCommit(source_oid))
    }

    /// The source commit has been read. It is used as it is where it fits, else it is
    /// written anew.
    pub fn source_commit(&mut self, raw: &[u8]) -> (r: Result<PrefixAction, GitError>)
        requires
            old(self).wf(),
            old(self)@.phase is Source,
        ensures
            match commit_of(raw@) {
                Ok(commit) => {
                    let tree = old(self)@.phase->Source_tree;
                    let tip = old(self)@.tip();
                    &&& r matches Ok(action)
                    &&& final(self).wf()
                    &&& if fits_as_it_is(commit, tree, tip) {
                        &&& final(self)@ == old(self)@.moved(
                            PrefixPhase::Moving { tree, oid: old(self)@.source() },
                        )
                        &&& action@ == PrefixAsk::Reset(old(self)@.source())
                    } else {
                        &&& final(self)@ == old(self)@.moved(PrefixPhase::Writing { tree })
                        &&& action@ == PrefixAsk::WriteCommit(
                            rewritten(commit, tree.hex(), tip.hex()),
                        )
                    }
                },
                Err(fault) => r matches Err(error) && commit_error(error, fault),
            },
    {
        let commit = match RawCommit::parse(raw) {
            Ok(commit) => commit,
            Err(error) => {
                return Err(error);
            },
        };
        let source = self.current();
        let phase = self.take_phase();
        let tree = match phase {
            Phase::Source { tree } => tree,
            _ => {
                assert(false);
                self.base.duplicate()
            },
        };
        let tree_hex = tree.to_hex();
        let tip_hex = self.tip.to_hex();
        let tree_fits = bytes_equal(commit.tree.as_slice(), tree_hex.as_str().as_bytes());
        let parent_fits = bytes_equal(commit.parent.as_slice(), tip_hex.as_str().as_bytes());
        if tree_fits && parent_fits {
            let oid = source.duplicate();
            self.phase = Phase::Moving { tree, oid };
            Ok(PrefixAction::Reset(source))
        } else {
            let bytes = commit.rewrite(tree_hex.as_str(), tip_hex.as_str());
            self.phase = Phase::Writing { tree };
            Ok(PrefixAction::WriteCommit(bytes))
        }
    }

    /// The new commit has been written.
    pub fn written(&mut self, output: &[u8]) -> (r: Result<PrefixAction, GitError>)
        requires
            old(self).wf(),
            old(self)@.phase is Writing,
        ensures
            r is Ok <==> oid_in(output@) is Some,
            r matches Ok(action) ==> final(self).wf() && final(self)@ == old(self)@.moved(
                PrefixPhase::Moving {
                    tree: old(self)@.phase->Writing_tree,
                    oid: oid_in(output@)->0,
                },
            ) && action@ == PrefixAsk::Reset(oid_in(output@)->0),
            r matches Err(error) ==> unreadable_oid(error, output@),
    {
        let oid = match parse_oid(output) {
            Ok(oid) => oid,
            Err(error) => {
                return Err(error);
            },
        };
        let phase = self.take_phase();
        let tree = match phase {
            Phase::Writing { tree } => tree,
            _ => {
                assert(false);
                self.base.duplicate()
            },
        };
        let to = oid.duplicate();
        self.phase = Phase::Moving { tree, oid };
        Ok(PrefixAction::Reset(to))
    }

    /// The builder stands at the new commit, which joins the chain.
    pub fn moved(&mut self) -> (r: PrefixAction)
        requires
            old(self).wf(),
            old(self)@.phase is Moving,
        ensures
            final(self).wf(),
            final(self)@.base == old(self)@.base,
            final(self)@.sources == old(self)@.sources,
            final(self)@.commits == old(self)@.commits.push(
                SyntheticView {
                    source: old(self)@.source(),
                    oid: old(self)@.phase->Moving_oid,
                    parent: old(self)@.tip(),
                    tree: old(self)@.phase->Moving_tree,
                },
            ),
            final(self)@.phase == opening(final(self)@),
            r@ == asks_for_source(final(self)@),
    {
        let ghost before = self@;
        let ghost had = self.commits@;
        let source_oid = self.current();
        let parent_oid = self.tip.duplicate();
        let phase = self.take_phase();
        let (tree_oid, oid) = match phase {
            Phase::Moving { tree, oid } => (tree, oid),
            _ => {
                assert(false);
                (self.base.duplicate(), self.base.duplicate())
            },
        };
        let tip = oid.duplicate();
        let commit = SyntheticCommit { source_oid, oid, parent_oid, tree_oid };
        let ghost added = commit@;
        self.commits.push(commit);
        self.tip = tip;
        proof {
            assert(self@.commits =~= before.commits.push(added));
            assert(self@.sources == before.sources);
            assert forall|i: int| 0 <= i < self@.commits.len() implies #[trigger] linked(
                self@.base,
                self@.sources,
                self@.commits,
                i,
            ) by {
                if i < before.commits.len() {
                    assert(linked(before.base, before.sources, before.commits, i));
                }
            }
        }
        self.open_source()
    }

    /// The finished chain.
    pub fn finish(self) -> (r: Vec<SyntheticCommit>)
        requires
            self.wf(),
            self@.phase is Finished,
        ensures
            synthetic_views(r@) == self@.commits,
            r@.len() == self@.sources.len(),
    {
        assert(self@.commits.len() == self.commits@.len());
        self.commits
    }
}

/// In a sound chain the commits stand for the sources in order, and each has the one
/// before it as its parent, the first one the base.
pub proof fn law_commits_form_a_chain(run: PrefixView, i: int)
    requires
        run.sound(),
        0 <= i < run.commits.len(),
    ensures
        run.commits[i].source == run.sources[i],
        i == 0 ==> run.commits[i].parent == run.base,
        i > 0 ==> run.commits[i].parent == run.commits[i - 1].oid,
{
    assert(linked(run.base, run.sources, run.commits, i));
}

} // verus!
