//! What goes wrong with Git.

use crate::error::DomainError;
use crate::oid::GitOid;
use crate::outside::debug_texts;
#[allow(unused_imports)]
use crate::outside::debug_text_of;
use crate::text::concat3;
#[allow(unused_imports)]
use crate::text::texts;
use vstd::prelude::*;

verus! {

/// Why something asked of Git was not done.
#[derive(Clone, Debug, PartialEq, Eq)]
#[allow(inconsistent_fields)]
pub enum GitError {
    Command { command: String, stderr: String },
    InvalidOutput(String),
    DirtyWorktree(String),
    IntegrationCheckedOut(String),
    UnsupportedObjectFormat(String),
    InvalidSourceShape,
    Unmergeable,
    SyntheticConflict {
        source_oid: GitOid,
        source_parent_oid: GitOid,
        prefix_oid: GitOid,
        conflicting_paths: Vec<String>,
    },
    SyntheticEmpty { source_oid: GitOid, source_parent_oid: GitOid, prefix_oid: GitOid },
    MalformedCommit(String),
    Io(String),
    Oid(DomainError),
}

impl GitError {
    /// The message shown for the error.
    pub open spec fn text(self) -> Seq<char> {
        match self {
            GitError::Command { command, stderr } => "Git command failed ("@ + command@ + "): "@
                + stderr@,
            GitError::InvalidOutput(reason) => "Git command produced invalid output: "@ + reason@,
            GitError::DirtyWorktree(reason) => "repository is dirty: "@ + reason@,
            GitError::IntegrationCheckedOut(path) =>
                "Tollgate integration branch `release` is checked out in "@ + path@,
            GitError::UnsupportedObjectFormat(format) => "unsupported Git object format `"@
                + format@ + "`"@,
            GitError::InvalidSourceShape => "source commit must have exactly one parent"@,
            GitError::Unmergeable => "Git could not rebase the requested commit"@,
            GitError::SyntheticConflict {
                source_oid,
                source_parent_oid,
                prefix_oid,
                conflicting_paths,
            } => "cannot synthesize source "@ + source_oid@.hex() + ": merge conflicts in "@
                + debug_text_of(texts(conflicting_paths@)) + " (source base "@
                + source_parent_oid@.hex() + "; current queue prefix "@ + prefix_oid@.hex()
                + "); rebase onto the latest release (or the displayed queue prefix when an earlier candidate is involved), resolve the listed paths, regenerate derived files, and resubmit"@,
            GitError::SyntheticEmpty { source_oid, source_parent_oid, prefix_oid } =>
                "cannot synthesize source "@ + source_oid@.hex()
                + ": the patch is empty (source base "@ + source_parent_oid@.hex()
                + "; current queue prefix "@ + prefix_oid@.hex()
                + "); its changes are already present, so there is nothing new to validate"@,
            GitError::MalformedCommit(reason) => "malformed raw commit: "@ + reason@,
            GitError::Io(reason) => "I/O error: "@ + reason@,
            GitError::Oid(error) => "object id error: "@ + error.text(),
        }
    }

    /// The message shown for the error.
    pub fn message(&self) -> (r: String)
        ensures
            r@ == self.text(),
    {
        match self {
            GitError::Command { command, stderr } => concat3(
                "Git command failed (",
                command.as_str(),
                "): ",
            ).concat(stderr.as_str()),
            GitError::InvalidOutput(reason) =>
                "Git command produced invalid output: ".to_owned().concat(reason.as_str()),
            GitError::DirtyWorktree(reason) =>
                "repository is dirty: ".to_owned().concat(reason.as_str()),
            GitError::IntegrationCheckedOut(path) =>
                "Tollgate integration branch `release` is checked out in ".to_owned().concat(
                path.as_str(),
            ),
            GitError::UnsupportedObjectFormat(format) => concat3(
                "unsupported Git object format `",
                format.as_str(),
                "`",
            ),
            GitError::InvalidSourceShape => "source commit must have exactly one parent".to_owned(),
            GitError::Unmergeable => "Git could not rebase the requested commit".to_owned(),
            GitError::SyntheticConflict {
                source_oid,
                source_parent_oid,
                prefix_oid,
                conflicting_paths,
            } => {
                let mut out = "cannot synthesize source ".to_owned();
                out.append(source_oid.to_hex().as_str());
                out.append(": merge conflicts in ");
                out.append(debug_texts(conflicting_paths).as_str());
                out.append(" (source base ");
                out.append(source_parent_oid.to_hex().as_str());
                out.append("; current queue prefix ");
                out.append(prefix_oid.to_hex().as_str());
                out.append(
                    "); rebase onto the latest release (or the displayed queue prefix when an earlier candidate is involved), resolve the listed paths, regenerate derived files, and resubmit",
                );
                out
            },
            GitError::SyntheticEmpty { source_oid, source_parent_oid, prefix_oid } => {
                let mut out = "cannot synthesize source ".to_owned();
                out.append(source_oid.to_hex().as_str());
                out.append(": the patch is empty (source base ");
                out.append(source_parent_oid.to_hex().as_str());
                out.append("; current queue prefix ");
                out.append(prefix_oid.to_hex().as_str());
                out.append(
                    "); its changes are already present, so there is nothing new to validate",
                );
                out
            },
            GitError::MalformedCommit(reason) =>
                "malformed raw commit: ".to_owned().concat(reason.as_str()),
            GitError::Io(reason) => "I/O error: ".to_owned().concat(reason.as_str()),
            GitError::Oid(error) => "object id error: ".to_owned().concat(
                error.message().as_str(),
            ),
        }
    }

    /// The error says that a source commit does not fit onto its prefix.
    pub fn is_synthetic_rejection(&self) -> (r: bool)
        ensures
            r == (*self is SyntheticConflict || *self is SyntheticEmpty),
    {
        match self {
            GitError::SyntheticConflict {
                source_oid: _,
                source_parent_oid: _,
                prefix_oid: _,
                conflicting_paths: _,
            } => true,
            GitError::SyntheticEmpty {
                source_oid: _,
                source_parent_oid: _,
                prefix_oid: _,
            } => true,
            _ => false,
        }
    }

    /// The error says that Git's output makes no sense, for this reason.
    pub open spec fn bad_output(self, reason: Seq<char>) -> bool {
        self matches GitError::InvalidOutput(text) && text@ == reason
    }

    /// The error says that a commit is malformed, for this reason.
    pub open spec fn malformed(self, reason: Seq<char>) -> bool {
        self matches GitError::MalformedCommit(text) && text@ == reason
    }
}

pub(crate) fn invalid_output(reason: &str) -> (r: GitError)
    ensures
        r.bad_output(reason@),
{
    GitError::InvalidOutput(reason.to_owned())
}

pub(crate) fn malformed_commit(reason: &str) -> (r: GitError)
    ensures
        r.malformed(reason@),
{
    GitError::MalformedCommit(reason.to_owned())
}

} // verus!
