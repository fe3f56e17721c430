//! What Git says of worktrees, commits and remotes, judged.

use crate::git_error::{invalid_output, malformed_commit, GitError};
use crate::git_parse::{output_text, split_nul, INTEGRATION_BRANCH, USER_BRANCH};
#[allow(unused_imports)]
use crate::git_parse::nul_fields;
use crate::oid::{GitOid, ObjectFormat};
#[allow(unused_imports)]
use crate::oid::{oid_of_hex, GitOidView};
use crate::outside::{decode_text, hash_hex, lossy_text};
#[allow(unused_imports)]
use crate::outside::{blake3_hex, lossy_text_of};
use crate::paths::{ordering_key, plain_relative};
#[allow(unused_imports)]
use crate::paths::{is_plain_relative, path_key};
#[allow(unused_imports)]
use crate::raw_commit::blank_line;
use crate::scan::{find_bytes, lines_str, space, split_bytes, starts_with, trim_str, words_str};
#[allow(unused_imports)]
use crate::scan::{
    begins_with, contains_part, first_place, is_space, lines_of, runs, split_at, trimmed, words_of,
};
use crate::text::{
    chars_of, concat3, copy_range, decimal_string, insert_text, push_bytes, slice_text, str_equal,
};
#[allow(unused_imports)]
use crate::text::{ascending, decimal, texts};
use vstd::prelude::*;
use vstd::utf8::{decode_utf8, encode_utf8, valid_utf8};

verus! {

/// The path without slashes at its end.
pub open spec fn without_slashes(path: Seq<char>) -> Seq<char>
    decreases path.len(),
{
    if path.len() > 0 && path.last() == '/' {
        without_slashes(path.drop_last())
    } else {
        path
    }
}

fn strip_slashes(path: &str) -> (r: String)
    ensures
        r@ == without_slashes(path@),
{
    let chars = chars_of(path);
    let mut end: usize = chars.len();
    assert(path@.take(end as int) =~= path@);
    while end > 0 && chars[end - 1] == '/'
        invariant
            chars@ == path@,
            end <= chars@.len(),
            without_slashes(path@) == without_slashes(path@.take(end as int)),
        decreases end,
    {
        assert(path@.take(end as int).drop_last() =~= path@.take(end - 1));
        end -= 1;
    }
    assert(path@.subrange(0, end as int) =~= path@.take(end as int));
    slice_text(path, 0, end)
}

/// The directory that a field of a list of ignored files names, if it is one that may
/// be looked into.
pub open spec fn ignored_directory(field: Seq<u8>) -> Option<Seq<char>> {
    if !valid_utf8(field) {
        None
    } else {
        let path = without_slashes(decode_utf8(field));
        if path.len() > 0 && is_plain_relative(path) {
            Some(path)
        } else {
            None
        }
    }
}

/// The directories that the first `n` fields name.
pub open spec fn ignored_in(fields: Seq<Seq<u8>>, n: nat) -> Seq<Seq<char>>
    decreases n,
{
    if n == 0 {
        Seq::empty()
    } else {
        let before = ignored_in(fields, (n - 1) as nat);
        match ignored_directory(fields[n - 1]) {
            Some(path) => before.push(path),
            None => before,
        }
    }
}

/// The paths that a list of ignored files names and that may be directories.
pub fn ignored_candidates(output: &[u8]) -> (r: Vec<String>)
    ensures
        texts(r@) == ignored_in(nul_fields(output@), nul_fields(output@).len()),
{
    let fields = split_nul(output);
    let ghost all = nul_fields(output@);
    assert(runs(fields@).len() == fields@.len());
    let mut out: Vec<String> = Vec::new();
    let mut i: usize = 0;
    assert(texts(out@) =~= Seq::empty());
    while i < fields.len()
        invariant
            i <= fields@.len() == all.len(),
            all == runs(fields@),
            texts(out@) == ignored_in(all, i as nat),
        decreases fields@.len() - i,
    {
        assert(all[i as int] == fields@[i as int]@);
        if let Ok(text) = decode_text(fields[i].as_slice()) {
            let path = strip_slashes(text.as_str());
            if chars_of(path.as_str()).len() > 0 && plain_relative(path.as_str()) {
                let ghost before = out@;
                let ghost held = path@;
                out.push(path);
                assert(texts(out@) =~= texts(before).push(held));
            }
        }
        i += 1;
    }
    out
}

/// A path lies within another, part by part, or is the same.
pub open spec fn lies_within(path: Seq<char>, directory: Seq<char>) -> bool {
    path_key(path) == path_key(directory) || begins_with(
        path_key(path),
        path_key(directory) + "\0"@,
    )
}

fn within(path: &str, directory: &str) -> (r: bool)
    ensures
        r == lies_within(path@, directory@),
{
    let key = ordering_key(path);
    let outer = ordering_key(directory);
    str_equal(key.as_str(), outer.as_str()) || starts_with(
        key.as_str(),
        outer.concat("\0").as_str(),
    )
}

/// The texts by which paths are ordered.
pub open spec fn path_keys(paths: Seq<Seq<char>>) -> Seq<Seq<char>> {
    paths.map_values(|path: Seq<char>| path_key(path))
}

/// The path stands at `m`, and none before it has the same parts.
pub open spec fn first_alike(items: Seq<Seq<char>>, path: Seq<char>, m: int) -> bool {
    &&& 0 <= m < items.len()
    &&& items[m] == path
    &&& forall|j: int| 0 <= j < m ==> path_key(#[trigger] items[j]) != path_key(path)
}

/// The path is the first of those with the same parts.
pub open spec fn leads_its_like(items: Seq<Seq<char>>, path: Seq<char>) -> bool {
    exists|m: int| first_alike(items, path, m)
}

/// The directories in order, part by part. Of those with the same parts the first stays.
pub open spec fn ordered_directories(items: Seq<Seq<char>>, ordered: Seq<Seq<char>>) -> bool {
    &&& ascending(path_keys(ordered))
    &&& path_keys(ordered).to_set() == path_keys(items).to_set()
    &&& forall|k: int|
        0 <= k < ordered.len() ==> leads_its_like(items, #[trigger] ordered[k])
}

/// Some kept directory holds the path.
pub open spec fn is_held(kept: Seq<Seq<char>>, path: Seq<char>) -> bool {
    exists|k: int| 0 <= k < kept.len() && lies_within(path, #[trigger] kept[k])
}

/// The first `n` directories without those that lie within one before them.
pub open spec fn outermost(ordered: Seq<Seq<char>>, n: nat) -> Seq<Seq<char>>
    decreases n,
{
    if n == 0 {
        Seq::empty()
    } else {
        let kept = outermost(ordered, (n - 1) as nat);
        if is_held(kept, ordered[n - 1]) {
            kept
        } else {
            kept.push(ordered[n - 1])
        }
    }
}

fn order_directories(items: &Vec<String>) -> (r: Vec<String>)
    ensures
        ordered_directories(texts(items@), texts(r@)),
{
    let ghost keys = path_keys(texts(items@));
    let mut sorted: Vec<String> = Vec::new();
    let mut i: usize = 0;
    assert(texts(sorted@).to_set() =~= keys.take(0).to_set());
    while i < items.len()
        invariant
            i <= items@.len() == keys.len(),
            keys == path_keys(texts(items@)),
            ascending(texts(sorted@)),
            texts(sorted@).to_set() == keys.take(i as int).to_set(),
        decreases items@.len() - i,
    {
        let key = ordering_key(items[i].as_str());
        assert(keys[i as int] == path_key(items@[i as int]@));
        insert_text(&mut sorted, key.as_str());
        i += 1;
        proof {
            assert(keys.take(i as int) =~= keys.take(i - 1).push(keys[i - 1]));
            keys.take(i - 1).lemma_push_to_set_commute(keys[i - 1]);
        }
    }
    assert(keys.take(i as int) =~= keys);
    let mut out: Vec<String> = Vec::new();
    let mut k: usize = 0;
    while k < sorted.len()
        invariant
            k <= sorted@.len(),
            keys == path_keys(texts(items@)),
            keys.len() == items@.len(),
            texts(sorted@).to_set() == keys.to_set(),
            out@.len() == k,
            forall|j: int| 0 <= j < k ==> path_key((#[trigger] out@[j])@) == sorted@[j]@,
            forall|j: int|
                0 <= j < k ==> leads_its_like(texts(items@), (#[trigger] out@[j])@),
        decreases sorted@.len() - k,
    {
        let ghost key = sorted@[k as int]@;
        proof {
            assert(texts(sorted@)[k as int] == key);
            assert(texts(sorted@).to_set().contains(key));
            assert(keys.to_set().contains(key));
        }
        let mut m: usize = 0;
        while m < items.len() && !str_equal(
            ordering_key(items[m].as_str()).as_str(),
            sorted[k].as_str(),
        )
            invariant
                m <= items@.len() == keys.len(),
                k < sorted@.len(),
                key == sorted@[k as int]@,
                keys == path_keys(texts(items@)),
                forall|j: int| 0 <= j < m ==> path_key(#[trigger] texts(items@)[j]) != key,
            decreases items@.len() - m,
        {
            assert(texts(items@)[m as int] == items@[m as int]@);
            m += 1;
        }
        proof {
            if m == items@.len() {
                let j = choose|j: int| 0 <= j < keys.len() && keys[j] == key;
                assert(keys[j] == path_key(texts(items@)[j]));
                assert(false);
            }
            assert(texts(items@)[m as int] == items@[m as int]@);
            assert(first_alike(texts(items@), items@[m as int]@, m as int));
            assert(leads_its_like(texts(items@), items@[m as int]@));
        }
        out.push(items[m].as_str().to_owned());
        k += 1;
    }
    proof {
        let found = path_keys(texts(out@));
        assert(found =~= texts(sorted@)) by {
            assert forall|j: int| 0 <= j < found.len() implies #[trigger] found[j]
                == texts(sorted@)[j] by {
                assert(texts(out@)[j] == out@[j]@);
            }
        }
        assert forall|j: int| 0 <= j < texts(out@).len() implies leads_its_like(
            texts(items@),
            #[trigger] texts(out@)[j],
        ) by {
            assert(texts(out@)[j] == out@[j]@);
        }
    }
    out
}

/// The outermost of the directories, in order.
pub fn outermost_directories(directories: &Vec<String>) -> (r: Vec<String>)
    ensures
        exists|ordered: Seq<Seq<char>>| #[trigger]
            ordered_directories(texts(directories@), ordered) && texts(r@) == outermost(
                ordered,
                ordered.len(),
            ),
{
    let ordered = order_directories(directories);
    let ghost all = texts(ordered@);
    assert(all.len() == ordered@.len());
    let mut kept: Vec<String> = Vec::new();
    let mut i: usize = 0;
    assert(texts(kept@) =~= Seq::empty());
    while i < ordered.len()
        invariant
            i <= ordered@.len() == all.len(),
            all == texts(ordered@),
            texts(kept@) == outermost(all, i as nat),
        decreases ordered@.len() - i,
    {
        assert(all[i as int] == ordered@[i as int]@);
        let mut held = false;
        let mut k: usize = 0;
        while k < kept.len()
            invariant
                k <= kept@.len(),
                i < ordered@.len() == all.len(),
                all[i as int] == ordered@[i as int]@,
                held <==> exists|j: int|
                    0 <= j < k && lies_within(all[i as int], #[trigger] texts(kept@)[j]),
            decreases kept@.len() - k,
        {
            assert(texts(kept@)[k as int] == kept@[k as int]@);
            if within(ordered[i].as_str(), kept[k].as_str()) {
                held = true;
            }
            k += 1;
        }
        assert(held == is_held(texts(kept@), all[i as int]));
        if !held {
            let ghost before = kept@;
            kept.push(ordered[i].as_str().to_owned());
            assert(texts(kept@) =~= texts(before).push(all[i as int]));
        }
        i += 1;
    }
    kept
}

/// Every directory lies within one of the outermost.
pub proof fn law_outermost_directories_hold_all(ordered: Seq<Seq<char>>, n: nat, i: int)
    requires
        0 <= i < n <= ordered.len(),
    ensures
        is_held(outermost(ordered, n), ordered[i]),
    decreases n,
{
    let kept = outermost(ordered, (n - 1) as nat);
    let all = outermost(ordered, n);
    if i < n - 1 {
        law_outermost_directories_hold_all(ordered, (n - 1) as nat, i);
        let k = choose|k: int| 0 <= k < kept.len() && lies_within(ordered[i], #[trigger] kept[k]);
        assert(all[k] == kept[k]);
    } else if !is_held(kept, ordered[i]) {
        assert(all[kept.len() as int] == ordered[i]);
        assert(lies_within(ordered[i], all[kept.len() as int]));
    }
}

/// What is wrong with a worktree that should be clean.
pub open spec fn dirt(staged: bool, modified: bool, untracked: Seq<u8>) -> Option<Seq<char>> {
    if staged {
        Some("staged changes"@)
    } else if modified {
        Some("tracked modifications"@)
    } else if untracked.len() > 0 {
        Some("non-ignored untracked files"@)
    } else {
        None
    }
}

/// Checks that a worktree is clean.
pub fn ensure_clean(staged: bool, modified: bool, untracked: &[u8]) -> (r: Result<(), GitError>)
    ensures
        r is Ok <==> dirt(staged, modified, untracked@) is None,
        r matches Err(error) ==> (error matches GitError::DirtyWorktree(label) && dirt(
            staged,
            modified,
            untracked@,
        ) == Some(label@)),
{
    let label: &str = if staged {
        "staged changes"
    } else if modified {
        "tracked modifications"
    } else if untracked.len() > 0 {
        "non-ignored untracked files"
    } else {
        return Ok(());
    };
    Err(GitError::DirtyWorktree(label.to_owned()))
}

/// A branch that is not for features.
pub open spec fn is_reserved(branch: Seq<char>) -> bool {
    branch == USER_BRANCH@ || branch == INTEGRATION_BRANCH@
}

/// Whether a branch is not for features.
pub fn reserved_branch(branch: &str) -> (r: bool)
    ensures
        r == is_reserved(branch@),
{
    str_equal(branch, USER_BRANCH) || str_equal(branch, INTEGRATION_BRANCH)
}

/// What is known of a commit that is to be validated.
#[derive(Clone, Debug, PartialEq, Eq)]
pub struct ApprovalProbe {
    pub source_oid: GitOid,
    pub parent_oid: GitOid,
    pub subject: String,
    pub author_name: String,
    pub author_email: String,
    pub branch: Option<String>,
    pub message_hash: String,
}

/// What Git says of a commit that is to be validated: whether the integration branch
/// already holds it, its parents, its subject and author, the current branch, and its
/// bytes.
#[derive(Clone, Debug, PartialEq, Eq)]
pub struct ProbeOutput {
    pub integrated: bool,
    pub parents: Vec<u8>,
    pub metadata: Vec<u8>,
    pub branch: Vec<u8>,
    pub raw_commit: Vec<u8>,
}

/// What is wrong with a commit that is to be validated.
pub enum ProbeFault {
    Integrated,
    NotText,
    Shape,
    Parent,
    Metadata,
    Message,
}

/// The error reports the fault.
pub open spec fn probe_error(error: GitError, fault: ProbeFault) -> bool {
    match fault {
        ProbeFault::Integrated => error.bad_output("source is already an ancestor of release"@),
        ProbeFault::NotText => error is InvalidOutput,
        ProbeFault::Shape => error is InvalidSourceShape,
        ProbeFault::Parent => error is Oid,
        ProbeFault::Metadata => error.bad_output("commit metadata frame"@),
        ProbeFault::Message => error.malformed("commit message separator is missing"@),
    }
}

/// What is wrong with a commit that is to be validated. One that is to be approved must
/// be new and have one parent; one that is only tried may be a root.
pub open spec fn probe_fault(output: ProbeOutput, approve: bool) -> Option<ProbeFault> {
    let words = words_of(decode_utf8(output.parents@));
    if approve && output.integrated {
        Some(ProbeFault::Integrated)
    } else if !valid_utf8(output.parents@) {
        Some(ProbeFault::NotText)
    } else if words.len() > 1 || (approve && words.len() != 1) {
        Some(ProbeFault::Shape)
    } else if words.len() == 1 && oid_of_hex(words[0]) is None {
        Some(ProbeFault::Parent)
    } else if split_at(output.metadata@, 0).len() < 3 {
        Some(ProbeFault::Metadata)
    } else if !valid_utf8(output.branch@) {
        Some(ProbeFault::NotText)
    } else if !contains_part(output.raw_commit@, blank_line()) {
        Some(ProbeFault::Message)
    } else {
        None
    }
}

/// The message of a commit is what follows the first blank line.
pub open spec fn message_of(raw: Seq<u8>, message: Seq<u8>) -> bool {
    exists|i: int| #[trigger] first_place(raw, blank_line(), i) && message == raw.skip(i + 2)
}

/// Judges a commit that is to be validated.
pub fn probe_revision(source_oid: GitOid, output: &ProbeOutput, approve: bool) -> (r: Result<
    ApprovalProbe,
    GitError,
>)
    requires
        source_oid.wf(),
    ensures
        r is Ok <==> probe_fault(*output, approve) is None,
        r matches Err(error) ==> probe_error(error, probe_fault(*output, approve)->0),
        r matches Ok(probe) ==> {
            let words = words_of(decode_utf8(output.parents@));
            let fields = split_at(output.metadata@, 0);
            let branch = trimmed(decode_utf8(output.branch@));
            &&& probe.source_oid == source_oid
            &&& probe.parent_oid.wf()
            &&& words.len() == 0 ==> probe.parent_oid@ == source_oid@
            &&& words.len() == 1 ==> oid_of_hex(words[0]) == Some(probe.parent_oid@)
            &&& probe.subject@ == lossy_text_of(fields[0])
            &&& probe.author_name@ == lossy_text_of(fields[1])
            &&& probe.author_email@ == trimmed(lossy_text_of(fields[2]))
            &&& branch.len() == 0 ==> probe.branch is None
            &&& branch.len() > 0 ==> (probe.branch matches Some(name) && name@ == branch)
            &&& exists|message: Seq<u8>| #[trigger]
                message_of(output.raw_commit@, message) && probe.message_hash@ == blake3_hex(
                    message,
                )
        },
{
    if approve && output.integrated {
        return Err(invalid_output("source is already an ancestor of release"));
    }
    let parents = match output_text(output.parents.as_slice()) {
        Ok(parents) => parents,
        Err(error) => {
            return Err(error);
        },
    };
    let words = words_str(parents.as_str());
    assert(texts(words@).len() == words@.len());
    if words.len() > 1 || (approve && words.len() != 1) {
        return Err(GitError::InvalidSourceShape);
    }
    let parent_oid = if words.len() == 1 {
        assert(texts(words@)[0] == words@[0]@);
        match GitOid::from_hex(words[0].as_str()) {
            Ok(oid) => oid,
            Err(error) => {
                return Err(GitError::Oid(error));
            },
        }
    } else {
        source_oid.duplicate()
    };
    let fields = split_bytes(output.metadata.as_slice(), 0);
    let ghost all = split_at(output.metadata@, 0);
    assert(runs(fields@).len() == fields@.len());
    if fields.len() < 3 {
        return Err(invalid_output("commit metadata frame"));
    }
    assert(all[0] == fields@[0]@ && all[1] == fields@[1]@ && all[2] == fields@[2]@);
    let branch = match output_text(output.branch.as_slice()) {
        Ok(branch) => trim_str(branch.as_str()),
        Err(error) => {
            return Err(error);
        },
    };
    let mut sought: Vec<u8> = Vec::new();
    sought.push(10);
    sought.push(10);
    assert(sought@ =~= blank_line());
    let total: usize = output.raw_commit.len();
    let at: usize = match find_bytes(output.raw_commit.as_slice(), sought.as_slice()) {
        Some(at) => at,
        None => {
            return Err(malformed_commit("commit message separator is missing"));
        },
    };
    assert(at + 2 <= total);
    let message = copy_range(output.raw_commit.as_slice(), at + 2, total);
    proof {
        assert(message@ =~= output.raw_commit@.skip(at + 2));
        assert(message_of(output.raw_commit@, message@));
    }
    let branch = if chars_of(branch.as_str()).len() > 0 {
        Some(branch)
    } else {
        None
    };
    Ok(
        ApprovalProbe {
            source_oid,
            parent_oid,
            subject: lossy_text(fields[0].as_slice()),
            author_name: lossy_text(fields[1].as_slice()),
            author_email: trim_str(lossy_text(fields[2].as_slice()).as_str()),
            branch,
            message_hash: hash_hex(message.as_slice()),
        },
    )
}

/// Position `i` is the first at which white space stands.
pub open spec fn first_blank(line: Seq<char>, i: int) -> bool {
    &&& 0 <= i < line.len()
    &&& is_space(line[i])
    &&& forall|j: int| 0 <= j < i ==> !is_space(#[trigger] line[j])
}

/// What is wrong with what a remote said of a reference.
pub enum RemoteFault {
    NotText,
    Empty,
    Several,
    Malformed,
    WrongRef,
    Oid,
}

/// The error reports the fault.
pub open spec fn remote_error(error: GitError, fault: RemoteFault) -> bool {
    match fault {
        RemoteFault::NotText => error is InvalidOutput,
        RemoteFault::Empty => error.bad_output("empty remote observation"@),
        RemoteFault::Several => error.bad_output(
            "remote observation returned multiple exact-ref matches"@,
        ),
        RemoteFault::Malformed => error.bad_output("malformed remote observation"@),
        RemoteFault::WrongRef => error.bad_output("remote observation returned the wrong ref"@),
        RemoteFault::Oid => error is Oid,
    }
}

/// The object that a remote says a reference points to.
pub open spec fn remote_object(output: Seq<u8>, reference: Seq<char>) -> Result<
    GitOidView,
    RemoteFault,
> {
    let lines = lines_of(decode_utf8(output));
    if !valid_utf8(output) {
        Err(RemoteFault::NotText)
    } else if lines.len() == 0 {
        Err(RemoteFault::Empty)
    } else if lines.len() > 1 {
        Err(RemoteFault::Several)
    } else if !(exists|i: int| first_blank(lines[0], i)) {
        Err(RemoteFault::Malformed)
    } else {
        let i = choose|i: int| first_blank(lines[0], i);
        if trimmed(lines[0].skip(i + 1)) != reference {
            Err(RemoteFault::WrongRef)
        } else {
            match oid_of_hex(trimmed(lines[0].take(i))) {
                Some(oid) => Ok(oid),
                None => Err(RemoteFault::Oid),
            }
        }
    }
}

/// Reads what a remote said of a reference.
pub fn parse_remote(output: &[u8], reference: &str) -> (r: Result<GitOid, GitError>)
    ensures
        match r {
            Ok(oid) => oid.wf() && remote_object(output@, reference@)
                == Ok::<GitOidView, RemoteFault>(oid@),
            Err(error) => remote_object(output@, reference@) matches Err(fault) && remote_error(
                error,
                fault,
            ),
        },
{
    let text = match output_text(output) {
        Ok(text) => text,
        Err(error) => {
            return Err(error);
        },
    };
    let lines = lines_str(text.as_str());
    let ghost all = lines_of(text@);
    assert(texts(lines@).len() == lines@.len());
    if lines.len() == 0 {
        return Err(invalid_output("empty remote observation"));
    }
    if lines.len() > 1 {
        return Err(invalid_output("remote observation returned multiple exact-ref matches"));
    }
    let line = lines[0].as_str();
    assert(all[0] == line@) by {
        assert(texts(lines@)[0] == lines@[0]@);
    }
    let chars = chars_of(line);
    let mut i: usize = 0;
    while i < chars.len()
        invariant
            chars@ == line@,
            i <= chars@.len(),
            valid_utf8(output@),
            all == lines_of(decode_utf8(output@)),
            all.len() == 1,
            all[0] == line@,
            forall|j: int| 0 <= j < i ==> !is_space(#[trigger] line@[j]),
        decreases chars@.len() - i,
    {
        if space(chars[i]) {
            proof {
                assert(first_blank(line@, i as int));
                let other = choose|other: int| first_blank(line@, other);
                if other < i {
                    assert(!is_space(line@[other]));
                } else if i < other {
                    assert(!is_space(line@[i as int]));
                }
            }
            let count: usize = chars.len();
            let left = slice_text(line, 0, i);
            let right = slice_text(line, i + 1, count);
            proof {
                assert(left@ =~= line@.take(i as int));
                assert(right@ =~= line@.skip(i + 1));
            }
            if !str_equal(trim_str(right.as_str()).as_str(), reference) {
                return Err(invalid_output("remote observation returned the wrong ref"));
            }
            return match GitOid::from_hex(trim_str(left.as_str()).as_str()) {
                Ok(oid) => Ok(oid),
                Err(error) => Err(GitError::Oid(error)),
            };
        }
        i += 1;
    }
    assert(!(exists|k: int| first_blank(line@, k)));
    Err(invalid_output("malformed remote observation"))
}

/// What asking a remote for a reference came to.
#[derive(Clone, Debug, PartialEq, Eq)]
pub struct CommandOutput {
    pub exit_code: Option<i32>,
    pub stdout: Vec<u8>,
    pub stderr: Vec<u8>,
}

/// The remote says that it has no such reference.
pub open spec fn says_absent(output: CommandOutput) -> bool {
    output.exit_code == Some(2i32) && output.stdout@.len() == 0 && output.stderr@.len() == 0
}

/// Judges what a remote said of a branch.
pub fn observe_remote_ref(output: &CommandOutput, remote: &str, branch: &str) -> (r: Result<
    Option<GitOid>,
    GitError,
>)
    ensures
        output.exit_code == Some(0i32) ==> match r {
            Ok(None) => false,
            Ok(Some(oid)) => oid.wf() && remote_object(output.stdout@, "refs/heads/"@ + branch@)
                == Ok::<GitOidView, RemoteFault>(oid@),
            Err(error) => remote_object(output.stdout@, "refs/heads/"@ + branch@) matches Err(fault)
                && remote_error(error, fault),
        },
        says_absent(*output) ==> r == Ok::<Option<GitOid>, GitError>(None),
        output.exit_code != Some(0i32) && !says_absent(*output) ==> (r matches Err(
            GitError::Command { command, stderr },
        ) && command@ == "git ls-remote --exit-code --refs "@ + remote@ + " "@ + ("refs/heads/"@
            + branch@) && stderr@ == trimmed(lossy_text_of(output.stderr@))),
{
    let reference = "refs/heads/".to_owned().concat(branch);
    match output.exit_code {
        Some(0) => {
            return match parse_remote(output.stdout.as_slice(), reference.as_str()) {
                Ok(oid) => Ok(Some(oid)),
                Err(error) => Err(error),
            };
        },
        Some(2) => {
            if output.stdout.len() == 0 && output.stderr.len() == 0 {
                return Ok(None);
            }
        },
        _ => {},
    }
    Err(
        GitError::Command {
            command: concat3("git ls-remote --exit-code --refs ", remote, " ").concat(
                reference.as_str(),
            ),
            stderr: trim_str(lossy_text(output.stderr.as_slice()).as_str()),
        },
    )
}

/// Judges the address of a remote: one line, not empty.
pub fn remote_url(output: &[u8], remote: &str) -> (r: Result<String, GitError>)
    ensures
        match r {
            Ok(url) => valid_utf8(output@) && url@ == trimmed(decode_utf8(output@)) && url@.len()
                > 0 && lines_of(url@).len() == 1,
            Err(error) => if !valid_utf8(output@) {
                error is InvalidOutput
            } else {
                let url = trimmed(decode_utf8(output@));
                (url.len() == 0 || lines_of(url).len() != 1) && error.bad_output(
                    "remote "@ + remote@ + " resolved to an invalid URL"@,
                )
            },
        },
{
    let text = match output_text(output) {
        Ok(text) => text,
        Err(error) => {
            return Err(error);
        },
    };
    let url = trim_str(text.as_str());
    let lines = lines_str(url.as_str());
    assert(texts(lines@).len() == lines@.len());
    if chars_of(url.as_str()).len() == 0 || lines.len() != 1 {
        return Err(
            GitError::InvalidOutput(concat3("remote ", remote, " resolved to an invalid URL")),
        );
    }
    Ok(url)
}

/// How Git is used: by which executable, in which version, and with which settings.
#[derive(Clone, Debug, PartialEq, Eq)]
pub struct GitSemanticsProfile {
    pub executable: String,
    pub version: String,
    pub object_format: ObjectFormat,
    pub hooks_path: String,
    pub merge_strategy: String,
    pub digest: String,
}

/// The object format that a text names.
pub open spec fn format_named(name: Seq<char>) -> Option<ObjectFormat> {
    if name == "sha1"@ {
        Some(ObjectFormat::Sha1)
    } else if name == "sha256"@ {
        Some(ObjectFormat::Sha256)
    } else {
        None
    }
}

/// Describes how Git is used, by what it says of itself.
pub fn describe_git(executable: &str, version: &[u8], object_format: &[u8]) -> (r: Result<
    GitSemanticsProfile,
    GitError,
>)
    ensures
        match r {
            Ok(profile) => {
                let format = decode_utf8(object_format@);
                &&& valid_utf8(version@) && valid_utf8(object_format@)
                &&& profile.executable@ == executable@
                &&& profile.version@ == trimmed(decode_utf8(version@))
                &&& Some(profile.object_format) == format_named(trimmed(format))
                &&& profile.hooks_path@ == "/dev/null"@
                &&& profile.merge_strategy@ == "ort/no-commit/v1"@
                &&& profile.digest@ == blake3_hex(
                    encode_utf8(executable@) + encode_utf8(decode_utf8(version@)) + encode_utf8(
                        format,
                    ) + encode_utf8("ort:no-commit:hooks-disabled:v1"@),
                )
            },
            Err(error) => if !valid_utf8(version@) || !valid_utf8(object_format@) {
                error is InvalidOutput
            } else {
                format_named(trimmed(decode_utf8(object_format@))) is None && (
                error matches GitError::UnsupportedObjectFormat(name) && name@ == trimmed(
                    decode_utf8(object_format@),
                ))
            },
        },
{
    let version = match output_text(version) {
        Ok(version) => version,
        Err(error) => {
            return Err(error);
        },
    };
    let format = match output_text(object_format) {
        Ok(format) => format,
        Err(error) => {
            return Err(error);
        },
    };
    let name = trim_str(format.as_str());
    let object_format = if str_equal(name.as_str(), "sha1") {
        ObjectFormat::Sha1
    } else if str_equal(name.as_str(), "sha256") {
        ObjectFormat::Sha256
    } else {
        return Err(GitError::UnsupportedObjectFormat(name));
    };
    let mut bytes: Vec<u8> = Vec::new();
    push_bytes(&mut bytes, executable.as_bytes());
    push_bytes(&mut bytes, version.as_str().as_bytes());
    push_bytes(&mut bytes, format.as_str().as_bytes());
    push_bytes(&mut bytes, "ort:no-commit:hooks-disabled:v1".as_bytes());
    proof {
        assert(bytes@ =~= encode_utf8(executable@) + encode_utf8(version@) + encode_utf8(format@)
            + encode_utf8("ort:no-commit:hooks-disabled:v1"@));
    }
    Ok(
        GitSemanticsProfile {
            executable: executable.to_owned(),
            version: trim_str(version.as_str()),
            object_format,
            hooks_path: "/dev/null".to_owned(),
            merge_strategy: "ort/no-commit/v1".to_owned(),
            digest: hash_hex(bytes.as_slice()),
        },
    )
}

/// Checks that a repair patch is not too large.
pub fn check_patch_size(length: u64, maximum_bytes: u64) -> (r: Result<(), GitError>)
    ensures
        r is Ok <==> length <= maximum_bytes,
        r matches Err(error) ==> error.bad_output(
            "repair patch is "@ + decimal(length as nat) + " bytes, exceeding the "@ + decimal(
                maximum_bytes as nat,
            ) + "-byte limit"@,
        ),
{
    if length > maximum_bytes {
        let mut text = concat3(
            "repair patch is ",
            decimal_string(length).as_str(),
            " bytes, exceeding the ",
        );
        text.append(decimal_string(maximum_bytes).as_str());
        text.append("-byte limit");
        return Err(GitError::InvalidOutput(text));
    }
    Ok(())
}

} // verus!
