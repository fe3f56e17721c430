//! Reading what Git prints.

use crate::git_error::{invalid_output, GitError};
use crate::oid::GitOid;
#[allow(unused_imports)]
use crate::oid::{oid_of_hex, oid_views, GitOidView};
use crate::outside::{decode_text, lossy_text};
#[allow(unused_imports)]
use crate::outside::lossy_text_of;
use crate::scan::{lines_str, split_bytes, trim_str, words_str};
#[allow(unused_imports)]
use crate::scan::{lines_of, occurs_at, runs, split_at, trimmed, words_of};
use crate::text::{bytes_equal, chars_of, concat3, copy_range, sort_texts};
#[allow(unused_imports)]
use crate::text::{is_sorted_set, texts};
use vstd::prelude::*;
use vstd::utf8::{decode_utf8, encode_utf8, valid_utf8};

verus! {

/// The branch on which certified work is integrated.
pub const INTEGRATION_BRANCH: &'static str = "release";

/// The reference of the integration branch.
pub const INTEGRATION_REF: &'static str = "refs/heads/release";

/// The branch of the user.
pub const USER_BRANCH: &'static str = "master";

/// The reference of the user's branch.
pub const USER_BRANCH_REF: &'static str = "refs/heads/master";

/// Reads output as text. Nothing is said of the wording of the error.
pub fn output_text(bytes: &[u8]) -> (r: Result<String, GitError>)
    ensures
        r is Ok <==> valid_utf8(bytes@),
        r matches Ok(text) ==> text@ == decode_utf8(bytes@),
        r matches Err(error) ==> error is InvalidOutput,
{
    match decode_text(bytes) {
        Ok(text) => Ok(text),
        Err(reason) => Err(GitError::InvalidOutput(reason)),
    }
}

/// The object identifier that output consists of, but for white space around it.
pub open spec fn oid_in(bytes: Seq<u8>) -> Option<GitOidView> {
    if valid_utf8(bytes) {
        oid_of_hex(trimmed(decode_utf8(bytes)))
    } else {
        None
    }
}

/// Output that should hold an identifier holds none.
pub open spec fn unreadable_oid(error: GitError, output: Seq<u8>) -> bool {
    if valid_utf8(output) {
        error is Oid
    } else {
        error is InvalidOutput
    }
}

/// Reads the object identifier that output consists of.
pub fn parse_oid(bytes: &[u8]) -> (r: Result<GitOid, GitError>)
    ensures
        r is Ok <==> oid_in(bytes@) is Some,
        r matches Ok(oid) ==> oid.wf() && oid_in(bytes@) == Some(oid@),
        r matches Err(error) ==> unreadable_oid(error, bytes@),
{
    let text = match output_text(bytes) {
        Ok(text) => text,
        Err(error) => {
            return Err(error);
        },
    };
    match GitOid::from_hex(trim_str(text.as_str()).as_str()) {
        Ok(oid) => Ok(oid),
        Err(error) => Err(GitError::Oid(error)),
    }
}

/// The one parent that output names.
pub open spec fn single_parent_in(bytes: Seq<u8>) -> Option<GitOidView> {
    if valid_utf8(bytes) && words_of(decode_utf8(bytes)).len() == 1 {
        oid_of_hex(words_of(decode_utf8(bytes))[0])
    } else {
        None
    }
}

/// The error says why no single parent can be read: the output is no text, it names none
/// or several, or the name is none.
pub open spec fn no_single_parent(error: GitError, bytes: Seq<u8>) -> bool {
    if !valid_utf8(bytes) {
        error is InvalidOutput
    } else if words_of(decode_utf8(bytes)).len() != 1 {
        error is InvalidSourceShape
    } else {
        error is Oid
    }
}

/// Reads the parent of a commit that has one.
pub fn parse_single_parent(bytes: &[u8]) -> (r: Result<GitOid, GitError>)
    ensures
        r is Ok <==> single_parent_in(bytes@) is Some,
        r matches Ok(oid) ==> oid.wf() && single_parent_in(bytes@) == Some(oid@),
        r matches Err(error) ==> no_single_parent(error, bytes@),
{
    let text = match output_text(bytes) {
        Ok(text) => text,
        Err(error) => {
            return Err(error);
        },
    };
    let words = words_str(text.as_str());
    assert(texts(words@).len() == words@.len());
    if words.len() != 1 {
        return Err(GitError::InvalidSourceShape);
    }
    assert(texts(words@)[0] == words@[0]@);
    match GitOid::from_hex(words[0].as_str()) {
        Ok(oid) => Ok(oid),
        Err(error) => Err(GitError::Oid(error)),
    }
}

pub open spec fn filled(field: Seq<u8>) -> bool {
    field.len() > 0
}

/// The fields of output that NUL bytes separate, without empty ones.
pub open spec fn nul_fields(bytes: Seq<u8>) -> Seq<Seq<u8>> {
    split_at(bytes, 0).filter(|field: Seq<u8>| filled(field))
}

/// Cuts output into its fields.
pub fn split_nul(bytes: &[u8]) -> (r: Vec<Vec<u8>>)
    ensures
        runs(r@) == nul_fields(bytes@),
{
    let pieces = split_bytes(bytes, 0);
    let ghost all = split_at(bytes@, 0);
    let ghost pred = |field: Seq<u8>| filled(field);
    let mut out: Vec<Vec<u8>> = Vec::new();
    let mut i: usize = 0;
    proof {
        assert(runs(pieces@).len() == pieces@.len());
        crate::seqs::lemma_filter_ends(all, pred);
        assert(runs(out@) =~= Seq::empty());
    }
    while i < pieces.len()
        invariant
            i <= pieces@.len(),
            all == runs(pieces@),
            pred == (|field: Seq<u8>| filled(field)),
            runs(out@) == all.take(i as int).filter(pred),
        decreases pieces@.len() - i,
    {
        proof {
            crate::seqs::lemma_filter_step(all, pred, i as int);
            assert(all[i as int] == pieces@[i as int]@);
        }
        if pieces[i].len() > 0 {
            let ghost before = out@;
            let size: usize = pieces[i].len();
            let field = copy_range(pieces[i].as_slice(), 0, size);
            assert(field@ =~= all[i as int]);
            out.push(field);
            assert(runs(out@) =~= runs(before).push(all[i as int]));
        }
        i += 1;
    }
    proof {
        crate::seqs::lemma_filter_ends(all, pred);
    }
    out
}

/// The fields of output as texts.
pub fn nul_delimited_strings(bytes: &[u8]) -> (r: Vec<String>)
    ensures
        texts(r@) == nul_fields(bytes@).map_values(|field: Seq<u8>| lossy_text_of(field)),
{
    let fields = split_nul(bytes);
    let ghost all = nul_fields(bytes@);
    assert(runs(fields@).len() == fields@.len());
    let mut out: Vec<String> = Vec::new();
    let mut i: usize = 0;
    while i < fields.len()
        invariant
            i <= fields@.len(),
            all == runs(fields@),
            out@.len() == i,
            forall|j: int| 0 <= j < i ==> (#[trigger] out@[j])@ == lossy_text_of(all[j]),
        decreases fields@.len() - i,
    {
        assert(all[i as int] == fields@[i as int]@);
        out.push(lossy_text(fields[i].as_slice()));
        i += 1;
    }
    assert(texts(out@) =~= all.map_values(|field: Seq<u8>| lossy_text_of(field)));
    out
}

/// The identifiers on the lines of a text from `i` on; empty lines are passed over.
pub open spec fn oids_on(lines: Seq<Seq<char>>, i: int) -> Option<Seq<GitOidView>>
    decreases lines.len() - i,
{
    if i >= lines.len() {
        Some(Seq::empty())
    } else if lines[i].len() == 0 {
        oids_on(lines, i + 1)
    } else {
        match (oid_of_hex(lines[i]), oids_on(lines, i + 1)) {
            (Some(oid), Some(rest)) => Some(seq![oid] + rest),
            _ => None,
        }
    }
}

/// The identifiers that output lists, one on a line.
pub open spec fn oids_in(bytes: Seq<u8>) -> Option<Seq<GitOidView>> {
    if valid_utf8(bytes) {
        oids_on(lines_of(decode_utf8(bytes)), 0)
    } else {
        None
    }
}

/// Reads the identifiers that output lists.
pub fn parse_oids(bytes: &[u8]) -> (r: Result<Vec<GitOid>, GitError>)
    ensures
        r is Ok <==> oids_in(bytes@) is Some,
        r matches Ok(oids) ==> oids_in(bytes@) == Some(oid_views(oids@)),
        r matches Ok(oids) ==> forall|k: int|
            0 <= k < oids@.len() ==> (#[trigger] oids@[k]).wf(),
        r matches Err(error) ==> if valid_utf8(bytes@) {
            error is Oid
        } else {
            error is InvalidOutput
        },
{
    let text = match output_text(bytes) {
        Ok(text) => text,
        Err(error) => {
            return Err(error);
        },
    };
    let lines = lines_str(text.as_str());
    let ghost all = lines_of(text@);
    assert(texts(lines@).len() == lines@.len());
    let mut out: Vec<GitOid> = Vec::new();
    let mut i: usize = 0;
    proof {
        assert(oid_views(out@) =~= Seq::empty());
        if oids_on(all, 0) is Some {
            assert(Seq::<GitOidView>::empty() + oids_on(all, 0)->0 =~= oids_on(all, 0)->0);
        }
    }
    while i < lines.len()
        invariant
            i <= lines@.len() == all.len(),
            all == texts(lines@),
            all == lines_of(decode_utf8(bytes@)),
            valid_utf8(bytes@),
            oids_on(all, 0) is Some <==> oids_on(all, i as int) is Some,
            oids_on(all, 0) matches Some(found) ==> found == oid_views(out@) + oids_on(
                all,
                i as int,
            )->0,
            forall|k: int| 0 <= k < out@.len() ==> (#[trigger] out@[k]).wf(),
        decreases lines@.len() - i,
    {
        assert(all[i as int] == lines@[i as int]@);
        let line = lines[i].as_str();
        if chars_of(line).len() == 0 {
            i += 1;
            continue;
        }
        match GitOid::from_hex(line) {
            Ok(oid) => {
                let ghost before = out@;
                out.push(oid);
                proof {
                    assert(oid_views(out@) =~= oid_views(before).push(oid@));
                    if oids_on(all, 0) is Some {
                        assert(oid_views(before) + (seq![oid@] + oids_on(all, i + 1)->0)
                            =~= oid_views(out@) + oids_on(all, i + 1)->0);
                    }
                }
            },
            Err(error) => {
                return Err(GitError::Oid(error));
            },
        }
        i += 1;
    }
    proof {
        assert(oid_views(out@) + Seq::<GitOidView>::empty() =~= oid_views(out@));
    }
    Ok(out)
}

/// What a record of a list of worktrees says.
#[allow(inconsistent_fields)]
pub enum WorktreeField {
    End,
    Path { path: Seq<char> },
    Branch { name: Seq<u8> },
    Other,
}

/// What a field of a list of worktrees says.
pub open spec fn worktree_field(field: Seq<u8>) -> WorktreeField {
    if field.len() == 0 {
        WorktreeField::End
    } else if occurs_at(field, encode_utf8("worktree "@), 0) {
        WorktreeField::Path {
            path: lossy_text_of(field.skip(encode_utf8("worktree "@).len() as int)),
        }
    } else if occurs_at(field, encode_utf8("branch "@), 0) {
        WorktreeField::Branch { name: field.skip(encode_utf8("branch "@).len() as int) }
    } else {
        WorktreeField::Other
    }
}

enum Field {
    End,
    Path(String),
    Branch(Vec<u8>),
    Other,
}

spec fn field_is(field: Field, view: WorktreeField) -> bool {
    match field {
        Field::End => view is End,
        Field::Path(path) => view == (WorktreeField::Path { path: path@ }),
        Field::Branch(name) => view == (WorktreeField::Branch { name: name@ }),
        Field::Other => view is Other,
    }
}

fn after_prefix(field: &Vec<u8>, prefix: &[u8]) -> (r: Option<Vec<u8>>)
    ensures
        r is Some <==> occurs_at(field@, prefix@, 0),
        r matches Some(rest) ==> rest@ == field@.skip(prefix@.len() as int),
{
    if prefix.len() > field.len() {
        return None;
    }
    let start = copy_range(field.as_slice(), 0, prefix.len());
    if bytes_equal(start.as_slice(), prefix) {
        let rest = copy_range(field.as_slice(), prefix.len(), field.len());
        assert(rest@ =~= field@.skip(prefix@.len() as int));
        Some(rest)
    } else {
        None
    }
}

fn read_field(field: &Vec<u8>) -> (r: Field)
    ensures
        field_is(r, worktree_field(field@)),
{
    if field.len() == 0 {
        return Field::End;
    }
    if let Some(path) = after_prefix(field, "worktree ".as_bytes()) {
        return Field::Path(lossy_text(path.as_slice()));
    }
    match after_prefix(field, "branch ".as_bytes()) {
        Some(name) => Field::Branch(name),
        None => Field::Other,
    }
}

/// Where the branch is checked out first, by the fields from `i` on; `current` is the
/// worktree that they are about.
pub open spec fn first_checkout(
    fields: Seq<Seq<u8>>,
    branch: Seq<u8>,
    i: int,
    current: Seq<char>,
) -> Option<Seq<char>>
    decreases fields.len() - i,
{
    if i >= fields.len() {
        None
    } else {
        match worktree_field(fields[i]) {
            WorktreeField::Path { path } => first_checkout(fields, branch, i + 1, path),
            WorktreeField::Branch { name } => if name == branch {
                Some(current)
            } else {
                first_checkout(fields, branch, i + 1, current)
            },
            _ => first_checkout(fields, branch, i + 1, current),
        }
    }
}

/// Checks that the integration branch is checked out nowhere, by a list of worktrees.
pub fn ensure_integration_not_checked_out(listing: &[u8]) -> (r: Result<(), GitError>)
    ensures
        r is Ok <==> first_checkout(
            split_at(listing@, 0),
            encode_utf8(INTEGRATION_REF@),
            0,
            Seq::empty(),
        ) is None,
        r matches Err(error) ==> (error matches GitError::IntegrationCheckedOut(path)
            && first_checkout(
            split_at(listing@, 0),
            encode_utf8(INTEGRATION_REF@),
            0,
            Seq::empty(),
        ) == Some(path@)),
{
    let fields = split_bytes(listing, 0);
    let ghost all = split_at(listing@, 0);
    let ghost branch = encode_utf8(INTEGRATION_REF@);
    assert(runs(fields@).len() == fields@.len());
    let mut current = String::new();
    let mut i: usize = 0;
    assert(current@ =~= Seq::empty());
    while i < fields.len()
        invariant
            i <= fields@.len(),
            all == runs(fields@),
            all == split_at(listing@, 0),
            branch == encode_utf8(INTEGRATION_REF@),
            first_checkout(all, branch, 0, Seq::empty()) == first_checkout(
                all,
                branch,
                i as int,
                current@,
            ),
        decreases fields@.len() - i,
    {
        assert(all[i as int] == fields@[i as int]@);
        match read_field(&fields[i]) {
            Field::Path(path) => {
                current = path;
            },
            Field::Branch(name) => {
                if bytes_equal(name.as_slice(), INTEGRATION_REF.as_bytes()) {
                    return Err(GitError::IntegrationCheckedOut(current));
                }
            },
            _ => {},
        }
        i += 1;
    }
    Ok(())
}

/// The worktrees in which a branch is checked out, by the fields from `i` on. `None`
/// stands for a record without a path.
pub open spec fn checkouts(
    fields: Seq<Seq<u8>>,
    branch: Seq<u8>,
    i: int,
    current: Option<Seq<char>>,
    found: Seq<Seq<char>>,
) -> Option<Seq<Seq<char>>>
    decreases fields.len() - i,
{
    if i >= fields.len() {
        Some(found)
    } else {
        match worktree_field(fields[i]) {
            WorktreeField::End => checkouts(fields, branch, i + 1, None, found),
            WorktreeField::Path { path } => checkouts(fields, branch, i + 1, Some(path), found),
            WorktreeField::Branch { name } => if name == branch {
                match current {
                    Some(path) => checkouts(fields, branch, i + 1, current, found.push(path)),
                    None => None,
                }
            } else {
                checkouts(fields, branch, i + 1, current, found)
            },
            WorktreeField::Other => checkouts(fields, branch, i + 1, current, found),
        }
    }
}

/// The worktree in which a branch is checked out, by a list of worktrees.
pub fn worktree_for_branch(listing: &[u8], branch_ref: &str) -> (r: Result<
    Option<String>,
    GitError,
>)
    ensures
        ({
            let found = checkouts(
                split_at(listing@, 0),
                encode_utf8(branch_ref@),
                0,
                None,
                Seq::empty(),
            );
            match r {
                Ok(None) => found == Some(Seq::<Seq<char>>::empty()),
                Ok(Some(path)) => found == Some(seq![path@]),
                Err(error) => match found {
                    None => error.bad_output("worktree branch record omitted its path"@),
                    Some(paths) => paths.len() > 1 && error.bad_output(
                        "branch `"@ + branch_ref@ + "` is checked out in multiple worktrees"@,
                    ),
                },
            }
        }),
{
    let fields = split_bytes(listing, 0);
    let ghost all = split_at(listing@, 0);
    let ghost branch = encode_utf8(branch_ref@);
    assert(runs(fields@).len() == fields@.len());
    let mut current: Option<String> = None;
    let mut found: Vec<String> = Vec::new();
    let mut i: usize = 0;
    assert(texts(found@) =~= Seq::empty());
    while i < fields.len()
        invariant
            i <= fields@.len(),
            all == runs(fields@),
            all == split_at(listing@, 0),
            branch == encode_utf8(branch_ref@),
            checkouts(all, branch, 0, None, Seq::empty()) == checkouts(
                all,
                branch,
                i as int,
                match current { Some(path) => Some(path@), None => None },
                texts(found@),
            ),
        decreases fields@.len() - i,
    {
        assert(all[i as int] == fields@[i as int]@);
        match read_field(&fields[i]) {
            Field::End => {
                current = None;
            },
            Field::Path(path) => {
                current = Some(path);
            },
            Field::Branch(name) => {
                if bytes_equal(name.as_slice(), branch_ref.as_bytes()) {
                    match &current {
                        Some(path) => {
                            let ghost before = found@;
                            found.push(path.as_str().to_owned());
                            assert(texts(found@) =~= texts(before).push(path@));
                        },
                        None => {
                            return Err(invalid_output("worktree branch record omitted its path"));
                        },
                    }
                }
            },
            Field::Other => {},
        }
        i += 1;
    }
    assert(texts(found@).len() == found@.len());
    if found.len() == 0 {
        assert(texts(found@) =~= Seq::empty());
        return Ok(None);
    }
    if found.len() == 1 {
        let path = found[0].as_str().to_owned();
        assert(texts(found@) =~= seq![path@]);
        return Ok(Some(path));
    }
    Err(
        GitError::InvalidOutput(
            concat3("branch `", branch_ref, "` is checked out in multiple worktrees"),
        ),
    )
}

/// A status that names two paths: a rename or a copy.
pub open spec fn names_two(status: Seq<u8>) -> bool {
    status.len() > 0 && (status[0] == 82 || status[0] == 67)
}

/// What is wrong with a list of changed paths.
pub enum ChangesFault {
    Truncated,
    NotText,
}

/// The paths that the fields from `i` on name. Each status is followed by one path, or
/// by two.
pub open spec fn changes_from(
    fields: Seq<Seq<u8>>,
    i: int,
    found: Seq<Seq<char>>,
) -> Result<Seq<Seq<char>>, ChangesFault>
    decreases fields.len() - i,
{
    if i >= fields.len() {
        Ok(found)
    } else if i + 1 >= fields.len() {
        Err(ChangesFault::Truncated)
    } else if !valid_utf8(fields[i + 1]) {
        Err(ChangesFault::NotText)
    } else {
        let once = found.push(decode_utf8(fields[i + 1]));
        if !names_two(fields[i]) {
            changes_from(fields, i + 2, once)
        } else if i + 2 >= fields.len() {
            Err(ChangesFault::Truncated)
        } else if !valid_utf8(fields[i + 2]) {
            Err(ChangesFault::NotText)
        } else {
            changes_from(fields, i + 3, once.push(decode_utf8(fields[i + 2])))
        }
    }
}

fn changed_path(fields: &Vec<Vec<u8>>, at: usize) -> (r: Result<String, GitError>)
    ensures
        r is Ok <==> at < fields@.len() && valid_utf8(fields@[at as int]@),
        r matches Ok(path) ==> path@ == decode_utf8(fields@[at as int]@),
        r matches Err(error) ==> if at < fields@.len() {
            error.bad_output("changed path is not UTF-8"@)
        } else {
            error.bad_output("truncated NUL-delimited diff-tree output"@)
        },
{
    if at >= fields.len() {
        return Err(invalid_output("truncated NUL-delimited diff-tree output"));
    }
    match decode_text(fields[at].as_slice()) {
        Ok(path) => Ok(path),
        Err(_) => Err(invalid_output("changed path is not UTF-8")),
    }
}

/// The paths that a commit changes, in order, each once.
pub fn changed_paths(output: &[u8]) -> (r: Result<Vec<String>, GitError>)
    ensures
        match r {
            Ok(paths) => changes_from(nul_fields(output@), 0, Seq::empty()) matches Ok(found)
                && is_sorted_set(found, texts(paths@)),
            Err(error) => match changes_from(nul_fields(output@), 0, Seq::empty()) {
                Ok(_) => false,
                Err(ChangesFault::Truncated) => error.bad_output(
                    "truncated NUL-delimited diff-tree output"@,
                ),
                Err(ChangesFault::NotText) => error.bad_output("changed path is not UTF-8"@),
            },
        },
{
    let fields = split_nul(output);
    let ghost all = nul_fields(output@);
    assert(runs(fields@).len() == fields@.len());
    let total: usize = fields.len();
    let mut found: Vec<String> = Vec::new();
    let mut i: usize = 0;
    assert(texts(found@) =~= Seq::empty());
    while i < total
        invariant
            i <= total == fields@.len() == all.len(),
            all == runs(fields@),
            all == nul_fields(output@),
            changes_from(all, 0, Seq::empty()) == changes_from(all, i as int, texts(found@)),
        decreases total - i,
    {
        assert(all[i as int] == fields@[i as int]@);
        let two = fields[i].len() > 0 && (fields[i][0] == 82 || fields[i][0] == 67);
        assert(i + 1 < total ==> all[i + 1] == fields@[i + 1]@);
        assert(i + 2 < total ==> all[i + 2] == fields@[i + 2]@);
        let path = match changed_path(&fields, i + 1) {
            Ok(path) => path,
            Err(error) => {
                return Err(error);
            },
        };
        let ghost before = found@;
        let ghost first = path@;
        found.push(path);
        assert(texts(found@) =~= texts(before).push(first));
        i += 2;
        if two {
            let path = match changed_path(&fields, i) {
                Ok(path) => path,
                Err(error) => {
                    return Err(error);
                },
            };
            let ghost once = found@;
            let ghost second = path@;
            found.push(path);
            assert(texts(found@) =~= texts(once).push(second));
            i += 1;
        }
    }
    Ok(sort_texts(&found))
}

} // verus!
