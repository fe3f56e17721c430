//! Commit objects as bytes: taking one apart, and writing it anew onto another parent.

use crate::git_error::{malformed_commit, GitError};
use crate::outside::lossy_text;
#[allow(unused_imports)]
use crate::outside::lossy_text_of;
use crate::scan::{find_bytes, split_bytes};
#[allow(unused_imports)]
use crate::scan::{contains_part, first_place, occurs_at, runs, split_at};
use crate::text::{bytes_equal, concat3, copy_range, push_bytes};
use vstd::prelude::*;
use vstd::utf8::encode_utf8;

verus! {

/// A commit with one parent. Signatures are left out.
#[derive(Clone, Debug, PartialEq, Eq)]
pub struct RawCommit {
    pub tree: Vec<u8>,
    pub parent: Vec<u8>,
    pub author: Vec<u8>,
    pub committer: Vec<u8>,
    pub encoding: Option<Vec<u8>>,
    pub message: Vec<u8>,
}

/// What a `RawCommit` holds.
#[verifier::ext_equal]
pub struct CommitView {
    pub tree: Seq<u8>,
    pub parent: Seq<u8>,
    pub author: Seq<u8>,
    pub committer: Seq<u8>,
    pub encoding: Option<Seq<u8>>,
    pub message: Seq<u8>,
}

impl View for RawCommit {
    type V = CommitView;

    open spec fn view(&self) -> CommitView {
        CommitView {
            tree: self.tree@,
            parent: self.parent@,
            author: self.author@,
            committer: self.committer@,
            encoding: match self.encoding {
                Some(encoding) => Some(encoding@),
                None => None,
            },
            message: self.message@,
        }
    }
}

/// What is wrong with a commit.
#[allow(inconsistent_fields)]
pub enum CommitFault {
    NoSeparator,
    OrphanContinuation,
    NoValue,
    BadHeader { name: Seq<u8> },
    NoTreeOrParent,
    NoAuthor,
    NoCommitter,
}

/// The error reports the fault.
pub open spec fn commit_error(error: GitError, fault: CommitFault) -> bool {
    match fault {
        CommitFault::NoSeparator => error.malformed("missing header separator"@),
        CommitFault::OrphanContinuation => error.malformed("orphan continuation line"@),
        CommitFault::NoValue => error.malformed("header without value"@),
        CommitFault::BadHeader { name } => error.malformed(
            "duplicate or unknown header `"@ + lossy_text_of(name) + "`"@,
        ),
        CommitFault::NoTreeOrParent => error is InvalidSourceShape,
        CommitFault::NoAuthor => error.malformed("missing author"@),
        CommitFault::NoCommitter => error.malformed("missing committer"@),
    }
}

/// Two line feeds.
pub open spec fn blank_line() -> Seq<u8> {
    seq![10u8, 10u8]
}

/// The lines of the headers. A line feed at the very end opens no line of its own.
pub open spec fn header_lines(headers: Seq<u8>) -> Seq<Seq<u8>> {
    let pieces = split_at(headers, 10);
    if pieces.last().len() == 0 {
        pieces.drop_last()
    } else {
        pieces
    }
}

/// Position `i` is the first at which a space stands.
pub open spec fn first_space(line: Seq<u8>, i: int) -> bool {
    &&& 0 <= i < line.len()
    &&& line[i] == 32
    &&& forall|j: int| 0 <= j < i ==> #[trigger] line[j] != 32
}

/// A header, as its name and its value.
pub open spec fn header_of(line: Seq<u8>) -> (Seq<u8>, Seq<u8>) {
    let i = choose|i: int| first_space(line, i);
    (line.take(i), line.skip(i + 1))
}

/// The headers on the first `n` lines. A line that begins with a space goes on with the
/// header before it; what it says is left out.
pub open spec fn headers_on(lines: Seq<Seq<u8>>, n: nat) -> Result<
    Seq<(Seq<u8>, Seq<u8>)>,
    CommitFault,
>
    decreases n,
{
    if n == 0 {
        Ok(Seq::empty())
    } else {
        match headers_on(lines, (n - 1) as nat) {
            Err(fault) => Err(fault),
            Ok(before) => {
                let line = lines[n - 1];
                if line.len() > 0 && line[0] == 32 {
                    if before.len() == 0 {
                        Err(CommitFault::OrphanContinuation)
                    } else {
                        Ok(before)
                    }
                } else if !line.contains(32u8) {
                    Err(CommitFault::NoValue)
                } else {
                    Ok(before.push(header_of(line)))
                }
            },
        }
    }
}

/// What has been gathered from headers.
#[verifier::ext_equal]
pub struct Gathered {
    pub tree: Option<Seq<u8>>,
    pub parent: Option<Seq<u8>>,
    pub author: Option<Seq<u8>>,
    pub committer: Option<Seq<u8>>,
    pub encoding: Option<Seq<u8>>,
    pub signed: bool,
    pub signed_sha256: bool,
}

/// Nothing has been gathered.
pub open spec fn nothing_gathered() -> Gathered {
    Gathered {
        tree: None,
        parent: None,
        author: None,
        committer: None,
        encoding: None,
        signed: false,
        signed_sha256: false,
    }
}

pub open spec fn ascii(name: Seq<char>) -> Seq<u8> {
    encode_utf8(name)
}

/// One header more. Each may come once, and no other may come.
pub open spec fn gather(so_far: Gathered, header: (Seq<u8>, Seq<u8>)) -> Result<
    Gathered,
    CommitFault,
> {
    let (name, value) = header;
    if name == ascii("tree"@) && so_far.tree is None {
        Ok(Gathered { tree: Some(value), ..so_far })
    } else if name == ascii("parent"@) && so_far.parent is None {
        Ok(Gathered { parent: Some(value), ..so_far })
    } else if name == ascii("author"@) && so_far.author is None {
        Ok(Gathered { author: Some(value), ..so_far })
    } else if name == ascii("committer"@) && so_far.committer is None {
        Ok(Gathered { committer: Some(value), ..so_far })
    } else if name == ascii("encoding"@) && so_far.encoding is None {
        Ok(Gathered { encoding: Some(value), ..so_far })
    } else if name == ascii("gpgsig"@) && !so_far.signed {
        Ok(Gathered { signed: true, ..so_far })
    } else if name == ascii("gpgsig-sha256"@) && !so_far.signed_sha256 {
        Ok(Gathered { signed_sha256: true, ..so_far })
    } else {
        Err(CommitFault::BadHeader { name })
    }
}

/// What the first `n` headers say.
pub open spec fn gathered(headers: Seq<(Seq<u8>, Seq<u8>)>, n: nat) -> Result<
    Gathered,
    CommitFault,
>
    decreases n,
{
    if n == 0 {
        Ok(nothing_gathered())
    } else {
        match gathered(headers, (n - 1) as nat) {
            Err(fault) => Err(fault),
            Ok(so_far) => gather(so_far, headers[n - 1]),
        }
    }
}

/// The commit that headers and a message make.
pub open spec fn commit_from(headers: Gathered, message: Seq<u8>) -> Result<
    CommitView,
    CommitFault,
> {
    match (headers.tree, headers.parent, headers.author, headers.committer) {
        (None, _, _, _) | (_, None, _, _) => Err(CommitFault::NoTreeOrParent),
        (_, _, None, _) => Err(CommitFault::NoAuthor),
        (_, _, _, None) => Err(CommitFault::NoCommitter),
        (Some(tree), Some(parent), Some(author), Some(committer)) => Ok(
            CommitView {
                tree,
                parent,
                author,
                committer,
                encoding: headers.encoding,
                message,
            },
        ),
    }
}

/// The commit whose headers and message these are.
pub open spec fn commit_of_parts(headers: Seq<u8>, message: Seq<u8>) -> Result<
    CommitView,
    CommitFault,
> {
    let lines = header_lines(headers);
    match headers_on(lines, lines.len()) {
        Err(fault) => Err(fault),
        Ok(found) => match gathered(found, found.len()) {
            Err(fault) => Err(fault),
            Ok(all) => commit_from(all, message),
        },
    }
}

/// The commit that bytes hold: headers, a blank line, and the message.
pub open spec fn commit_of(raw: Seq<u8>) -> Result<CommitView, CommitFault> {
    if !contains_part(raw, blank_line()) {
        Err(CommitFault::NoSeparator)
    } else {
        let at = choose|i: int| first_place(raw, blank_line(), i);
        commit_of_parts(raw.take(at), raw.skip(at + 2))
    }
}

/// A commit written onto another tree and parent, without signatures.
pub open spec fn rewritten(commit: CommitView, tree: Seq<char>, parent: Seq<char>) -> Seq<u8> {
    rewritten_headers(commit, tree, parent) + blank_line() + commit.message
}

/// The headers of such a commit.
pub open spec fn rewritten_headers(commit: CommitView, tree: Seq<char>, parent: Seq<char>) -> Seq<
    u8,
> {
    let four = ascii("tree "@) + encode_utf8(tree) + ascii("\nparent "@) + encode_utf8(parent)
        + ascii("\nauthor "@) + commit.author + ascii("\ncommitter "@) + commit.committer;
    match commit.encoding {
        Some(encoding) => four + ascii("\nencoding "@) + encoding,
        None => four,
    }
}

proof fn lemma_first_place(haystack: Seq<u8>, needle: Seq<u8>, i: int)
    requires
        first_place(haystack, needle, i),
    ensures
        (choose|j: int| first_place(haystack, needle, j)) == i,
{
    let other = choose|j: int| first_place(haystack, needle, j);
    if other < i {
        assert(!occurs_at(haystack, needle, other));
    } else if i < other {
        assert(!occurs_at(haystack, needle, i));
    }
}

proof fn lemma_first_space(line: Seq<u8>, i: int)
    requires
        first_space(line, i),
    ensures
        (choose|j: int| first_space(line, j)) == i,
{
    let other = choose|j: int| first_space(line, j);
    if other < i {
        assert(line[other] != 32);
    } else if i < other {
        assert(line[i] != 32);
    }
}

/// Headers, as names and values.
type Headers = Vec<(Vec<u8>, Vec<u8>)>;

spec fn header_views(headers: Seq<(Vec<u8>, Vec<u8>)>) -> Seq<(Seq<u8>, Seq<u8>)> {
    headers.map_values(|header: (Vec<u8>, Vec<u8>)| (header.0@, header.1@))
}

fn find_space(line: &Vec<u8>) -> (r: Option<usize>)
    ensures
        r is Some <==> line@.contains(32u8),
        r matches Some(i) ==> first_space(line@, i as int),
{
    let mut i: usize = 0;
    while i < line.len()
        invariant
            i <= line@.len(),
            forall|j: int| 0 <= j < i ==> #[trigger] line@[j] != 32,
        decreases line@.len() - i,
    {
        if line[i] == 32 {
            return Some(i);
        }
        i += 1;
    }
    None
}

/// Once reading headers has failed, it has failed.
proof fn lemma_headers_lost(lines: Seq<Seq<u8>>, i: nat, n: nat)
    requires
        i <= n,
        headers_on(lines, i) is Err,
    ensures
        headers_on(lines, n) == headers_on(lines, i),
    decreases n,
{
    if i < n {
        lemma_headers_lost(lines, i, (n - 1) as nat);
    }
}

proof fn lemma_gathering_lost(headers: Seq<(Seq<u8>, Seq<u8>)>, i: nat, n: nat)
    requires
        i <= n,
        gathered(headers, i) is Err,
    ensures
        gathered(headers, n) == gathered(headers, i),
    decreases n,
{
    if i < n {
        lemma_gathering_lost(headers, i, (n - 1) as nat);
    }
}

/// Takes headers apart.
fn continuation_lines(headers: &[u8]) -> (r: Result<Headers, GitError>)
    ensures
        r is Ok <==> headers_on(header_lines(headers@), header_lines(headers@).len()) is Ok,
        r matches Ok(found) ==> headers_on(header_lines(headers@), header_lines(headers@).len())
            == Ok::<Seq<(Seq<u8>, Seq<u8>)>, CommitFault>(header_views(found@)),
        r matches Err(error) ==> (headers_on(
            header_lines(headers@),
            header_lines(headers@).len(),
        ) matches Err(fault) && commit_error(error, fault)),
{
    let pieces = split_bytes(headers, 10);
    let ghost all = split_at(headers@, 10);
    assert(runs(pieces@).len() == pieces@.len());
    let mut count: usize = pieces.len();
    assert(all.last() == pieces@[count - 1]@);
    if pieces[count - 1].len() == 0 {
        count -= 1;
    }
    let ghost lines = header_lines(headers@);
    assert(lines =~= all.take(count as int));
    let mut found: Headers = Vec::new();
    let mut i: usize = 0;
    assert(header_views(found@) =~= Seq::empty());
    while i < count
        invariant
            i <= count <= pieces@.len(),
            all == runs(pieces@),
            lines == all.take(count as int),
            lines == header_lines(headers@),
            headers_on(lines, i as nat) == Ok::<Seq<(Seq<u8>, Seq<u8>)>, CommitFault>(
                header_views(found@),
            ),
        decreases count - i,
    {
        let line = &pieces[i];
        assert(lines[i as int] == line@);
        if line.len() > 0 && line[0] == 32 {
            if found.len() == 0 {
                proof {
                    assert(headers_on(lines, (i + 1) as nat) is Err);
                    lemma_headers_lost(lines, (i + 1) as nat, lines.len());
                }
                return Err(malformed_commit("orphan continuation line"));
            }
        } else {
            match find_space(line) {
                Some(space) => {
                    proof {
                        lemma_first_space(line@, space as int);
                    }
                    let name = copy_range(line.as_slice(), 0, space);
                    let value = copy_range(line.as_slice(), space + 1, line.len());
                    let ghost before = found@;
                    assert(name@ =~= line@.take(space as int));
                    assert(value@ =~= line@.skip(space + 1));
                    found.push((name, value));
                    assert(header_views(found@) =~= header_views(before).push(header_of(line@)));
                },
                None => {
                    proof {
                        assert(headers_on(lines, (i + 1) as nat) is Err);
                        lemma_headers_lost(lines, (i + 1) as nat, lines.len());
                    }
                    return Err(malformed_commit("header without value"));
                },
            }
        }
        i += 1;
    }
    Ok(found)
}

spec fn bytes_option(bytes: Option<Vec<u8>>) -> Option<Seq<u8>> {
    match bytes {
        Some(bytes) => Some(bytes@),
        None => None,
    }
}

fn is_name(name: &Vec<u8>, wanted: &str) -> (r: bool)
    ensures
        r == (name@ == ascii(wanted@)),
{
    bytes_equal(name.as_slice(), wanted.as_bytes())
}

impl RawCommit {
    /// Takes a commit apart.
    pub fn parse(raw: &[u8]) -> (r: Result<RawCommit, GitError>)
        ensures
            r is Ok <==> commit_of(raw@) is Ok,
            r matches Ok(commit) ==> commit_of(raw@) == Ok::<CommitView, CommitFault>(commit@),
            r matches Err(error) ==> (commit_of(raw@) matches Err(fault) && commit_error(
                error,
                fault,
            )),
    {
        let mut sought: Vec<u8> = Vec::new();
        sought.push(10);
        sought.push(10);
        assert(sought@ =~= blank_line());
        let total: usize = raw.len();
        let at: usize = match find_bytes(raw, sought.as_slice()) {
            Some(at) => at,
            None => {
                return Err(malformed_commit("missing header separator"));
            },
        };
        proof {
            lemma_first_place(raw@, blank_line(), at as int);
            assert(at + 2 <= total);
        }
        let head = copy_range(raw, 0, at);
        let message = copy_range(raw, at + 2, total);
        proof {
            assert(head@ =~= raw@.take(at as int));
            assert(message@ =~= raw@.skip(at + 2));
        }
        let headers = match continuation_lines(head.as_slice()) {
            Ok(headers) => headers,
            Err(error) => {
                return Err(error);
            },
        };
        let ghost all = header_views(headers@);
        let mut tree: Option<Vec<u8>> = None;
        let mut parent: Option<Vec<u8>> = None;
        let mut author: Option<Vec<u8>> = None;
        let mut committer: Option<Vec<u8>> = None;
        let mut encoding: Option<Vec<u8>> = None;
        let mut signed = false;
        let mut signed_sha256 = false;
        let mut i: usize = 0;
        while i < headers.len()
            invariant
                i <= headers@.len(),
                all == header_views(headers@),
                commit_of(raw@) == (match gathered(all, all.len()) {
                    Err(fault) => Err(fault),
                    Ok(found) => commit_from(found, message@),
                }),
                gathered(all, i as nat) == Ok::<Gathered, CommitFault>(
                    Gathered {
                        tree: bytes_option(tree),
                        parent: bytes_option(parent),
                        author: bytes_option(author),
                        committer: bytes_option(committer),
                        encoding: bytes_option(encoding),
                        signed,
                        signed_sha256,
                    },
                ),
            decreases headers@.len() - i,
        {
            let name = &headers[i].0;
            let size: usize = headers[i].1.len();
            let value = copy_range(headers[i].1.as_slice(), 0, size);
            proof {
                assert(all[i as int] == (headers@[i as int].0@, headers@[i as int].1@));
                assert(value@ =~= headers@[i as int].1@);
            }
            if is_name(name, "tree") && tree.is_none() {
                tree = Some(value);
            } else if is_name(name, "parent") && parent.is_none() {
                parent = Some(value);
            } else if is_name(name, "author") && author.is_none() {
                author = Some(value);
            } else if is_name(name, "committer") && committer.is_none() {
                committer = Some(value);
            } else if is_name(name, "encoding") && encoding.is_none() {
                encoding = Some(value);
            } else if is_name(name, "gpgsig") && !signed {
                signed = true;
            } else if is_name(name, "gpgsig-sha256") && !signed_sha256 {
                signed_sha256 = true;
            } else {
                proof {
                    assert(gathered(all, (i + 1) as nat) is Err);
                    lemma_gathering_lost(all, (i + 1) as nat, all.len());
                }
                return Err(
                    GitError::MalformedCommit(
                        concat3(
                            "duplicate or unknown header `",
                            lossy_text(name.as_slice()).as_str(),
                            "`",
                        ),
                    ),
                );
            }
            i += 1;
        }
        let tree = match tree {
            Some(tree) => tree,
            None => {
                return Err(GitError::InvalidSourceShape);
            },
        };
        let parent = match parent {
            Some(parent) => parent,
            None => {
                return Err(GitError::InvalidSourceShape);
            },
        };
        let author = match author {
            Some(author) => author,
            None => {
                return Err(malformed_commit("missing author"));
            },
        };
        let committer = match committer {
            Some(committer) => committer,
            None => {
                return Err(malformed_commit("missing committer"));
            },
        };
        Ok(RawCommit { tree, parent, author, committer, encoding, message })
    }

    /// Writes the commit onto another tree and parent, without signatures.
    pub fn rewrite(&self, tree: &str, parent: &str) -> (r: Vec<u8>)
        ensures
            r@ == rewritten(self@, tree@, parent@),
    {
        let mut out: Vec<u8> = Vec::new();
        push_bytes(&mut out, "tree ".as_bytes());
        push_bytes(&mut out, tree.as_bytes());
        push_bytes(&mut out, "\nparent ".as_bytes());
        push_bytes(&mut out, parent.as_bytes());
        push_bytes(&mut out, "\nauthor ".as_bytes());
        push_bytes(&mut out, self.author.as_slice());
        push_bytes(&mut out, "\ncommitter ".as_bytes());
        push_bytes(&mut out, self.committer.as_slice());
        if let Some(encoding) = &self.encoding {
            push_bytes(&mut out, "\nencoding ".as_bytes());
            push_bytes(&mut out, encoding.as_slice());
        }
        assert(out@ =~= rewritten_headers(self@, tree@, parent@));
        out.push(10);
        out.push(10);
        push_bytes(&mut out, self.message.as_slice());
        assert(out@ =~= rewritten(self@, tree@, parent@));
        out
    }
}

/// The bytes hold no line feed.
pub open spec fn one_line(bytes: Seq<u8>) -> bool {
    forall|i: int| 0 <= i < bytes.len() ==> #[trigger] bytes[i] != 10
}

proof fn lemma_split_nonempty(bytes: Seq<u8>)
    ensures
        split_at(bytes, 10).len() >= 1,
    decreases bytes.len(),
{
    if bytes.len() > 0 {
        lemma_split_nonempty(bytes.drop_last());
    }
}

/// The pieces between line feeds hold none.
proof fn lemma_pieces(bytes: Seq<u8>)
    ensures
        forall|k: int| 0 <= k < split_at(bytes, 10).len() ==> one_line(#[trigger] split_at(bytes, 10)[k]),
    decreases bytes.len(),
{
    if bytes.len() > 0 {
        lemma_pieces(bytes.drop_last());
        lemma_split_nonempty(bytes.drop_last());
        let before = split_at(bytes.drop_last(), 10);
        let pieces = split_at(bytes, 10);
        assert forall|k: int| 0 <= k < pieces.len() implies one_line(#[trigger] pieces[k]) by {
            if bytes.last() != 10 && k == before.len() - 1 {
                assert(one_line(before[k]));
                assert(pieces[k] == before.last().push(bytes.last()));
            } else if k < before.len() {
                assert(one_line(before[k]));
                assert(pieces[k] == before[k]);
            }
        }
    }
}

/// Bytes without a line feed are one piece.
proof fn lemma_split_one(bytes: Seq<u8>)
    requires
        one_line(bytes),
    ensures
        split_at(bytes, 10) == seq![bytes],
    decreases bytes.len(),
{
    if bytes.len() > 0 {
        let rest = bytes.drop_last();
        assert(one_line(rest)) by {
            assert forall|i: int| 0 <= i < rest.len() implies #[trigger] rest[i] != 10 by {
                assert(rest[i] == bytes[i]);
            }
        }
        lemma_split_one(rest);
        assert(bytes[bytes.len() - 1] != 10);
        assert(rest.push(bytes.last()) =~= bytes);
        assert(split_at(bytes, 10) =~= seq![bytes]);
    } else {
        assert(bytes =~= Seq::empty());
    }
}

/// One line more is one piece more.
proof fn lemma_split_more(text: Seq<u8>, line: Seq<u8>)
    requires
        one_line(line),
    ensures
        split_at(text + seq![10u8] + line, 10) == split_at(text, 10).push(line),
    decreases line.len(),
{
    lemma_split_nonempty(text);
    let all = text + seq![10u8] + line;
    if line.len() == 0 {
        assert(all.drop_last() =~= text);
        assert(line =~= Seq::empty());
        assert(split_at(all, 10) =~= split_at(text, 10).push(line));
    } else {
        let rest = line.drop_last();
        assert(one_line(rest)) by {
            assert forall|i: int| 0 <= i < rest.len() implies #[trigger] rest[i] != 10 by {
                assert(rest[i] == line[i]);
            }
        }
        lemma_split_more(text, rest);
        assert(all.drop_last() =~= text + seq![10u8] + rest);
        assert(line[line.len() - 1] != 10);
        assert(rest.push(line.last()) =~= line);
        assert(split_at(all, 10) =~= split_at(text, 10).push(line));
    }
}

/// No blank line, and no line feed at the end.
spec fn compact(bytes: Seq<u8>) -> bool {
    &&& bytes.len() > 0
    &&& bytes.last() != 10
    &&& forall|i: int| 0 <= i < bytes.len() - 1 ==> !(#[trigger] bytes[i] == 10 && bytes[i + 1] == 10)
}

proof fn lemma_compact_one(line: Seq<u8>)
    requires
        one_line(line),
        line.len() > 0,
    ensures
        compact(line),
{
    assert(line[line.len() - 1] != 10);
}

proof fn lemma_compact_more(text: Seq<u8>, line: Seq<u8>)
    requires
        compact(text),
        one_line(line),
        line.len() > 0,
    ensures
        compact(text + seq![10u8] + line),
{
    let all = text + seq![10u8] + line;
    let n = text.len() as int;
    assert(all.last() == line[line.len() - 1]);
    assert forall|i: int| 0 <= i < all.len() - 1 implies !(#[trigger] all[i] == 10 && all[i + 1]
        == 10) by {
        if i < n - 1 {
            assert(all[i] == text[i] && all[i + 1] == text[i + 1]);
        } else if i == n - 1 {
            assert(all[i] == text.last());
        } else {
            assert(all[i + 1] == line[i - n]);
        }
    }
}

/// In what is compact, the first blank line is the one that follows.
proof fn lemma_compact_separator(head: Seq<u8>, message: Seq<u8>)
    requires
        compact(head),
    ensures
        first_place(head + blank_line() + message, blank_line(), head.len() as int),
{
    let all = head + blank_line() + message;
    let n = head.len() as int;
    assert(all.subrange(n, n + 2) =~= blank_line());
    assert forall|j: int| 0 <= j < n implies !#[trigger] occurs_at(all, blank_line(), j) by {
        if occurs_at(all, blank_line(), j) {
            let part = all.subrange(j, j + 2);
            assert(part[0] == 10 && part[1] == 10);
            assert(all[j] == 10 && all[j + 1] == 10);
            if j < n - 1 {
                assert(head[j] == 10 && head[j + 1] == 10);
            } else {
                assert(head.last() == 10);
            }
        }
    }
}

/// A name of a header: no space, no line feed, not empty.
spec fn is_header_name(name: Seq<u8>) -> bool {
    &&& name.len() > 0
    &&& one_line(name)
    &&& forall|i: int| 0 <= i < name.len() ==> #[trigger] name[i] != 32
}

/// A header line is taken apart into its name and value.
proof fn lemma_header_line(name: Seq<u8>, value: Seq<u8>)
    requires
        is_header_name(name),
        one_line(value),
    ensures
        one_line(name + seq![32u8] + value),
        (name + seq![32u8] + value).len() > 0,
        (name + seq![32u8] + value)[0] != 32,
        (name + seq![32u8] + value).contains(32u8),
        header_of(name + seq![32u8] + value) == (name, value),
{
    let line = name + seq![32u8] + value;
    let n = name.len() as int;
    assert(line[0] == name[0]);
    assert(line[n] == 32);
    assert forall|i: int| 0 <= i < line.len() implies #[trigger] line[i] != 10 by {
        if i < n {
            assert(line[i] == name[i]);
        } else if i > n {
            assert(line[i] == value[i - n - 1]);
        }
    }
    assert(first_space(line, n)) by {
        assert forall|j: int| 0 <= j < n implies #[trigger] line[j] != 32 by {
            assert(line[j] == name[j]);
        }
    }
    lemma_first_space(line, n);
    assert(line.take(n) =~= name);
    assert(line.skip(n + 1) =~= value);
}

proof fn lemma_name(name: Seq<char>)
    requires
        vstd::utf8::is_ascii_chars(name),
        name.len() > 0,
        forall|i: int| 0 <= i < name.len() ==> #[trigger] name[i] != ' ' && name[i] != '\n',
    ensures
        is_header_name(ascii(name)),
        ascii(name).len() == name.len(),
{
    vstd::utf8::is_ascii_chars_encode_utf8(name);
    assert forall|i: int| 0 <= i < name.len() implies #[trigger] ascii(name)[i] != 32
        && ascii(name)[i] != 10 by {
        assert(name[i] as u8 == ascii(name)[i]);
        assert('\0' <= name[i] <= '\u{7f}');
        assert(name[i] != ' ' && name[i] != '\n');
    }
}

proof fn lemma_same_ascii(a: Seq<char>, b: Seq<u8>)
    requires
        vstd::utf8::is_ascii_chars(a),
        a.len() == b.len(),
        forall|i: int| 0 <= i < b.len() ==> a[i] as u8 == #[trigger] b[i],
    ensures
        ascii(a) == b,
{
    vstd::utf8::is_ascii_chars_encode_utf8(a);
    assert(ascii(a) =~= b);
}

/// The literals in rewritten headers are names with what separates them.
proof fn lemma_literals()
    ensures
        is_header_name(ascii("tree"@)),
        is_header_name(ascii("parent"@)),
        is_header_name(ascii("author"@)),
        is_header_name(ascii("committer"@)),
        is_header_name(ascii("encoding"@)),
        ascii("tree "@) == ascii("tree"@) + seq![32u8],
        ascii("\nparent "@) == seq![10u8] + ascii("parent"@) + seq![32u8],
        ascii("\nauthor "@) == seq![10u8] + ascii("author"@) + seq![32u8],
        ascii("\ncommitter "@) == seq![10u8] + ascii("committer"@) + seq![32u8],
        ascii("\nencoding "@) == seq![10u8] + ascii("encoding"@) + seq![32u8],
{
    reveal_strlit("tree");
    reveal_strlit("parent");
    reveal_strlit("author");
    reveal_strlit("committer");
    reveal_strlit("encoding");
    reveal_strlit("tree ");
    reveal_strlit("\nparent ");
    reveal_strlit("\nauthor ");
    reveal_strlit("\ncommitter ");
    reveal_strlit("\nencoding ");
    lemma_name("tree"@);
    lemma_name("parent"@);
    lemma_name("author"@);
    lemma_name("committer"@);
    lemma_name("encoding"@);
    vstd::utf8::is_ascii_chars_encode_utf8("tree"@);
    vstd::utf8::is_ascii_chars_encode_utf8("parent"@);
    vstd::utf8::is_ascii_chars_encode_utf8("author"@);
    vstd::utf8::is_ascii_chars_encode_utf8("committer"@);
    vstd::utf8::is_ascii_chars_encode_utf8("encoding"@);
    lemma_same_ascii("tree "@, ascii("tree"@) + seq![32u8]);
    lemma_same_ascii("\nparent "@, seq![10u8] + ascii("parent"@) + seq![32u8]);
    lemma_same_ascii("\nauthor "@, seq![10u8] + ascii("author"@) + seq![32u8]);
    lemma_same_ascii("\ncommitter "@, seq![10u8] + ascii("committer"@) + seq![32u8]);
    lemma_same_ascii("\nencoding "@, seq![10u8] + ascii("encoding"@) + seq![32u8]);
}

/// Every value in what was gathered is one line.
spec fn gathered_lines(so_far: Gathered) -> bool {
    &&& so_far.author matches Some(value) ==> one_line(value)
    &&& so_far.committer matches Some(value) ==> one_line(value)
    &&& so_far.encoding matches Some(value) ==> one_line(value)
}

proof fn lemma_values_are_lines(lines: Seq<Seq<u8>>, n: nat)
    requires
        n <= lines.len(),
        forall|k: int| 0 <= k < lines.len() ==> one_line(#[trigger] lines[k]),
        headers_on(lines, n) is Ok,
    ensures
        forall|k: int|
            0 <= k < headers_on(lines, n)->Ok_0.len() ==> one_line(
                (#[trigger] headers_on(lines, n)->Ok_0[k]).1,
            ),
    decreases n,
{
    if n > 0 {
        lemma_values_are_lines(lines, (n - 1) as nat);
        let before = headers_on(lines, (n - 1) as nat)->Ok_0;
        let all = headers_on(lines, n)->Ok_0;
        let line = lines[n - 1];
        assert(one_line(line));
        assert forall|k: int| 0 <= k < all.len() implies one_line((#[trigger] all[k]).1) by {
            if k < before.len() {
                assert(all[k] == before[k]);
            } else {
                assert(line.contains(32u8));
                lemma_some_first_space(line);
                let i = choose|i: int| first_space(line, i);
                let value = line.skip(i + 1);
                assert forall|j: int| 0 <= j < value.len() implies #[trigger] value[j] != 10 by {
                    assert(value[j] == line[i + 1 + j]);
                }
            }
        }
    }
}

proof fn lemma_some_first_space(line: Seq<u8>)
    requires
        line.contains(32u8),
    ensures
        exists|i: int| first_space(line, i),
    decreases line.len(),
{
    let k = choose|k: int| 0 <= k < line.len() && line[k] == 32;
    if exists|j: int| 0 <= j < k && line[j] == 32 {
        let part = line.take(k);
        let j = choose|j: int| 0 <= j < k && line[j] == 32;
        assert(part[j] == 32);
        lemma_some_first_space(part);
        let i = choose|i: int| first_space(part, i);
        assert(first_space(line, i)) by {
            assert forall|m: int| 0 <= m < i implies #[trigger] line[m] != 32 by {
                assert(part[m] == line[m]);
            }
        }
    } else {
        assert(first_space(line, k));
    }
}

proof fn lemma_gathered_lines(headers: Seq<(Seq<u8>, Seq<u8>)>, n: nat)
    requires
        n <= headers.len(),
        forall|k: int| 0 <= k < headers.len() ==> one_line((#[trigger] headers[k]).1),
        gathered(headers, n) is Ok,
    ensures
        gathered_lines(gathered(headers, n)->Ok_0),
    decreases n,
{
    if n > 0 {
        lemma_gathered_lines(headers, (n - 1) as nat);
        assert(one_line(headers[n - 1].1));
    }
}

/// The author, the committer and the encoding of a commit are one line each.
proof fn lemma_commit_lines(raw: Seq<u8>)
    requires
        commit_of(raw) is Ok,
    ensures
        one_line(commit_of(raw)->Ok_0.author),
        one_line(commit_of(raw)->Ok_0.committer),
        commit_of(raw)->Ok_0.encoding matches Some(encoding) ==> one_line(encoding),
{
    let at = choose|i: int| first_place(raw, blank_line(), i);
    let head = raw.take(at);
    let lines = header_lines(head);
    lemma_pieces(head);
    lemma_split_nonempty(head);
    assert forall|k: int| 0 <= k < lines.len() implies one_line(#[trigger] lines[k]) by {
        assert(lines[k] == split_at(head, 10)[k]);
    }
    lemma_values_are_lines(lines, lines.len());
    let found = headers_on(lines, lines.len())->Ok_0;
    lemma_gathered_lines(found, found.len());
}

/// The first four lines of rewritten headers.
spec fn four_lines(t: Seq<u8>, p: Seq<u8>, author: Seq<u8>, committer: Seq<u8>) -> Seq<Seq<u8>> {
    seq![
        ascii("tree"@) + seq![32u8] + t,
        ascii("parent"@) + seq![32u8] + p,
        ascii("author"@) + seq![32u8] + author,
        ascii("committer"@) + seq![32u8] + committer,
    ]
}

/// The four lines, with line feeds between them.
spec fn four_joined(lines: Seq<Seq<u8>>) -> Seq<u8> {
    lines[0] + seq![10u8] + lines[1] + seq![10u8] + lines[2] + seq![10u8] + lines[3]
}

proof fn lemma_four_joined(lines: Seq<Seq<u8>>)
    requires
        lines.len() == 4,
        forall|k: int| 0 <= k < 4 ==> one_line(#[trigger] lines[k]) && lines[k].len() > 0,
    ensures
        split_at(four_joined(lines), 10) == lines,
        compact(four_joined(lines)),
{
    let l0 = lines[0];
    let l1 = lines[1];
    let l2 = lines[2];
    let l3 = lines[3];
    let feed = seq![10u8];
    let h1 = l0 + feed + l1;
    let h2 = h1 + feed + l2;
    lemma_split_one(l0);
    lemma_split_more(l0, l1);
    lemma_split_more(h1, l2);
    lemma_split_more(h2, l3);
    lemma_compact_one(l0);
    lemma_compact_more(l0, l1);
    lemma_compact_more(h1, l2);
    lemma_compact_more(h2, l3);
    assert(split_at(four_joined(lines), 10) =~= lines);
}

proof fn lemma_four_lines(t: Seq<u8>, p: Seq<u8>, author: Seq<u8>, committer: Seq<u8>)
    requires
        one_line(t),
        one_line(p),
        one_line(author),
        one_line(committer),
    ensures
        forall|k: int|
            0 <= k < 4 ==> {
                let line = #[trigger] four_lines(t, p, author, committer)[k];
                one_line(line) && line.len() > 0 && line[0] != 32 && line.contains(32u8)
            },
        header_of(four_lines(t, p, author, committer)[0]) == (ascii("tree"@), t),
        header_of(four_lines(t, p, author, committer)[1]) == (ascii("parent"@), p),
        header_of(four_lines(t, p, author, committer)[2]) == (ascii("author"@), author),
        header_of(four_lines(t, p, author, committer)[3]) == (ascii("committer"@), committer),
        four_joined(four_lines(t, p, author, committer)) == ascii("tree "@) + t + ascii(
            "\nparent "@,
        ) + p + ascii("\nauthor "@) + author + ascii("\ncommitter "@) + committer,
{
    lemma_literals();
    lemma_header_line(ascii("tree"@), t);
    lemma_header_line(ascii("parent"@), p);
    lemma_header_line(ascii("author"@), author);
    lemma_header_line(ascii("committer"@), committer);
    assert(four_joined(four_lines(t, p, author, committer)) =~= ascii("tree "@) + t + ascii(
        "\nparent "@,
    ) + p + ascii("\nauthor "@) + author + ascii("\ncommitter "@) + committer);
}

proof fn lemma_plain_headers(commit: CommitView, tree: Seq<char>, parent: Seq<char>)
    requires
        one_line(encode_utf8(tree)),
        one_line(encode_utf8(parent)),
        one_line(commit.author),
        one_line(commit.committer),
        commit.encoding is None,
    ensures
        compact(rewritten_headers(commit, tree, parent)),
        commit_of_parts(rewritten_headers(commit, tree, parent), commit.message)
            == Ok::<CommitView, CommitFault>(
            CommitView { tree: encode_utf8(tree), parent: encode_utf8(parent), ..commit },
        ),
{
    let t = encode_utf8(tree);
    let p = encode_utf8(parent);
    let lines = four_lines(t, p, commit.author, commit.committer);
    lemma_four_lines(t, p, commit.author, commit.committer);
    lemma_four_joined(lines);
    let head = rewritten_headers(commit, tree, parent);
    assert(head == four_joined(lines));
    assert(one_line(lines[3]) && lines[3].len() > 0);
    assert(header_lines(head) == lines);
    let found = seq![
        (ascii("tree"@), t),
        (ascii("parent"@), p),
        (ascii("author"@), commit.author),
        (ascii("committer"@), commit.committer),
    ];
    lemma_headers_all(lines, found, 4);
    lemma_four_gathered(found);
}

proof fn lemma_encoded_headers(commit: CommitView, tree: Seq<char>, parent: Seq<char>)
    requires
        one_line(encode_utf8(tree)),
        one_line(encode_utf8(parent)),
        one_line(commit.author),
        one_line(commit.committer),
        commit.encoding is Some,
        one_line(commit.encoding->0),
    ensures
        compact(rewritten_headers(commit, tree, parent)),
        commit_of_parts(rewritten_headers(commit, tree, parent), commit.message)
            == Ok::<CommitView, CommitFault>(
            CommitView { tree: encode_utf8(tree), parent: encode_utf8(parent), ..commit },
        ),
{
    let t = encode_utf8(tree);
    let p = encode_utf8(parent);
    let encoding = commit.encoding->0;
    let four = four_lines(t, p, commit.author, commit.committer);
    lemma_four_lines(t, p, commit.author, commit.committer);
    lemma_four_joined(four);
    lemma_literals();
    lemma_header_line(ascii("encoding"@), encoding);
    let last = ascii("encoding"@) + seq![32u8] + encoding;
    let lines = four.push(last);
    let head = rewritten_headers(commit, tree, parent);
    assert(head =~= four_joined(four) + seq![10u8] + last);
    lemma_split_more(four_joined(four), last);
    lemma_compact_more(four_joined(four), last);
    assert(header_lines(head) == lines);
    let found4 = seq![
        (ascii("tree"@), t),
        (ascii("parent"@), p),
        (ascii("author"@), commit.author),
        (ascii("committer"@), commit.committer),
    ];
    let found = found4.push((ascii("encoding"@), encoding));
    assert forall|k: int| 0 <= k < lines.len() implies (#[trigger] lines[k]).len() > 0
        && lines[k][0] != 32 && lines[k].contains(32u8) && header_of(lines[k]) == found[k] by {
        if k < 4 {
            assert(lines[k] == four[k]);
        }
    }
    lemma_headers_all(lines, found, 5);
    lemma_four_gathered(found4);
    lemma_gathered_prefix(found4, found, 4);
    assert(gathered(found, 5) == gather(gathered(found, 4)->Ok_0, found[4]));
}

/// What the first headers say does not depend on those that follow.
proof fn lemma_gathered_prefix(
    headers: Seq<(Seq<u8>, Seq<u8>)>,
    more: Seq<(Seq<u8>, Seq<u8>)>,
    n: nat,
)
    requires
        n <= headers.len() <= more.len(),
        forall|k: int| 0 <= k < headers.len() ==> #[trigger] headers[k] == more[k],
    ensures
        gathered(headers, n) == gathered(more, n),
    decreases n,
{
    if n > 0 {
        lemma_gathered_prefix(headers, more, (n - 1) as nat);
        assert(headers[n - 1] == more[n - 1]);
    }
}

/// A commit that was written onto another tree and parent reads as the commit that it
/// was, but for the tree and the parent. No signature is left.
pub proof fn law_rewriting_changes_tree_and_parent_only(
    raw: Seq<u8>,
    tree: Seq<char>,
    parent: Seq<char>,
)
    requires
        commit_of(raw) is Ok,
        one_line(encode_utf8(tree)),
        one_line(encode_utf8(parent)),
    ensures
        commit_of(rewritten(commit_of(raw)->Ok_0, tree, parent)) == Ok::<CommitView, CommitFault>(
            CommitView {
                tree: encode_utf8(tree),
                parent: encode_utf8(parent),
                ..commit_of(raw)->Ok_0
            },
        ),
{
    let commit = commit_of(raw)->Ok_0;
    lemma_commit_lines(raw);
    if commit.encoding is None {
        lemma_plain_headers(commit, tree, parent);
    } else {
        lemma_encoded_headers(commit, tree, parent);
    }
    let head = rewritten_headers(commit, tree, parent);
    lemma_compact_separator(head, commit.message);
    let all = rewritten(commit, tree, parent);
    lemma_first_place(all, blank_line(), head.len() as int);
    assert(all.take(head.len() as int) =~= head);
    assert(all.skip(head.len() as int + 2) =~= commit.message);
    assert(occurs_at(all, blank_line(), head.len() as int));
}

/// Lines that each hold one header are those headers.
proof fn lemma_headers_all(lines: Seq<Seq<u8>>, found: Seq<(Seq<u8>, Seq<u8>)>, n: nat)
    requires
        n <= lines.len() == found.len(),
        forall|k: int|
            0 <= k < lines.len() ==> (#[trigger] lines[k]).len() > 0 && lines[k][0] != 32
                && lines[k].contains(32u8) && header_of(lines[k]) == found[k],
    ensures
        headers_on(lines, n) == Ok::<Seq<(Seq<u8>, Seq<u8>)>, CommitFault>(found.take(n as int)),
        headers_on(lines, lines.len()) == Ok::<Seq<(Seq<u8>, Seq<u8>)>, CommitFault>(found) || n
            < lines.len(),
    decreases n,
{
    if n > 0 {
        lemma_headers_all(lines, found, (n - 1) as nat);
        assert(lines[n - 1].len() > 0);
        assert(found.take(n as int) =~= found.take(n - 1).push(found[n - 1]));
    } else {
        assert(found.take(0) =~= Seq::empty());
    }
    if n == lines.len() {
        assert(found.take(n as int) =~= found);
    }
}

proof fn lemma_four_gathered(found: Seq<(Seq<u8>, Seq<u8>)>)
    requires
        found.len() == 4,
        found[0].0 == ascii("tree"@),
        found[1].0 == ascii("parent"@),
        found[2].0 == ascii("author"@),
        found[3].0 == ascii("committer"@),
    ensures
        gathered(found, 4) == Ok::<Gathered, CommitFault>(
            Gathered {
                tree: Some(found[0].1),
                parent: Some(found[1].1),
                author: Some(found[2].1),
                committer: Some(found[3].1),
                encoding: None,
                signed: false,
                signed_sha256: false,
            },
        ),
{
    reveal_with_fuel(gathered, 5);
}

} // verus!
