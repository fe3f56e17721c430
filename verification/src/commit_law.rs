//! What the parts of a commit are read from.

#[allow(unused_imports)]
use crate::raw_commit::{
    ascii, blank_line, commit_from, commit_of, commit_of_parts, gather, header_of, first_space,
    rewritten, CommitFault, CommitView, Gathered,
};
#[allow(unused_imports)]
use crate::scan::{contains_part, first_place, occurs_at};
use vstd::prelude::*;
#[allow(unused_imports)]
use vstd::utf8::encode_utf8;

verus! {

/// A header is what stands before its first space, and its value all that stands behind it.
pub proof fn law_headers_are_cut_at_the_first_space(name: Seq<u8>, value: Seq<u8>)
    requires
        !name.contains(32u8),
    ensures
        header_of(name + seq![32u8] + value) == (name, value),
{
    let line = name + seq![32u8] + value;
    let n = name.len() as int;
    assert(line[n] == 32u8);
    assert forall|j: int| 0 <= j < n implies #[trigger] line[j] != 32 by {
        assert(line[j] == name[j]);
        assert(name.contains(name[j]));
    }
    assert(first_space(line, n));
    let i = choose|i: int| first_space(line, i);
    assert(first_space(line, i));
    assert(i == n);
    assert(line.take(n) =~= name);
    assert(line.skip(n + 1) =~= value);
}

/// Each header is taken for what it is called, once; a second one of the same name is
/// refused, and nothing else is touched.
pub proof fn law_headers_are_taken_by_name(so_far: Gathered, value: Seq<u8>, name: Seq<u8>)
    ensures
        so_far.tree is None ==> gather(so_far, (ascii("tree"@), value)) == Ok::<
            Gathered,
            CommitFault,
        >(Gathered { tree: Some(value), ..so_far }),
        so_far.parent is None ==> gather(so_far, (ascii("parent"@), value)) == Ok::<
            Gathered,
            CommitFault,
        >(Gathered { parent: Some(value), ..so_far }),
        so_far.author is None ==> gather(so_far, (ascii("author"@), value)) == Ok::<
            Gathered,
            CommitFault,
        >(Gathered { author: Some(value), ..so_far }),
        so_far.committer is None ==> gather(so_far, (ascii("committer"@), value)) == Ok::<
            Gathered,
            CommitFault,
        >(Gathered { committer: Some(value), ..so_far }),
        so_far.tree is Some ==> gather(so_far, (ascii("tree"@), value)) is Err,
        so_far.parent is Some ==> gather(so_far, (ascii("parent"@), value)) is Err,
        so_far.author is Some ==> gather(so_far, (ascii("author"@), value)) is Err,
        so_far.committer is Some ==> gather(so_far, (ascii("committer"@), value)) is Err,
        gather(so_far, (name, value)) matches Ok(more) ==> {
            &&& so_far.tree is Some ==> more.tree == so_far.tree
            &&& so_far.parent is Some ==> more.parent == so_far.parent
            &&& so_far.author is Some ==> more.author == so_far.author
            &&& so_far.committer is Some ==> more.committer == so_far.committer
        },
{
    lemma_names_differ();
}

proof fn lemma_name_of(a: Seq<char>, b: Seq<char>)
    requires
        a != b,
    ensures
        ascii(a) != ascii(b),
{
    if ascii(a) == ascii(b) {
        crate::text::lemma_utf8_injective(a, b);
    }
}

proof fn lemma_names_differ()
    ensures
        ({
            let names = seq![
                "tree"@,
                "parent"@,
                "author"@,
                "committer"@,
                "encoding"@,
                "gpgsig"@,
                "gpgsig-sha256"@,
            ];
            forall|i: int, j: int|
                0 <= i < j < names.len() ==> ascii(#[trigger] names[i]) != ascii(
                    #[trigger] names[j],
                )
        }),
        ascii("tree"@) != ascii("parent"@) && ascii("tree"@) != ascii("author"@) && ascii("tree"@)
            != ascii("committer"@) && ascii("tree"@) != ascii("encoding"@) && ascii("tree"@)
            != ascii("gpgsig"@) && ascii("tree"@) != ascii("gpgsig-sha256"@),
        ascii("parent"@) != ascii("author"@) && ascii("parent"@) != ascii("committer"@)
            && ascii("parent"@) != ascii("encoding"@) && ascii("parent"@) != ascii("gpgsig"@)
            && ascii("parent"@) != ascii("gpgsig-sha256"@),
        ascii("author"@) != ascii("committer"@) && ascii("author"@) != ascii("encoding"@)
            && ascii("author"@) != ascii("gpgsig"@) && ascii("author"@) != ascii("gpgsig-sha256"@),
        ascii("committer"@) != ascii("encoding"@) && ascii("committer"@) != ascii("gpgsig"@)
            && ascii("committer"@) != ascii("gpgsig-sha256"@),
{
    reveal_strlit("tree");
    reveal_strlit("parent");
    reveal_strlit("author");
    reveal_strlit("committer");
    reveal_strlit("encoding");
    reveal_strlit("gpgsig");
    reveal_strlit("gpgsig-sha256");
    let names = seq![
        "tree"@,
        "parent"@,
        "author"@,
        "committer"@,
        "encoding"@,
        "gpgsig"@,
        "gpgsig-sha256"@,
    ];
    assert("tree"@.len() == 4 && "parent"@.len() == 6 && "author"@.len() == 6);
    assert("committer"@.len() == 9 && "encoding"@.len() == 8 && "gpgsig"@.len() == 6);
    assert("gpgsig-sha256"@.len() == 13);
    assert("parent"@[0] == 'p' && "author"@[0] == 'a' && "gpgsig"@[0] == 'g');
    assert forall|i: int, j: int| 0 <= i < j < names.len() implies ascii(#[trigger] names[i])
        != ascii(#[trigger] names[j]) by {
        assert(names[i].len() != names[j].len() || names[i][0] != names[j][0]);
        lemma_name_of(names[i], names[j]);
    }
    assert(names[0] == "tree"@ && names[1] == "parent"@ && names[2] == "author"@);
    assert(names[3] == "committer"@ && names[4] == "encoding"@ && names[5] == "gpgsig"@);
    assert(names[6] == "gpgsig-sha256"@);
}

/// A commit has a tree, a parent, an author and a committer, each from its own header, and
/// the message as it stands; without one of them it is none.
pub proof fn law_commits_have_all_their_parts(headers: Gathered, message: Seq<u8>)
    ensures
        commit_from(headers, message) is Ok <==> headers.tree is Some && headers.parent is Some
            && headers.author is Some && headers.committer is Some,
        commit_from(headers, message) matches Ok(commit) ==> {
            &&& Some(commit.tree) == headers.tree
            &&& Some(commit.parent) == headers.parent
            &&& Some(commit.author) == headers.author
            &&& Some(commit.committer) == headers.committer
            &&& commit.encoding == headers.encoding
            &&& commit.message == message
        },
{
}

/// The message of a commit is all that follows the first blank line.
pub proof fn law_messages_follow_the_first_blank_line(raw: Seq<u8>, i: int)
    requires
        first_place(raw, blank_line(), i),
    ensures
        commit_of(raw) == commit_of_parts(raw.take(i), raw.skip(i + 2)),
        commit_of(raw) matches Ok(commit) ==> commit.message == raw.skip(i + 2),
{
    assert(occurs_at(raw, blank_line(), i));
    let at = choose|at: int| first_place(raw, blank_line(), at);
    assert(first_place(raw, blank_line(), at));
    if at < i {
        assert(!occurs_at(raw, blank_line(), at));
    } else if i < at {
        assert(!occurs_at(raw, blank_line(), i));
    }
}

/// A commit that is written anew ends with its message, and begins with its new tree.
pub proof fn law_rewritten_commits_keep_the_message(
    commit: CommitView,
    tree: Seq<char>,
    parent: Seq<char>,
)
    ensures
        ({
            let bytes = rewritten(commit, tree, parent);
            let first = ascii("tree "@) + encode_utf8(tree);
            &&& bytes.skip(bytes.len() - commit.message.len()) == commit.message
            &&& bytes.len() >= first.len() && bytes.take(first.len() as int) == first
        }),
{
    let bytes = rewritten(commit, tree, parent);
    let first = ascii("tree "@) + encode_utf8(tree);
    assert(bytes.skip(bytes.len() - commit.message.len()) =~= commit.message);
    assert(bytes.take(first.len() as int) =~= first);
}

/// A commit is signed at most once in each way, and a signature is no part of it.
pub proof fn law_signatures_are_left_out(so_far: Gathered, value: Seq<u8>, message: Seq<u8>)
    ensures
        so_far.signed ==> gather(so_far, (ascii("gpgsig"@), value)) is Err,
        !so_far.signed ==> (gather(so_far, (ascii("gpgsig"@), value)) matches Ok(more)
            && more.signed && commit_from(more, message) == commit_from(so_far, message)),
{
    lemma_names_differ();
    reveal_strlit("encoding");
    reveal_strlit("gpgsig");
    reveal_strlit("gpgsig-sha256");
    assert("encoding"@.len() == 8 && "gpgsig"@.len() == 6 && "gpgsig-sha256"@.len() == 13);
    lemma_name_of("encoding"@, "gpgsig"@);
    lemma_name_of("gpgsig"@, "gpgsig-sha256"@);
}

} // verus!
