//! What is read of a log, what a path amounts to, and what a line of output tells.

#[allow(unused_imports)]
use crate::cli_text::{
    approved, authority_text, at, finding, first_chars, item_status, pad_left, pad_right,
    queue_line, text_at, ItemSummary,
};
#[allow(unused_imports)]
use crate::config_rules::{path_fault, path_parts, pattern_escapes, plain_path};
#[allow(unused_imports)]
use crate::document::Tree;
#[allow(unused_imports)]
use crate::durable_log::{
    ends_after, ends_from, frame_at, frames_from, log_read, log_verified, reading_start, tail_start,
    FrameAt, LogFault, RenderedView,
};
#[allow(unused_imports)]
use crate::git_prefix::{
    asks_for_source, fits_as_it_is, linked, opening, PrefixAsk, PrefixPhase, PrefixView,
    SyntheticView,
};
#[allow(unused_imports)]
use crate::log_frame::LogFrame;
#[allow(unused_imports)]
use crate::oid::GitOidView;
#[allow(unused_imports)]
use crate::outside::blake3_hex;
#[allow(unused_imports)]
use crate::raw_commit::CommitView;
#[allow(unused_imports)]
use crate::runner::LogStream;
#[allow(unused_imports)]
use crate::scan::{contains_part, occurs_at};
#[allow(unused_imports)]
use crate::seqs::lemma_filter_members;
#[allow(unused_imports)]
use crate::state::QueueItemState;
#[allow(unused_imports)]
use crate::text::{decimal, join_texts, split_text};
use vstd::prelude::*;
#[allow(unused_imports)]
use vstd::utf8::encode_utf8;

verus! {

/// Reading gives frames from the number on that was asked for, no more of them than asked
/// for, behind what was found before.
pub proof fn law_frames_are_read_as_asked(
    bytes: Seq<u8>,
    at: int,
    from: u64,
    limit: nat,
    found: Seq<RenderedView>,
    k: int,
)
    requires
        0 <= at,
        found.len() <= limit,
    ensures
        frames_from(bytes, at, from, limit, found) matches Ok(all) ==> {
            &&& found.len() <= all.len() <= limit
            &&& all.take(found.len() as int) == found
            &&& found.len() <= k < all.len() ==> all[k].frame.broker_sequence >= from
        },
    decreases bytes.len() - at,
{
    assert(found.take(found.len() as int) =~= found);
    if let FrameAt::Frame { frame, start, end } = frame_at(bytes, at) {
        if frame.broker_sequence >= from && found.len() < limit {
            let next = crate::durable_log::rendered(frame, bytes.subrange(start, end));
            let more = found.push(next);
            assert(more.take(found.len() as int) =~= found);
            if more.len() < limit {
                law_frames_are_read_as_asked(bytes, end, from, limit, more, k);
                if let Ok(all) = frames_from(bytes, end, from, limit, more) {
                    assert(all.take(found.len() as int) =~= all.take(more.len() as int).take(
                        found.len() as int,
                    ));
                    if k == found.len() {
                        assert(all[k] == all.take(more.len() as int)[k]);
                    }
                }
            }
        } else if found.len() < limit {
            law_frames_are_read_as_asked(bytes, end, from, limit, found, k);
        }
    }
}

/// A log is read from its start if no number is asked for or there is no index; with an index,
/// from where that says, and not at all for a number beyond the last.
pub proof fn law_the_index_says_where_to_read(
    length: nat,
    index: Option<Seq<u8>>,
    from: u64,
)
    ensures
        from == 0 || index is None ==> reading_start(length, index, from) == Ok::<
            Option<int>,
            LogFault,
        >(Some(0int)),
        index matches Some(records) ==> from > 0 && records.len() % 16 == 0 && from > records.len()
            / 16 ==> reading_start(length, index, from) == Ok::<Option<int>, LogFault>(None),
        reading_start(length, index, from) matches Ok(Some(place)) ==> 0 <= place && (place
            <= length || place == 0),
{
}

/// The tail of a log holds as many frames as asked for, at least one, or all there are.
pub proof fn law_tails_hold_as_many_as_asked(frames: u64, count: u64)
    requires
        0 < frames,
        frames * 16 <= u64::MAX,
        0 < count,
    ensures
        tail_start(Some((frames * 16) as u64), count) matches Some(first) && 1 <= first <= frames
            && frames - first + 1 == if count <= frames {
            count as int
        } else {
            frames as int
        },
        tail_start(None, count) == Some(0nat),
        tail_start(Some(0u64), count) == Some(0nat),
{
    let length = (frames * 16) as u64;
    assert(length % 16 == 0 && length / 16 == frames);
}

/// Output moves the end of its own stream on, never back, and leaves the other where it is.
pub proof fn law_streams_end_apart(ends: (u64, u64), frame: LogFrame)
    requires
        frame.stream_offset + frame.payload_len <= u64::MAX,
    ensures
        ends_after(ends, frame).0 >= ends.0,
        ends_after(ends, frame).1 >= ends.1,
        frame.stream == LogStream::Stdout ==> ends_after(ends, frame).1 == ends.1 && ends_after(
            ends,
            frame,
        ).0 >= frame.stream_offset + frame.payload_len,
        frame.stream == LogStream::Stderr ==> ends_after(ends, frame).0 == ends.0 && ends_after(
            ends,
            frame,
        ).1 >= frame.stream_offset + frame.payload_len,
{
}

/// A log is the one that was sealed only for one digest and one pair of ends.
pub proof fn law_logs_are_sealed_once(
    bytes: Seq<u8>,
    hash: Seq<char>,
    stdout_end: u64,
    stderr_end: u64,
    other_hash: Seq<char>,
    other_stdout: u64,
    other_stderr: u64,
)
    requires
        log_verified(bytes, hash, stdout_end, stderr_end) == Ok::<bool, LogFault>(true),
    ensures
        hash == blake3_hex(bytes),
        ends_from(bytes, 0, (0, 0)) == Ok::<(u64, u64), LogFault>((stdout_end, stderr_end)),
        log_verified(bytes, other_hash, other_stdout, other_stderr) == Ok::<bool, LogFault>(
            hash == other_hash && stdout_end == other_stdout && stderr_end == other_stderr,
        ),
{
}

/// A chain begins at its base, each source is worked on in its turn, and the work is done
/// when there is none left.
pub proof fn law_sources_are_worked_on_in_turn(run: PrefixView)
    ensures
        run.commits.len() == 0 ==> run.tip() == run.base,
        run.commits.len() > 0 ==> run.tip() == run.commits.last().oid,
        run.commits.len() < run.sources.len() ==> asks_for_source(run) == PrefixAsk::ReadParents(
            run.sources[run.commits.len() as int],
        ),
        run.commits.len() >= run.sources.len() ==> asks_for_source(run) == PrefixAsk::Done,
        opening(run) is Finished <==> asks_for_source(run) is Done,
{
}

proof fn lemma_split_adds(a: Seq<char>, separator: char, b: Seq<char>)
    requires
        !b.contains(separator),
    ensures
        split_text(a + seq![separator] + b, separator) == split_text(a, separator).push(b),
    decreases b.len(),
{
    let whole = a + seq![separator] + b;
    if b.len() == 0 {
        assert(whole.drop_last() =~= a);
        assert(b =~= Seq::<char>::empty());
    } else {
        let rest = b.drop_last();
        if rest.contains(separator) {
            let j = choose|j: int| 0 <= j < rest.len() && rest[j] == separator;
            assert(b[j] == separator);
        }
        lemma_split_adds(a, separator, rest);
        assert(whole.drop_last() =~= a + seq![separator] + rest);
        let before = split_text(a, separator).push(rest);
        if b.last() == separator {
            assert(b[b.len() - 1] == separator);
        }
        assert(rest.push(b.last()) =~= b);
        assert(before.update(before.len() - 1, b) =~= split_text(a, separator).push(b));
    }
}

proof fn lemma_split_single(text: Seq<char>, separator: char)
    requires
        !text.contains(separator),
    ensures
        split_text(text, separator) == seq![text],
    decreases text.len(),
{
    if text.len() == 0 {
        assert(text =~= Seq::<char>::empty());
    } else {
        let rest = text.drop_last();
        if rest.contains(separator) {
            let j = choose|j: int| 0 <= j < rest.len() && rest[j] == separator;
            assert(text[j] == separator);
        }
        lemma_split_single(rest, separator);
        assert(text[text.len() - 1] == text.last());
        assert(rest.push(text.last()) =~= text);
        assert(seq![rest].update(0, text) =~= seq![text]);
    }
}

/// What was joined with a separator that none of the pieces holds is cut into the same pieces
/// again.
pub proof fn law_joined_pieces_come_apart(pieces: Seq<Seq<char>>, separator: char)
    requires
        pieces.len() > 0,
        forall|k: int| 0 <= k < pieces.len() ==> !(#[trigger] pieces[k]).contains(separator),
    ensures
        split_text(join_texts(pieces, seq![separator]), separator) == pieces,
    decreases pieces.len(),
{
    if pieces.len() == 1 {
        lemma_split_single(pieces[0], separator);
        assert(seq![pieces[0]] =~= pieces);
    } else {
        let rest = pieces.drop_last();
        assert forall|k: int| 0 <= k < rest.len() implies !(#[trigger] rest[k]).contains(
            separator,
        ) by {
            assert(rest[k] == pieces[k]);
        }
        law_joined_pieces_come_apart(rest, separator);
        assert(pieces[pieces.len() - 1] == pieces.last());
        lemma_split_adds(join_texts(rest, seq![separator]), separator, pieces.last());
        assert(rest.push(pieces.last()) =~= pieces);
    }
}

/// The plain form of a path names the same parts in the same order, has no part that is empty
/// or a dot, and is its own plain form.
pub proof fn law_plain_paths_name_the_same(path: Seq<char>)
    requires
        path_parts(path).len() > 0,
    ensures
        split_text(plain_path(path), '/') == path_parts(path),
        path_parts(plain_path(path)) == path_parts(path),
        plain_path(plain_path(path)) == plain_path(path),
{
    reveal_strlit("/");
    assert("/"@ =~= seq!['/']);
    let pieces = split_text(path, '/');
    let counts = |part: Seq<char>| part.len() > 0 && part != "."@;
    let parts = path_parts(path);
    lemma_filter_members(pieces, counts);
    assert forall|k: int| 0 <= k < parts.len() implies !(#[trigger] parts[k]).contains('/') by {
        assert(pieces.contains(parts[k]));
        let j = choose|j: int| 0 <= j < pieces.len() && pieces[j] == parts[k];
        crate::text_law::law_pieces_make_up_the_text(path, '/', j);
    }
    law_joined_pieces_come_apart(parts, '/');
    assert forall|k: int| 0 <= k < parts.len() implies counts(#[trigger] parts[k]) by {}
    crate::seqs::lemma_filter_all(parts, counts);
}

/// A path is refused exactly if it begins at the root or steps upwards, and a pattern also if
/// it holds a backslash.
pub proof fn law_paths_stay_in_the_repository(path: Seq<char>)
    ensures
        path_fault(path) is None <==> !(path.len() > 0 && path[0] == '/') && !path_parts(
            path,
        ).contains(".."@),
        pattern_escapes(path) <==> (path.len() > 0 && path[0] == '/') || split_text(
            path,
            '/',
        ).contains(".."@) || path.contains('\\'),
{
}

/// A text is filled up with spaces to its width, and never cut.
pub proof fn law_columns_are_filled_up(text: Seq<char>, width: nat)
    ensures
        pad_right(text, width).len() == if text.len() < width {
            width
        } else {
            text.len()
        },
        pad_left(text, width).len() == pad_right(text, width).len(),
        pad_right(text, width).take(text.len() as int) == text,
        pad_left(text, width).skip(pad_left(text, width).len() - text.len()) == text,
        forall|i: int|
            text.len() <= i < pad_right(text, width).len() ==> #[trigger] pad_right(text, width)[i]
                == ' ',
        first_chars(text, width).len() <= width,
        first_chars(text, width) == text.take(first_chars(text, width).len() as int),
{
    assert(pad_right(text, width).take(text.len() as int) =~= text);
    assert(pad_left(text, width).skip(pad_left(text, width).len() - text.len()) =~= text);
    assert(text.take(text.len() as int) =~= text);
}

proof fn lemma_inside(before: Seq<char>, part: Seq<char>, after: Seq<char>)
    ensures
        contains_part(before + part + after, part),
{
    let whole = before + part + after;
    assert(whole.subrange(before.len() as int, (before.len() + part.len()) as int) =~= part);
    assert(occurs_at(whole, part, before.len() as int));
}

proof fn lemma_inside_more(whole: Seq<char>, part: Seq<char>, before: Seq<char>, after: Seq<char>)
    requires
        contains_part(whole, part),
    ensures
        contains_part(before + whole + after, part),
{
    let i = choose|i: int| occurs_at(whole, part, i);
    let all = before + whole + after;
    assert(all.subrange(before.len() + i, before.len() + i + part.len()) =~= whole.subrange(
        i,
        i + part.len(),
    ));
    assert(occurs_at(all, part, before.len() + i));
}

/// A finding that is healthy is never followed by a way out, and one that is not is, if it
/// gives one.
pub proof fn law_findings_tell_the_way_out(tree: Tree)
    ensures
        ({
            let healthy = text_at(tree, "status"@, ""@) == "healthy"@;
            let action = text_at(tree, "recovery_action"@, ""@);
            &&& !healthy && at(tree, "recovery_action"@) is Text ==> contains_part(
                finding(tree),
                action,
            )
            &&& contains_part(finding(tree), text_at(tree, "detail"@, ""@))
        }),
{
    let healthy = text_at(tree, "status"@, ""@) == "healthy"@;
    let detail = text_at(tree, "detail"@, ""@);
    let action = text_at(tree, "recovery_action"@, ""@);
    let head = "  "@ + (if healthy {
        "✓"@
    } else {
        "!"@
    }) + " "@ + pad_right(text_at(tree, "name"@, "check"@), 28) + " "@;
    let none = Seq::<char>::empty();
    lemma_inside(head, detail, none);
    assert(head + detail + none =~= head + detail);
    if !healthy && at(tree, "recovery_action"@) is Text {
        let line = head + detail + "\n      recovery: "@;
        lemma_inside(line, action, none);
        assert(finding(tree) =~= line + action + none);
        let rest = "\n      recovery: "@ + action;
        lemma_inside_more(head + detail, detail, none, rest);
        assert(finding(tree) =~= none + (head + detail) + rest);
    } else {
        assert(finding(tree) =~= head + detail);
    }
}

/// Where an item is listed, it says whether its promotion is authorized, and its subject.
#[verifier::rlimit(60)]
pub proof fn law_lines_show_authority(number: nat, item: ItemSummary)
    ensures
        item.promotion_authorized ==> contains_part(queue_line(number, item), "authorized"@),
        !item.promotion_authorized ==> contains_part(queue_line(number, item), "candidate"@),
        contains_part(queue_line(number, item), item.subject@),
{
    let none = Seq::<char>::empty();
    let word = if item.promotion_authorized {
        "authorized"@
    } else {
        "candidate"@
    };
    let head = pad_left(decimal(number), 2) + "  "@ + pad_right(item.state.display_name(), 11)
        + "  "@;
    let shown = pad_right(word, 10);
    let line = queue_line(number, item);
    let first = head + shown;
    assert(line.take(first.len() as int) =~= first);
    let rest = line.skip(first.len() as int);
    assert(line =~= head + shown + rest);
    law_columns_are_filled_up(word, 10);
    lemma_inside(none, word, shown.skip(word.len() as int));
    assert(none + word + shown.skip(word.len() as int) =~= shown);
    lemma_inside_more(shown, word, head, rest);
    let upto = first + "  "@ + item.source_oid@.hex().take(10) + "  "@ + pad_right(
        match item.branch {
            Some(branch) => branch@,
            None => "detached"@,
        },
        10,
    ) + "  "@;
    let long = upto + item.subject@;
    assert(line.take(long.len() as int) =~= long);
    lemma_inside(upto, item.subject@, line.skip(long.len() as int));
    assert(line =~= upto + item.subject@ + line.skip(long.len() as int));
}

/// The status of an item says whether its promotion is authorized, whether it is certified,
/// and its subject.
#[verifier::rlimit(60)]
pub proof fn law_statuses_show_authority(item: ItemSummary)
    ensures
        item.promotion_authorized ==> contains_part(item_status(item), "promotion authorized"@),
        !item.promotion_authorized ==> contains_part(item_status(item), "validation only"@),
        contains_part(item_status(item), item.subject@),
        item.certified ==> contains_part(
            item_status(item),
            "promotion-grade certificate ready"@,
        ),
        !item.certified ==> contains_part(item_status(item), "not complete"@),
{
    let none = Seq::<char>::empty();
    let status = item_status(item);
    let said = if item.promotion_authorized {
        "promotion authorized"@
    } else {
        "validation only"@
    };
    let first = item.subject@ + "\n  state       "@ + item.state.name() + "\n  authority   "@;
    let long = first + said;
    assert(status.take(long.len() as int) =~= long);
    lemma_inside(first, said, status.skip(long.len() as int));
    assert(status =~= first + said + status.skip(long.len() as int));
    assert(status.take(item.subject@.len() as int) =~= item.subject@);
    lemma_inside(none, item.subject@, status.skip(item.subject@.len() as int));
    assert(status =~= none + item.subject@ + status.skip(item.subject@.len() as int));
    let grade = if item.certified {
        "promotion-grade certificate ready"@
    } else {
        "not complete"@
    };
    assert(status.skip(status.len() - grade.len()) =~= grade);
    let upto = status.take(status.len() - grade.len());
    lemma_inside(upto, grade, none);
    assert(status =~= upto + grade + none);
}

/// The small letter of a letter.
pub open spec fn small(c: char) -> char {
    if 'A' <= c <= 'Z' {
        (c as u8 + 32) as char
    } else {
        c
    }
}

/// A state is shown by its own name, in small letters.
pub proof fn law_states_are_shown_by_name(state: QueueItemState, i: int)
    requires
        0 <= i < state.name().len(),
    ensures
        state.display_name().len() == state.name().len(),
        state.display_name()[i] == small(state.name()[i]),
{
    reveal_strlit("Constructing");
    reveal_strlit("constructing");
    reveal_strlit("Queued");
    reveal_strlit("queued");
    reveal_strlit("Preparing");
    reveal_strlit("preparing");
    reveal_strlit("Running");
    reveal_strlit("running");
    reveal_strlit("Ready");
    reveal_strlit("ready");
    reveal_strlit("Promoting");
    reveal_strlit("promoting");
    reveal_strlit("PromotedLocalPushPending");
    reveal_strlit("promotedlocalpushpending");
    reveal_strlit("Promoted");
    reveal_strlit("promoted");
    reveal_strlit("ExternallyIntegrated");
    reveal_strlit("externallyintegrated");
    reveal_strlit("Failed");
    reveal_strlit("failed");
    reveal_strlit("MergeConflict");
    reveal_strlit("mergeconflict");
    reveal_strlit("DependencyFailed");
    reveal_strlit("dependencyfailed");
    reveal_strlit("Canceled");
    reveal_strlit("canceled");
    reveal_strlit("Superseded");
    reveal_strlit("superseded");
    reveal_strlit("InfrastructureExhausted");
    reveal_strlit("infrastructureexhausted");
    reveal_strlit("CheckPassed");
    reveal_strlit("checkpassed");
    reveal_strlit("CheckFailed");
    reveal_strlit("checkfailed");
}

/// An approval is told to cover as many candidates as it lists, and at least one.
pub proof fn law_approvals_tell_what_they_cover(tree: Tree)
    ensures
        at(tree, "authorized_item_ids"@) matches Tree::List(items) ==> items.len() > 1
            ==> authority_text(tree) == decimal(items.len())
            + " candidates (including dependencies)"@,
        at(tree, "authorized_item_ids"@) matches Tree::List(items) ==> items.len() <= 1
            ==> authority_text(tree) == "1 candidate"@,
        !(at(tree, "authorized_item_ids"@) is List) ==> authority_text(tree) == "1 candidate"@,
{
}

/// A source commit is taken as it is only if it has both the tree and the parent that the chain
/// needs.
pub proof fn law_commits_fit_in_tree_and_parent(
    commit: CommitView,
    tree: GitOidView,
    tip: GitOidView,
)
    ensures
        fits_as_it_is(commit, tree, tip) ==> commit.tree == encode_utf8(tree.hex())
            && commit.parent == encode_utf8(tip.hex()),
        commit.tree == encode_utf8(tree.hex()) && commit.parent == encode_utf8(tip.hex())
            ==> fits_as_it_is(commit, tree, tip),
{
}

/// An approval tells that a validation was reused exactly if it was.
pub proof fn law_reuse_is_told(tree: Tree)
    ensures
        at(tree, "evidence_reused"@) == Tree::Bool(true) ==> contains_part(
            approved(tree),
            " (completed validation reused)"@,
        ),
        contains_part(approved(tree), text_at(tree, "item_id"@, "?"@)),
        at(tree, "evidence_reused"@) != Tree::Bool(true) ==> approved(tree).take(
            ("Approved "@ + text_at(tree, "item_id"@, "?"@) + "\n  authority  "@).len() as int,
        ) == "Approved "@ + text_at(tree, "item_id"@, "?"@) + "\n  authority  "@,
{
    let whole = approved(tree);
    let id = text_at(tree, "item_id"@, "?"@);
    let head = "Approved "@;
    let start = head + id;
    assert(whole.take(start.len() as int) =~= start);
    lemma_inside(head, id, whole.skip(start.len() as int));
    assert(whole =~= head + id + whole.skip(start.len() as int));
    if at(tree, "evidence_reused"@) == Tree::Bool(true) {
        let note = " (completed validation reused)"@;
        let long = start + note;
        assert(whole.take(long.len() as int) =~= long);
        lemma_inside(start, note, whole.skip(long.len() as int));
        assert(whole =~= start + note + whole.skip(long.len() as int));
    } else {
        reveal_strlit("");
        let next = start + "\n  authority  "@;
        assert(whole.take(next.len() as int) =~= next);
    }
}

/// In a chain each commit stands for its own source and follows the one before it, the first
/// one the base.
pub proof fn law_chains_follow_their_sources(
    base: GitOidView,
    sources: Seq<GitOidView>,
    commits: Seq<SyntheticView>,
    i: int,
)
    requires
        0 <= i < commits.len(),
    ensures
        linked(base, sources, commits, i) ==> commits[i].source == sources[i],
        linked(base, sources, commits, i) && i > 0 ==> commits[i].parent == commits[i - 1].oid,
        linked(base, sources, commits, 0) ==> commits[0].parent == base,
{
}

} // verus!
