//! A log is read back as it was written.

#[allow(unused_imports)]
use crate::durable_log::{
    ends_after, ends_from, frame_at, frames_from, log_read, rendered, FrameAt, LogFault,
    RenderedView,
};
#[allow(unused_imports)]
use crate::endian::{be_range, lemma_be_ranges};
#[allow(unused_imports)]
use crate::log_frame::LogFrame;
#[allow(unused_imports)]
use crate::log_writer::{
    has_its_number, index_of, law_the_index_leads_to_the_frame, lemma_index_record,
    lemma_offsets, lemma_same_frame, offsets, WriterView,
};
use vstd::prelude::*;

verus! {

/// The frames of a log from a position on, as they are shown.
pub open spec fn frames(log: Seq<u8>, at: int) -> Seq<RenderedView>
    decreases log.len() - at,
{
    match frame_at(log, at) {
        FrameAt::Frame { frame, start, end } => seq![rendered(frame, log.subrange(start, end))]
            + frames(log, end),
        _ => Seq::empty(),
    }
}

/// What is read of frames that are numbered from one on: those from a number on, up to a
/// limit.
pub open spec fn asked_for(all: Seq<RenderedView>, from: u64, limit: nat) -> Seq<RenderedView> {
    let rest = if from <= 1 {
        all
    } else if from - 1 >= all.len() {
        Seq::empty()
    } else {
        all.skip(from - 1)
    };
    at_most(rest, limit)
}

/// The first of some frames, up to a limit.
pub open spec fn at_most(all: Seq<RenderedView>, limit: nat) -> Seq<RenderedView> {
    if all.len() <= limit {
        all
    } else {
        all.take(limit as int)
    }
}

/// From a position on, the log consists of whole frames.
spec fn whole(log: Seq<u8>, at: int) -> bool
    decreases log.len() - at,
{
    match frame_at(log, at) {
        FrameAt::Frame { end, .. } => whole(log, end),
        FrameAt::End => log.len() == at,
        _ => false,
    }
}

/// From a position on, the frames are numbered from the number after `base` on.
spec fn numbered_after(all: Seq<RenderedView>, base: int) -> bool {
    forall|k: int|
        0 <= k < all.len() ==> (#[trigger] all[k]).frame.broker_sequence == base + k + 1
}

proof fn lemma_whole(log: Seq<u8>, at: int, ends: (u64, u64))
    requires
        ends_from(log, at, ends) is Ok,
    ensures
        whole(log, at),
    decreases log.len() - at,
{
    if let FrameAt::Frame { frame, start, end } = frame_at(log, at) {
        lemma_whole(log, end, ends_after(ends, frame));
    }
}

/// The frames stand where the frames begin.
proof fn lemma_frames(log: Seq<u8>, at: int, k: int)
    requires
        0 <= at <= log.len(),
        whole(log, at),
        0 <= k < offsets(log, at).len(),
    ensures
        frames(log, at).len() == offsets(log, at).len(),
        frames(log, offsets(log, at)[k]) == frames(log, at).skip(k),
        whole(log, offsets(log, at)[k]),
        frame_at(log, offsets(log, at)[k]) is Frame,
        frames(log, at)[k].frame == frame_at(log, offsets(log, at)[k])->frame,
    decreases log.len() - at,
{
    let end = frame_at(log, at)->end;
    assert(frames(log, at).skip(0) =~= frames(log, at));
    lemma_same_frame(log, Seq::empty(), at);
    if offsets(log, end).len() > 0 {
        let next = if k > 0 {
            k - 1
        } else {
            0
        };
        lemma_frames(log, end, next);
        if k > 0 {
            assert(frames(log, at).skip(k) =~= frames(log, end).skip(k - 1));
        }
    } else {
        lemma_no_frames(log, end);
    }
}

proof fn lemma_no_frames(log: Seq<u8>, at: int)
    requires
        offsets(log, at).len() == 0,
    ensures
        frames(log, at).len() == 0,
{
}

/// Frames that are all asked for are read until the limit is reached.
proof fn lemma_all_read(
    log: Seq<u8>,
    at: int,
    from: u64,
    limit: nat,
    found: Seq<RenderedView>,
    base: int,
)
    requires
        whole(log, at),
        found.len() <= limit,
        numbered_after(frames(log, at), base),
        from <= base + 1,
    ensures
        frames_from(log, at, from, limit, found) == Ok::<Seq<RenderedView>, LogFault>(
            found + at_most(frames(log, at), (limit - found.len()) as nat),
        ),
    decreases log.len() - at,
{
    let all = frames(log, at);
    match frame_at(log, at) {
        FrameAt::Frame { frame, start, end } => {
            let first = rendered(frame, log.subrange(start, end));
            let rest = frames(log, end);
            assert(all =~= seq![first] + rest);
            assert(all[0].frame.broker_sequence == base + 1);
            if found.len() < limit {
                let more = found.push(first);
                assert forall|k: int| 0 <= k < rest.len() implies (#[trigger] rest[k]).frame.broker_sequence
                    == base + 1 + k + 1 by {
                    assert(all[k + 1] == rest[k]);
                }
                if more.len() < limit {
                    lemma_all_read(log, end, from, limit, more, base + 1);
                }
                assert(more + at_most(rest, (limit - more.len()) as nat) =~= found + at_most(
                    all,
                    (limit - found.len()) as nat,
                ));
            } else {
                assert(found + at_most(all, 0) =~= found);
            }
        },
        _ => {
            assert(found + at_most(all, (limit - found.len()) as nat) =~= found);
        },
    }
}

/// Frames that are not asked for are passed over.
proof fn lemma_some_read(log: Seq<u8>, at: int, from: u64, limit: nat, base: int)
    requires
        whole(log, at),
        numbered_after(frames(log, at), base),
        0 <= base,
    ensures
        frames_from(log, at, from, limit, Seq::empty()) == Ok::<Seq<RenderedView>, LogFault>(
            at_most(
                if from <= base + 1 {
                    frames(log, at)
                } else if from - base - 1 >= frames(log, at).len() {
                    Seq::empty()
                } else {
                    frames(log, at).skip(from - base - 1)
                },
                limit,
            ),
        ),
    decreases log.len() - at,
{
    let all = frames(log, at);
    let none = Seq::<RenderedView>::empty();
    if from <= base + 1 {
        lemma_all_read(log, at, from, limit, none, base);
        assert(none + at_most(all, limit) =~= at_most(all, limit));
    } else {
        match frame_at(log, at) {
            FrameAt::Frame { frame, start, end } => {
                let rest = frames(log, end);
                assert(all[0].frame.broker_sequence == base + 1);
                assert forall|k: int| 0 <= k < rest.len() implies (#[trigger] rest[k]).frame.broker_sequence
                    == base + 1 + k + 1 by {
                    assert(all[k + 1] == rest[k]);
                }
                if limit > 0 {
                    lemma_some_read(log, end, from, limit, base + 1);
                    if from - base - 1 < all.len() {
                        assert(all.skip(from - base - 1) =~= rest.skip(from - base - 2));
                        assert(rest.skip(0) =~= rest);
                    }
                } else {
                    assert(all.skip(from - base - 1).take(0) =~= none);
                }
            },
            _ => {},
        }
    }
}

/// Reading a log gives the frames that were written, from the number asked for on and up to
/// a limit, whether or not there is an index.
pub proof fn law_a_log_is_read_back(
    writer: WriterView,
    index: Option<Seq<u8>>,
    from: u64,
    limit: nat,
)
    requires
        writer.wf(),
        index is None || index == Some(index_of(writer.log)),
    ensures
        log_read(writer.log, index, from, limit) == Ok::<Seq<RenderedView>, LogFault>(
            asked_for(frames(writer.log, 0), from, limit),
        ),
{
    let log = writer.log;
    let all = frames(log, 0);
    lemma_whole(log, 0, (0, 0));
    if offsets(log, 0).len() == 0 {
        lemma_no_frames(log, 0);
    } else {
        lemma_frames(log, 0, 0);
    }
    assert forall|k: int| 0 <= k < all.len() implies (#[trigger] all[k]).frame.broker_sequence == k
        + 1 by {
        lemma_frames(log, 0, k);
        assert(has_its_number(log, k));
    }
    assert(numbered_after(all, 0));
    if index is None || from == 0 {
        lemma_some_read(log, 0, from, limit, 0);
    } else {
        if 1 <= writer.broker_sequence {
            law_the_index_leads_to_the_frame(writer, 1);
        }
        if from <= writer.broker_sequence {
            let places = offsets(log, 0);
            law_the_index_leads_to_the_frame(writer, from);
            assert forall|j: int| 0 <= j < places.len() implies 0 <= #[trigger] places[j]
                < be_range(8) by {
                lemma_offsets(log, 0, j);
                lemma_be_ranges();
            }
            lemma_be_ranges();
            lemma_index_record(places, from - 1);
            lemma_frames(log, 0, from - 1);
            let rest = all.skip(from - 1);
            assert forall|k: int| 0 <= k < rest.len() implies (#[trigger] rest[k]).frame.broker_sequence
                == from - 1 + k + 1 by {
                assert(all[from - 1 + k] == rest[k]);
            }
            let none = Seq::<RenderedView>::empty();
            lemma_all_read(log, places[from - 1], from, limit, none, from - 1);
            assert(none + at_most(rest, limit) =~= at_most(rest, limit));
            assert(all.skip(0) =~= all);
        }
    }
}

/// A frame that is written after a log comes after its frames, with the output that it was
/// written with; what stood in the log before stays as it was.
pub proof fn law_output_is_added_at_the_end(
    writer: WriterView,
    record: Seq<u8>,
    frame: LogFrame,
    start: int,
)
    requires
        writer.wf(),
        frame_at(writer.log + record, writer.log.len() as int) == (FrameAt::Frame {
            frame,
            start,
            end: (writer.log + record).len() as int,
        }),
    ensures
        frames(writer.log + record, 0) == frames(writer.log, 0).push(
            rendered(
                frame,
                (writer.log + record).subrange(start, (writer.log + record).len() as int),
            ),
        ),
{
    lemma_whole(writer.log, 0, (0, 0));
    lemma_added(writer.log, record, 0);
}

proof fn lemma_added(log: Seq<u8>, record: Seq<u8>, at: int)
    requires
        0 <= at <= log.len(),
        whole(log, at),
        frame_at(log + record, log.len() as int) is Frame,
        frame_at(log + record, log.len() as int)->end == (log + record).len(),
    ensures
        ({
            let added = frame_at(log + record, log.len() as int);
            frames(log + record, at) == frames(log, at).push(
                rendered(added->frame, (log + record).subrange(added->start, added->end)),
            )
        }),
    decreases log.len() - at,
{
    let both = log + record;
    match frame_at(log, at) {
        FrameAt::Frame { frame, start, end } => {
            lemma_same_frame(log, record, at);
            lemma_added(log, record, end);
            assert(both.subrange(start, end) =~= log.subrange(start, end));
            assert(frames(both, at) =~= frames(log, at).push(
                frames(both, end).last(),
            ));
        },
        _ => {
            assert(at == log.len());
            assert(frame_at(both, both.len() as int) is End);
            assert(frames(both, both.len() as int) =~= Seq::empty());
            assert(frames(both, at) =~= frames(log, at).push(
                rendered(
                    frame_at(both, at)->frame,
                    both.subrange(frame_at(both, at)->start, frame_at(both, at)->end),
                ),
            ));
        },
    }
}

} // verus!
