//! Writing the log of a step.

use crate::durable_log::MAX_LOG_PAYLOAD;
#[allow(unused_imports)]
use crate::durable_log::{
    ends_after, ends_from, frame_at, header_of, index_record_at, log_verified, FrameAt, LogFault,
    INDEX_RECORD, MAX_LOG_HEADER,
};
use crate::endian::to_be;
#[allow(unused_imports)]
use crate::endian::{
    be_bytes, be_range, be_value, lemma_be_bytes_len, lemma_be_ranges, lemma_be_round_trip,
};
use crate::log_frame::{LogFrame, WallTime};
#[allow(unused_imports)]
use crate::log_frame::{frame_readable, frame_reads, lemma_frame_unique};
use crate::outside::{finish_hasher, new_hasher, update_hasher};
#[allow(unused_imports)]
use crate::outside::{blake3_hex, hashed, json_written};
use crate::runner::{LogStream, SealedLog};
use crate::text::push_bytes;
use vstd::prelude::*;

verus! {

/// The path of the index of a log.
pub fn log_index_path(path: &str) -> (r: String)
    ensures
        r@ == path@ + ".idx"@,
{
    path.to_owned().concat(".idx")
}

/// The writer of a log.
pub struct DurableLogWriter {
    file_offset: u64,
    stdout_offset: u64,
    stderr_offset: u64,
    broker_sequence: u64,
    hasher: blake3::Hasher,
}

/// How far a log has been written: all its bytes, the ends of its streams, and the
/// number of the last frame.
pub struct WriterView {
    pub log: Seq<u8>,
    pub file_offset: u64,
    pub stdout_offset: u64,
    pub stderr_offset: u64,
    pub broker_sequence: u64,
}

impl View for DurableLogWriter {
    type V = WriterView;

    closed spec fn view(&self) -> WriterView {
        WriterView {
            log: hashed(self.hasher),
            file_offset: self.file_offset,
            stdout_offset: self.stdout_offset,
            stderr_offset: self.stderr_offset,
            broker_sequence: self.broker_sequence,
        }
    }
}

/// Where the frames of a log begin, from a position on.
pub open spec fn offsets(log: Seq<u8>, at: int) -> Seq<int>
    decreases log.len() - at,
{
    match frame_at(log, at) {
        FrameAt::Frame { end, .. } => seq![at] + offsets(log, end),
        _ => Seq::empty(),
    }
}

/// The index of frames that begin at these places.
pub open spec fn index_from(places: Seq<int>) -> Seq<u8>
    decreases places.len(),
{
    if places.len() == 0 {
        Seq::empty()
    } else {
        index_from(places.drop_last()) + be_bytes(places.len(), 8) + be_bytes(
            places.last() as nat,
            8,
        )
    }
}

/// The index of a log.
pub open spec fn index_of(log: Seq<u8>) -> Seq<u8> {
    index_from(offsets(log, 0))
}

/// Frame `k` of the log, counted from zero, has the number `k + 1`.
pub open spec fn has_its_number(log: Seq<u8>, k: int) -> bool {
    frame_at(log, offsets(log, 0)[k]) matches FrameAt::Frame { frame, .. }
        && frame.broker_sequence == k + 1
}

/// The frames of the log are numbered from one on.
pub open spec fn numbered(log: Seq<u8>) -> bool {
    forall|k: int| 0 <= k < offsets(log, 0).len() ==> #[trigger] has_its_number(log, k)
}

impl WriterView {
    /// The log can be read: it consists of whole frames, numbered from one on, whose
    /// streams end where the writer says.
    pub open spec fn wf(self) -> bool {
        &&& self.file_offset == self.log.len()
        &&& ends_from(self.log, 0, (0, 0)) == Ok::<(u64, u64), LogFault>(
            (self.stdout_offset, self.stderr_offset),
        )
        &&& offsets(self.log, 0).len() == self.broker_sequence
        &&& numbered(self.log)
    }

    pub open spec fn stream_offset(self, stream: LogStream) -> u64 {
        match stream {
            LogStream::Stdout => self.stdout_offset,
            LogStream::Stderr => self.stderr_offset,
        }
    }
}

/// What is written for a piece of output: a record of the index, and a frame.
#[derive(Clone, Debug, PartialEq, Eq)]
pub struct AppendedFrame {
    pub frame: LogFrame,
    pub index_record: Vec<u8>,
    pub record: Vec<u8>,
}

/// A frame as bytes.
pub open spec fn frame_bytes(header: Seq<u8>, payload: Seq<u8>) -> Seq<u8> {
    be_bytes(header.len(), 4) + header + payload
}

pub proof fn lemma_same_frame(log: Seq<u8>, more: Seq<u8>, at: int)
    requires
        0 <= at,
        frame_at(log, at) is Frame,
    ensures
        frame_at(log + more, at) == frame_at(log, at),
        at + 4 <= frame_at(log, at)->end <= log.len(),
{
    let all = log + more;
    assert(all.subrange(at, at + 4) =~= log.subrange(at, at + 4));
    let n = be_value(log.subrange(at, at + 4));
    assert(all.subrange(at + 4, at + 4 + n) =~= log.subrange(at + 4, at + 4 + n));
}

/// A frame put after a log stands there.
proof fn lemma_new_frame(log: Seq<u8>, frame: LogFrame, header: Seq<u8>, payload: Seq<u8>)
    requires
        header.len() <= MAX_LOG_HEADER,
        header_of(header) == Some(frame),
        payload.len() == frame.payload_len <= MAX_LOG_PAYLOAD,
    ensures
        frame_at(log + frame_bytes(header, payload), log.len() as int) == (FrameAt::Frame {
            frame,
            start: (log.len() + 4 + header.len()) as int,
            end: (log + frame_bytes(header, payload)).len() as int,
        }),
        (log + frame_bytes(header, payload)).subrange(
            (log.len() + 4 + header.len()) as int,
            (log + frame_bytes(header, payload)).len() as int,
        ) == payload,
{
    let record = frame_bytes(header, payload);
    let all = log + record;
    let at = log.len() as int;
    let n = header.len();
    lemma_be_bytes_len(n, 4);
    lemma_be_ranges();
    lemma_be_round_trip(n, 4);
    assert(all.subrange(at, at + 4) =~= be_bytes(n, 4));
    assert(all.subrange(at + 4, at + 4 + n) =~= header);
    assert(all.subrange(at + 4 + n, all.len() as int) =~= payload);
}

/// A frame put after a log comes last in it.
proof fn lemma_frame_comes_last(log: Seq<u8>, record: Seq<u8>, at: int, ends: (u64, u64))
    requires
        0 <= at <= log.len(),
        ends_from(log, at, ends) is Ok,
        frame_at(log + record, log.len() as int) is Frame,
        frame_at(log + record, log.len() as int)->end == (log + record).len(),
        ({
            let frame = frame_at(log + record, log.len() as int)->frame;
            frame.stream_offset + frame.payload_len <= u64::MAX
        }),
    ensures
        ends_from(log + record, at, ends) == Ok::<(u64, u64), LogFault>(
            ends_after(
                ends_from(log, at, ends)->Ok_0,
                frame_at(log + record, log.len() as int)->frame,
            ),
        ),
        offsets(log + record, at) == offsets(log, at).push(log.len() as int),
    decreases log.len() - at,
{
    let all = log + record;
    if at == log.len() {
        assert(frame_at(log, at) is End);
        let end = all.len() as int;
        assert(frame_at(all, end) is End);
        assert(offsets(all, end) =~= Seq::empty());
        assert(offsets(all, at) =~= seq![at]);
        assert(offsets(log, at) =~= Seq::empty());
        let frame = frame_at(all, at)->frame;
        assert(ends_from(all, end, ends_after(ends, frame)) == Ok::<(u64, u64), LogFault>(
            ends_after(ends, frame),
        ));
    } else {
        lemma_same_frame(log, record, at);
        let frame = frame_at(log, at)->frame;
        let end = frame_at(log, at)->end;
        lemma_frame_comes_last(log, record, end, ends_after(ends, frame));
        assert(seq![at] + offsets(log, end).push(log.len() as int) =~= (seq![at] + offsets(
            log,
            end,
        )).push(log.len() as int));
    }
}

/// Where the frames of a log begin, frames stand.
pub proof fn lemma_offsets(log: Seq<u8>, at: int, k: int)
    requires
        0 <= at <= log.len(),
        0 <= k < offsets(log, at).len(),
    ensures
        at <= offsets(log, at)[k] < log.len(),
        frame_at(log, offsets(log, at)[k]) is Frame,
    decreases log.len() - at,
{
    assert(frame_at(log, at) is Frame);
    lemma_same_frame(log, Seq::empty(), at);
    let end = frame_at(log, at)->end;
    if k > 0 {
        assert(offsets(log, at)[k] == offsets(log, end)[k - 1]);
        lemma_offsets(log, end, k - 1);
    }
}

impl DurableLogWriter {
    /// The writer of a log that holds nothing yet.
    pub fn create() -> (r: DurableLogWriter)
        ensures
            r@ == (WriterView {
                log: Seq::empty(),
                file_offset: 0,
                stdout_offset: 0,
                stderr_offset: 0,
                broker_sequence: 0,
            }),
            r@.wf(),
    {
        let writer = DurableLogWriter {
            file_offset: 0,
            stdout_offset: 0,
            stderr_offset: 0,
            broker_sequence: 0,
            hasher: new_hasher(),
        };
        proof {
            assert(frame_at(writer@.log, 0) is End);
            assert(offsets(writer@.log, 0) =~= Seq::empty());
        }
        writer
    }

    /// Adds a piece of output. What is to be written to the log and its index comes back.
    pub fn append(
        &mut self,
        stream: LogStream,
        payload: &[u8],
        monotonic_ns: u64,
        wall_time: WallTime,
    ) -> (r: AppendedFrame)
        requires
            wall_time.wf(),
            payload@.len() <= u32::MAX,
            old(self)@.broker_sequence < u64::MAX,
            old(self)@.stream_offset(stream) + payload@.len() <= u64::MAX,
        ensures
            r.frame == (LogFrame {
                stream,
                stream_offset: old(self)@.stream_offset(stream),
                broker_sequence: (old(self)@.broker_sequence + 1) as u64,
                monotonic_ns,
                wall_time,
                payload_len: payload@.len() as u32,
            }),
            r.record@ == frame_bytes(json_written(r.frame.tree()), payload@),
            r.index_record@ == be_bytes(r.frame.broker_sequence as nat, 8) + be_bytes(
                old(self)@.file_offset as nat,
                8,
            ),
            final(self)@.log == old(self)@.log + r.record@,
            final(self)@.broker_sequence == r.frame.broker_sequence,
            final(self)@.stream_offset(stream) == old(self)@.stream_offset(stream) + payload@.len(),
            stream == LogStream::Stdout ==> final(self)@.stderr_offset == old(
                self,
            )@.stderr_offset,
            stream == LogStream::Stderr ==> final(self)@.stdout_offset == old(
                self,
            )@.stdout_offset,
            old(self)@.wf() && payload@.len() <= MAX_LOG_PAYLOAD && old(self)@.log.len()
                + r.record@.len() <= u64::MAX ==> {
                &&& final(self)@.wf()
                &&& index_of(final(self)@.log) == index_of(old(self)@.log) + r.index_record@
                &&& frame_at(final(self)@.log, old(self)@.file_offset as int) matches FrameAt::Frame {
                    frame,
                    start,
                    end,
                } && frame == r.frame && end == final(self)@.log.len()
                    && final(self)@.log.subrange(start, end) == payload@
            },
    {
        let ghost before = self@;
        let offset: u64 = match stream {
            LogStream::Stdout => self.stdout_offset,
            LogStream::Stderr => self.stderr_offset,
        };
        self.broker_sequence = self.broker_sequence + 1;
        let frame = LogFrame {
            stream,
            stream_offset: offset,
            broker_sequence: self.broker_sequence,
            monotonic_ns,
            wall_time,
            payload_len: payload.len() as u32,
        };
        let header = frame.to_json();
        let mut index_record = to_be(frame.broker_sequence as u128, 8);
        let place = to_be(self.file_offset as u128, 8);
        push_bytes(&mut index_record, place.as_slice());
        let mut record = to_be(header.len() as u128, 4);
        push_bytes(&mut record, header.as_slice());
        push_bytes(&mut record, payload);
        let size: u64 = 4 + header.len() as u64 + payload.len() as u64;
        self.file_offset = self.file_offset.saturating_add(size);
        update_hasher(&mut self.hasher, record.as_slice());
        match stream {
            LogStream::Stdout => {
                self.stdout_offset = self.stdout_offset + payload.len() as u64;
            },
            LogStream::Stderr => {
                self.stderr_offset = self.stderr_offset + payload.len() as u64;
            },
        }
        proof {
            lemma_be_bytes_len(header@.len(), 4);
            assert(record@ =~= frame_bytes(header@, payload@));
            if before.wf() && payload@.len() <= MAX_LOG_PAYLOAD && before.log.len() + record@.len()
                <= u64::MAX {
                let tree = frame.tree();
                assert(frame_readable(tree));
                let other = choose|other: LogFrame| frame_reads(tree, other);
                lemma_frame_unique(tree, frame, other);
                lemma_new_frame(before.log, frame, header@, payload@);
                lemma_frame_comes_last(before.log, record@, 0, (0, 0));
                let log = self@.log;
                let old_places = offsets(before.log, 0);
                assert(offsets(log, 0) == old_places.push(before.log.len() as int));
                assert forall|k: int| 0 <= k < offsets(log, 0).len() implies
                    #[trigger] has_its_number(log, k) by {
                    if k < old_places.len() {
                        assert(has_its_number(before.log, k));
                        lemma_offsets(before.log, 0, k);
                        lemma_same_frame(before.log, record@, old_places[k]);
                        assert(offsets(log, 0)[k] == old_places[k]);
                    } else {
                        assert(offsets(log, 0)[k] == before.log.len());
                    }
                }
                assert(offsets(log, 0).drop_last() =~= old_places);
                assert(index_of(log) =~= index_of(before.log) + index_record@);
            }
        }
        AppendedFrame { frame, index_record, record }
    }

    /// Seals the log. What was written is verified by what the seal says.
    pub fn seal(self, path: &str) -> (r: SealedLog)
        ensures
            r.stdout_end == self@.stdout_offset,
            r.stderr_end == self@.stderr_offset,
            r.broker_sequence_end == self@.broker_sequence,
            r.hash@ == blake3_hex(self@.log),
            r.path@ == path@,
            self@.wf() ==> log_verified(self@.log, r.hash@, r.stdout_end, r.stderr_end)
                == Ok::<bool, LogFault>(true),
    {
        SealedLog {
            stdout_end: self.stdout_offset,
            stderr_end: self.stderr_offset,
            broker_sequence_end: self.broker_sequence,
            hash: finish_hasher(&self.hasher),
            path: path.to_owned(),
        }
    }
}

proof fn lemma_index_length(places: Seq<int>)
    ensures
        index_from(places).len() == 16 * places.len(),
    decreases places.len(),
{
    if places.len() > 0 {
        lemma_index_length(places.drop_last());
        lemma_be_bytes_len(places.len(), 8);
        lemma_be_bytes_len(places.last() as nat, 8);
    }
}

/// The record of frame `k`, counted from zero, stands in its place in the index.
pub proof fn lemma_index_record(places: Seq<int>, k: int)
    requires
        0 <= k < places.len() < be_range(8),
        forall|j: int| 0 <= j < places.len() ==> 0 <= #[trigger] places[j] < be_range(8),
    ensures
        index_record_at(index_from(places), k + 1) == ((k + 1) as nat, places[k] as nat),
    decreases places.len(),
{
    let rest = places.drop_last();
    let last = (places.len() - 1) as int;
    lemma_index_length(rest);
    lemma_index_length(places);
    let n = places.len();
    let place = places.last() as nat;
    lemma_be_bytes_len(n, 8);
    lemma_be_bytes_len(place, 8);
    let index = index_from(places);
    if k < last {
        assert forall|j: int| 0 <= j < rest.len() implies 0 <= #[trigger] rest[j] < be_range(8) by {
            assert(rest[j] == places[j]);
        }
        lemma_index_record(rest, k);
        let at = k * INDEX_RECORD;
        assert(index.subrange(at, at + 8) =~= index_from(rest).subrange(at, at + 8));
        assert(index.subrange(at + 8, at + 16) =~= index_from(rest).subrange(at + 8, at + 16));
    } else {
        let at = last * INDEX_RECORD;
        assert(places[last] == place);
        assert(0 <= places[last] < be_range(8));
        assert(index.subrange(at, at + 8) =~= be_bytes(n, 8));
        assert(index.subrange(at + 8, at + 16) =~= be_bytes(place, 8));
        lemma_be_round_trip(n, 8);
        lemma_be_round_trip(place, 8);
    }
}

/// The index of a log leads to the frame asked for: its record carries the number, and
/// the frame with that number begins where the record says.
pub proof fn law_the_index_leads_to_the_frame(writer: WriterView, number: u64)
    requires
        writer.wf(),
        1 <= number <= writer.broker_sequence,
    ensures
        index_of(writer.log).len() == 16 * writer.broker_sequence,
        index_record_at(index_of(writer.log), number as int).0 == number,
        index_record_at(index_of(writer.log), number as int).1 <= writer.log.len(),
        frame_at(
            writer.log,
            index_record_at(index_of(writer.log), number as int).1 as int,
        ) matches FrameAt::Frame { frame, .. } && frame.broker_sequence == number,
{
    let places = offsets(writer.log, 0);
    let k = number - 1;
    lemma_be_ranges();
    assert forall|j: int| 0 <= j < places.len() implies 0 <= #[trigger] places[j] < be_range(8) by {
        lemma_offsets(writer.log, 0, j);
    }
    lemma_index_length(places);
    lemma_index_record(places, k);
    lemma_offsets(writer.log, 0, k);
    assert(has_its_number(writer.log, k));
}

} // verus!
