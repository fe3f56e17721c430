//! The log of a step: frames one after another, each a header and a piece of output, and
//! an index of where each frame begins.

#[allow(unused_imports)]
use crate::endian::be_value;
use crate::endian::read_be;
use crate::log_frame::LogFrame;
#[allow(unused_imports)]
use crate::log_frame::{frame_readable, frame_reads, lemma_frame_unique};
use crate::outside::{decode_text, hash_hex, json_document, lossy_text, parse_json};
#[allow(unused_imports)]
use crate::outside::{blake3_hex, json_parsed, lossy_text_of};
use crate::runner::{interrupted, LogStream, RunnerError};
use crate::text::{copy_range, str_equal};
use vstd::prelude::*;

verus! {

/// The greatest length of a header: 64 KiB.
pub const MAX_LOG_HEADER: usize = 65_536;

/// The greatest length of a piece of output that is read back: 1 MiB.
pub const MAX_LOG_PAYLOAD: u32 = 1_048_576;

/// The length of a record of the index.
pub const INDEX_RECORD: usize = 16;

/// What stands at a position of a log.
#[allow(inconsistent_fields)]
pub enum FrameAt {
    End,
    HeaderTooLong,
    HeaderCut,
    HeaderBad,
    PayloadTooLong,
    PayloadCut,
    Frame { frame: LogFrame, start: int, end: int },
}

/// The header that bytes hold.
pub open spec fn header_of(bytes: Seq<u8>) -> Option<LogFrame> {
    match json_parsed(bytes) {
        Some(tree) => if frame_readable(tree) {
            Some(choose|frame: LogFrame| frame_reads(tree, frame))
        } else {
            None
        },
        None => None,
    }
}

/// What stands at a position of a log: a header's length in four bytes, the header, and
/// as many bytes of output as the header says.
pub open spec fn frame_at(bytes: Seq<u8>, at: int) -> FrameAt {
    let left = bytes.len() - at;
    if left < 4 {
        FrameAt::End
    } else {
        let n = be_value(bytes.subrange(at, at + 4));
        if n > MAX_LOG_HEADER {
            FrameAt::HeaderTooLong
        } else if left < 4 + n {
            FrameAt::HeaderCut
        } else {
            match header_of(bytes.subrange(at + 4, at + 4 + n)) {
                None => FrameAt::HeaderBad,
                Some(frame) => if frame.payload_len > MAX_LOG_PAYLOAD {
                    FrameAt::PayloadTooLong
                } else if left < 4 + n + frame.payload_len {
                    FrameAt::PayloadCut
                } else {
                    FrameAt::Frame {
                        frame,
                        start: at + 4 + n,
                        end: at + 4 + n + frame.payload_len,
                    }
                },
            }
        }
    }
}

/// What is wrong with a log or its index.
pub enum LogFault {
    IndexMalformed,
    IndexInvalid,
    HeaderTooLong,
    HeaderBad,
    PayloadTooLong,
    EarlyEnd,
    LengthCut,
    HeaderCut,
    PayloadCut,
    OffsetOverflow,
}

/// The error reports the fault. The wording of a parser's complaint is left open.
pub open spec fn reports(error: RunnerError, fault: LogFault) -> bool {
    match fault {
        LogFault::IndexMalformed => error.interrupted_by("log seek index is malformed"@),
        LogFault::IndexInvalid => error.interrupted_by("log seek index failed validation"@),
        LogFault::HeaderTooLong => error.interrupted_by("log frame header exceeds 64 KiB"@),
        LogFault::HeaderBad => error is LogFrame,
        LogFault::PayloadTooLong => error.interrupted_by("log frame payload exceeds 1 MiB"@),
        LogFault::EarlyEnd => error matches RunnerError::Spawn(reason) && reason@ == "early eof"@,
        LogFault::LengthCut => error.interrupted_by("truncated log frame length"@),
        LogFault::HeaderCut => error.interrupted_by("truncated log frame header"@),
        LogFault::PayloadCut => error.interrupted_by("truncated log frame payload"@),
        LogFault::OffsetOverflow => error.interrupted_by("log stream offset overflow"@),
    }
}

/// A frame as it is shown: its output as text.
#[derive(Clone, Debug, PartialEq, Eq)]
pub struct RenderedLogFrame {
    pub frame: LogFrame,
    pub text: String,
    pub invalid_utf8: bool,
}

/// What a `RenderedLogFrame` shows.
pub struct RenderedView {
    pub frame: LogFrame,
    pub text: Seq<char>,
    pub invalid_utf8: bool,
}

impl View for RenderedLogFrame {
    type V = RenderedView;

    open spec fn view(&self) -> RenderedView {
        RenderedView { frame: self.frame, text: self.text@, invalid_utf8: self.invalid_utf8 }
    }
}

pub open spec fn rendered_views(items: Seq<RenderedLogFrame>) -> Seq<RenderedView> {
    items.map_values(|item: RenderedLogFrame| item@)
}

/// A frame as it is shown.
pub open spec fn rendered(frame: LogFrame, payload: Seq<u8>) -> RenderedView {
    RenderedView {
        frame,
        text: lossy_text_of(payload),
        invalid_utf8: !vstd::utf8::valid_utf8(payload),
    }
}

/// The frames from a position on whose number is at least `from`, after those already
/// found, up to a limit in all.
pub open spec fn frames_from(
    bytes: Seq<u8>,
    at: int,
    from: u64,
    limit: nat,
    found: Seq<RenderedView>,
) -> Result<Seq<RenderedView>, LogFault>
    decreases bytes.len() - at,
{
    match frame_at(bytes, at) {
        FrameAt::End => Ok(found),
        FrameAt::HeaderTooLong => Err(LogFault::HeaderTooLong),
        FrameAt::HeaderCut | FrameAt::PayloadCut => Err(LogFault::EarlyEnd),
        FrameAt::HeaderBad => Err(LogFault::HeaderBad),
        FrameAt::PayloadTooLong => Err(LogFault::PayloadTooLong),
        FrameAt::Frame { frame, start, end } => {
            let more = if frame.broker_sequence >= from && found.len() < limit {
                found.push(rendered(frame, bytes.subrange(start, end)))
            } else {
                found
            };
            if more.len() >= limit {
                Ok(more)
            } else {
                frames_from(bytes, end, from, limit, more)
            }
        },
    }
}

/// The record of the index for the frame with the given number.
pub open spec fn index_record_at(index: Seq<u8>, number: int) -> (nat, nat) {
    let at = (number - 1) * INDEX_RECORD;
    (
        be_value(index.subrange(at, at + 8)),
        be_value(index.subrange(at + 8, at + 16)),
    )
}

/// Where reading begins: at the place that the index gives, if there is one and a
/// number is asked for. `None` stands for a number beyond the last.
pub open spec fn reading_start(
    length: nat,
    index: Option<Seq<u8>>,
    from: u64,
) -> Result<Option<int>, LogFault> {
    match index {
        Some(index) if from > 0 => if index.len() % 16 != 0 {
            Err(LogFault::IndexMalformed)
        } else if from <= index.len() / 16 {
            let (number, offset) = index_record_at(index, from as int);
            if number != from || offset > length {
                Err(LogFault::IndexInvalid)
            } else {
                Ok(Some(offset as int))
            }
        } else {
            Ok(None)
        },
        _ => Ok(Some(0int)),
    }
}

/// What reading a log gives.
pub open spec fn log_read(
    bytes: Seq<u8>,
    index: Option<Seq<u8>>,
    from: u64,
    limit: nat,
) -> Result<Seq<RenderedView>, LogFault> {
    match reading_start(bytes.len(), index, from) {
        Err(fault) => Err(fault),
        Ok(None) => Ok(Seq::empty()),
        Ok(Some(at)) => frames_from(bytes, at, from, limit, Seq::empty()),
    }
}

/// The greater of two numbers.
pub open spec fn greater(a: u64, b: u64) -> u64 {
    if a >= b {
        a
    } else {
        b
    }
}

/// The ends of the two streams after a frame.
pub open spec fn ends_after(ends: (u64, u64), frame: LogFrame) -> (u64, u64) {
    let end = (frame.stream_offset + frame.payload_len) as u64;
    match frame.stream {
        LogStream::Stdout => (greater(ends.0, end), ends.1),
        LogStream::Stderr => (ends.0, greater(ends.1, end)),
    }
}

/// The ends of the two streams, as the frames from a position on have them.
pub open spec fn ends_from(bytes: Seq<u8>, at: int, ends: (u64, u64)) -> Result<
    (u64, u64),
    LogFault,
>
    decreases bytes.len() - at,
{
    match frame_at(bytes, at) {
        FrameAt::End => if bytes.len() - at == 0 {
            Ok(ends)
        } else {
            Err(LogFault::LengthCut)
        },
        FrameAt::HeaderTooLong => Err(LogFault::HeaderTooLong),
        FrameAt::HeaderCut => Err(LogFault::HeaderCut),
        FrameAt::HeaderBad => Err(LogFault::HeaderBad),
        FrameAt::PayloadTooLong => Err(LogFault::PayloadTooLong),
        FrameAt::PayloadCut => Err(LogFault::PayloadCut),
        FrameAt::Frame { frame, start, end } => if frame.stream_offset + frame.payload_len
            > u64::MAX {
            Err(LogFault::OffsetOverflow)
        } else {
            ends_from(bytes, end, ends_after(ends, frame))
        },
    }
}

/// Whether a log is the one that was sealed.
pub open spec fn log_verified(
    bytes: Seq<u8>,
    hash: Seq<char>,
    stdout_end: u64,
    stderr_end: u64,
) -> Result<bool, LogFault> {
    match ends_from(bytes, 0, (0, 0)) {
        Err(fault) => Err(fault),
        Ok(ends) => Ok(
            blake3_hex(bytes) == hash && ends.0 == stdout_end && ends.1 == stderr_end,
        ),
    }
}

/// What stands at a position of a log, found.
enum Found {
    End,
    HeaderTooLong,
    HeaderCut,
    HeaderBad(String),
    PayloadTooLong,
    PayloadCut,
    Frame { frame: LogFrame, start: usize, end: usize },
}

spec fn found_as(found: Found, at: FrameAt) -> bool {
    match found {
        Found::End => at is End,
        Found::HeaderTooLong => at is HeaderTooLong,
        Found::HeaderCut => at is HeaderCut,
        Found::HeaderBad(_) => at is HeaderBad,
        Found::PayloadTooLong => at is PayloadTooLong,
        Found::PayloadCut => at is PayloadCut,
        Found::Frame { frame, start, end } => at == (FrameAt::Frame {
            frame,
            start: start as int,
            end: end as int,
        }),
    }
}

/// Reads a header.
fn parse_header(bytes: &[u8]) -> (r: Result<LogFrame, String>)
    ensures
        r is Ok <==> header_of(bytes@) is Some,
        r matches Ok(frame) ==> header_of(bytes@) == Some(frame),
{
    match parse_json(bytes) {
        Ok(value) => {
            let document = json_document(value);
            match LogFrame::read(&document) {
                Some(frame) => {
                    proof {
                        let other = choose|other: LogFrame| frame_reads(document@, other);
                        lemma_frame_unique(document@, frame, other);
                    }
                    Ok(frame)
                },
                None => Err("unexpected shape".to_owned()),
            }
        },
        Err(reason) => Err(reason),
    }
}

fn find_frame(bytes: &[u8], at: usize) -> (r: Found)
    requires
        at <= bytes@.len(),
    ensures
        found_as(r, frame_at(bytes@, at as int)),
        r matches Found::Frame { start, end, .. } ==> at + 4 <= start <= end <= bytes@.len(),
{
    let total: usize = bytes.len();
    let left: usize = total - at;
    if left < 4 {
        return Found::End;
    }
    let n: u128 = read_be(bytes, at, 4);
    if n > MAX_LOG_HEADER as u128 {
        return Found::HeaderTooLong;
    }
    let n: usize = n as usize;
    if left - 4 < n {
        return Found::HeaderCut;
    }
    let header = copy_range(bytes, at + 4, at + 4 + n);
    match parse_header(header.as_slice()) {
        Err(reason) => Found::HeaderBad(reason),
        Ok(frame) => {
            if frame.payload_len > MAX_LOG_PAYLOAD {
                return Found::PayloadTooLong;
            }
            let size: usize = frame.payload_len as usize;
            if left - 4 - n < size {
                return Found::PayloadCut;
            }
            Found::Frame { frame, start: at + 4 + n, end: at + 4 + n + size }
        },
    }
}

fn too_long_header() -> (r: RunnerError)
    ensures
        reports(r, LogFault::HeaderTooLong),
{
    interrupted("log frame header exceeds 64 KiB")
}

fn too_long_payload() -> (r: RunnerError)
    ensures
        reports(r, LogFault::PayloadTooLong),
{
    interrupted("log frame payload exceeds 1 MiB")
}

/// Reads frames of a log whose number is at least `start_sequence`, up to a limit. With
/// an index, reading begins at the frame asked for.
pub fn read_durable_log(
    bytes: &[u8],
    index: Option<&[u8]>,
    start_sequence: u64,
    limit: usize,
) -> (r: Result<Vec<RenderedLogFrame>, RunnerError>)
    ensures
        r is Ok <==> log_read(
            bytes@,
            match index { Some(index) => Some(index@), None => None },
            start_sequence,
            limit as nat,
        ) is Ok,
        r matches Ok(frames) ==> log_read(
            bytes@,
            match index { Some(index) => Some(index@), None => None },
            start_sequence,
            limit as nat,
        ) == Ok::<Seq<RenderedView>, LogFault>(rendered_views(frames@)),
        r matches Err(error) ==> (log_read(
            bytes@,
            match index { Some(index) => Some(index@), None => None },
            start_sequence,
            limit as nat,
        ) matches Err(fault) && reports(error, fault)),
{
    let mut at: usize = 0;
    if let Some(index) = index {
        if start_sequence > 0 {
            let size: usize = index.len();
            if size % 16 != 0 {
                return Err(interrupted("log seek index is malformed"));
            }
            if start_sequence <= size as u64 / 16 {
                let place: usize = (start_sequence - 1) as usize * 16;
                let number: u128 = read_be(index, place, 8);
                let offset: u128 = read_be(index, place + 8, 8);
                if number != start_sequence as u128 || offset > bytes.len() as u128 {
                    return Err(interrupted("log seek index failed validation"));
                }
                at = offset as usize;
            } else {
                let none: Vec<RenderedLogFrame> = Vec::new();
                assert(rendered_views(none@) =~= Seq::empty());
                return Ok(none);
            }
        }
    }
    let ghost all = match index { Some(index) => Some(index@), None => None };
    let ghost from = at as int;
    let mut frames: Vec<RenderedLogFrame> = Vec::new();
    proof {
        assert(reading_start(bytes@.len(), all, start_sequence)
            == Ok::<Option<int>, LogFault>(Some(from)));
        assert(rendered_views(frames@) =~= Seq::empty());
    }
    loop
        invariant
            at <= bytes@.len(),
            all == match index { Some(index) => Some(index@), None => None },
            log_read(bytes@, all, start_sequence, limit as nat) == frames_from(
                bytes@,
                at as int,
                start_sequence,
                limit as nat,
                rendered_views(frames@),
            ),
        decreases bytes@.len() - at,
    {
        match find_frame(bytes, at) {
            Found::End => {
                return Ok(frames);
            },
            Found::HeaderTooLong => {
                return Err(too_long_header());
            },
            Found::HeaderCut => {
                return Err(RunnerError::Spawn("early eof".to_owned()));
            },
            Found::PayloadCut => {
                return Err(RunnerError::Spawn("early eof".to_owned()));
            },
            Found::HeaderBad(reason) => {
                return Err(RunnerError::LogFrame(reason));
            },
            Found::PayloadTooLong => {
                return Err(too_long_payload());
            },
            Found::Frame { frame, start, end } => {
                if frame.broker_sequence >= start_sequence && frames.len() < limit {
                    let payload = copy_range(bytes, start, end);
                    let ghost before = frames@;
                    let invalid_utf8 = decode_text(payload.as_slice()).is_err();
                    let text = lossy_text(payload.as_slice());
                    frames.push(RenderedLogFrame { frame, text, invalid_utf8 });
                    assert(rendered_views(frames@) =~= rendered_views(before).push(
                        rendered(frame, payload@),
                    ));
                }
                if frames.len() >= limit {
                    return Ok(frames);
                }
                at = end;
            },
        }
    }
}

/// The number of the frame with which the last frames of a log begin; 0 where there is
/// none. `index_length` is that of the index, if there is one.
pub open spec fn tail_start(index_length: Option<u64>, count: u64) -> Option<nat> {
    match index_length {
        None => Some(0),
        Some(length) => if length % 16 != 0 {
            None
        } else if length == 0 {
            Some(0)
        } else if count <= 1 {
            Some((length / 16) as nat)
        } else if count - 1 >= length / 16 {
            Some(1)
        } else {
            Some((length / 16 - (count - 1)) as nat)
        },
    }
}

/// The number of the frame with which the last frames of a log begin.
pub fn durable_log_tail_start(index_length: Option<u64>, frame_count: u64) -> (r: Result<
    u64,
    RunnerError,
>)
    ensures
        r is Ok <==> tail_start(index_length, frame_count) is Some,
        r matches Ok(number) ==> tail_start(index_length, frame_count) == Some(number as nat),
        r matches Err(error) ==> reports(error, LogFault::IndexMalformed),
{
    match index_length {
        None => Ok(0),
        Some(length) => {
            if length % 16 != 0 {
                return Err(interrupted("log seek index is malformed"));
            }
            let total: u64 = length / 16;
            if total == 0 {
                return Ok(0);
            }
            let start: u64 = total.saturating_sub(frame_count.saturating_sub(1));
            if start == 0 {
                Ok(1)
            } else {
                Ok(start)
            }
        },
    }
}

/// Whether a log is the one that was sealed.
pub fn verify_durable_log(
    bytes: &[u8],
    expected_hash: &str,
    expected_stdout_end: u64,
    expected_stderr_end: u64,
) -> (r: Result<bool, RunnerError>)
    ensures
        r is Ok <==> log_verified(
            bytes@,
            expected_hash@,
            expected_stdout_end,
            expected_stderr_end,
        ) is Ok,
        r matches Ok(verified) ==> log_verified(
            bytes@,
            expected_hash@,
            expected_stdout_end,
            expected_stderr_end,
        ) == Ok::<bool, LogFault>(verified),
        r matches Err(error) ==> (log_verified(
            bytes@,
            expected_hash@,
            expected_stdout_end,
            expected_stderr_end,
        ) matches Err(fault) && reports(error, fault)),
{
    let mut at: usize = 0;
    let mut stdout_end: u64 = 0;
    let mut stderr_end: u64 = 0;
    loop
        invariant
            at <= bytes@.len(),
            ends_from(bytes@, 0, (0, 0)) == ends_from(bytes@, at as int, (stdout_end, stderr_end)),
        decreases bytes@.len() - at,
    {
        match find_frame(bytes, at) {
            Found::End => {
                if at != bytes.len() {
                    return Err(interrupted("truncated log frame length"));
                }
                let same = str_equal(hash_hex(bytes).as_str(), expected_hash);
                return Ok(
                    same && stdout_end == expected_stdout_end && stderr_end == expected_stderr_end,
                );
            },
            Found::HeaderTooLong => {
                return Err(too_long_header());
            },
            Found::HeaderCut => {
                return Err(interrupted("truncated log frame header"));
            },
            Found::PayloadCut => {
                return Err(interrupted("truncated log frame payload"));
            },
            Found::HeaderBad(reason) => {
                return Err(RunnerError::LogFrame(reason));
            },
            Found::PayloadTooLong => {
                return Err(too_long_payload());
            },
            Found::Frame { frame, start: _, end } => {
                let stream_end: u64 = match frame.stream_offset.checked_add(
                    frame.payload_len as u64,
                ) {
                    Some(stream_end) => stream_end,
                    None => {
                        return Err(interrupted("log stream offset overflow"));
                    },
                };
                match frame.stream {
                    LogStream::Stdout => {
                        if stream_end > stdout_end {
                            stdout_end = stream_end;
                        }
                    },
                    LogStream::Stderr => {
                        if stream_end > stderr_end {
                            stderr_end = stream_end;
                        }
                    },
                }
                at = end;
            },
        }
    }
}

} // verus!
