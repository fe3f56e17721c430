//! The tables of steps, of their attempts and of the logs that these have left.

use crate::ids::{BuildsetId, StepAttemptId, StepId};
use crate::runner::LogStream;
#[allow(unused_imports)]
use crate::seqs::{lemma_filter_ends, lemma_filter_step};
#[allow(unused_imports)]
use crate::store::fits_sqlite;
use crate::store::{refused, to_sqlite, StoreError};
use crate::text::str_equal;
use vstd::prelude::*;

verus! {

/// An attempt at a step, and the log that it has left. The step and its result are JSON.
#[derive(Clone, Debug, PartialEq, Eq)]
pub struct StepAttemptRecord {
    pub step_id: StepId,
    pub attempt_id: StepAttemptId,
    pub name: String,
    pub frozen: String,
    pub retry_number: u16,
    pub result_class: String,
    pub result: String,
    pub stdout_end: u64,
    pub stderr_end: u64,
    pub broker_sequence_end: u64,
    pub log_hash: String,
    pub log_path: String,
}

/// A step of a build.
#[derive(Clone, Debug, PartialEq, Eq)]
pub struct StepRow {
    pub step_id: StepId,
    pub buildset_id: BuildsetId,
    pub name: String,
    pub frozen: String,
}

/// An attempt at a step.
#[derive(Clone, Debug, PartialEq, Eq)]
pub struct AttemptRow {
    pub attempt_id: StepAttemptId,
    pub step_id: StepId,
    pub retry_number: u16,
    pub result_class: String,
    pub result: String,
}

/// Where the bytes of a stream are.
#[derive(Clone, Debug, PartialEq, Eq)]
pub struct ChunkRow {
    pub end_offset: u64,
    pub broker_sequence_end: u64,
    pub hash: String,
    pub path: String,
}

/// One stream of the log of an attempt.
#[derive(Clone, Debug, PartialEq, Eq)]
pub struct StreamRow {
    pub attempt_id: StepAttemptId,
    pub stream: LogStream,
    pub retained_end: u64,
    pub hash: String,
    pub pruned: bool,
    pub chunk: Option<ChunkRow>,
}

/// What is known of a step.
#[verifier::ext_equal]
pub struct StepInfo {
    pub step_id: StepId,
    pub buildset_id: BuildsetId,
    pub name: Seq<char>,
    pub frozen: Seq<char>,
}

/// What is known of an attempt.
#[verifier::ext_equal]
pub struct AttemptInfo {
    pub attempt_id: StepAttemptId,
    pub step_id: StepId,
    pub retry_number: u16,
    pub result_class: Seq<char>,
    pub result: Seq<char>,
}

/// What is known of the bytes of a stream.
#[verifier::ext_equal]
pub struct ChunkInfo {
    pub end_offset: u64,
    pub broker_sequence_end: u64,
    pub hash: Seq<char>,
    pub path: Seq<char>,
}

/// What is known of a stream.
#[verifier::ext_equal]
pub struct StreamInfo {
    pub attempt_id: StepAttemptId,
    pub stream: LogStream,
    pub retained_end: u64,
    pub hash: Seq<char>,
    pub pruned: bool,
    pub chunk: Option<ChunkInfo>,
}

/// What is known of an attempt and its log.
#[verifier::ext_equal]
pub struct RecordInfo {
    pub step_id: StepId,
    pub attempt_id: StepAttemptId,
    pub name: Seq<char>,
    pub frozen: Seq<char>,
    pub retry_number: u16,
    pub result_class: Seq<char>,
    pub result: Seq<char>,
    pub stdout_end: u64,
    pub stderr_end: u64,
    pub broker_sequence_end: u64,
    pub log_hash: Seq<char>,
    pub log_path: Seq<char>,
}

impl View for StepAttemptRecord {
    type V = RecordInfo;

    open spec fn view(&self) -> RecordInfo {
        RecordInfo {
            step_id: self.step_id,
            attempt_id: self.attempt_id,
            name: self.name@,
            frozen: self.frozen@,
            retry_number: self.retry_number,
            result_class: self.result_class@,
            result: self.result@,
            stdout_end: self.stdout_end,
            stderr_end: self.stderr_end,
            broker_sequence_end: self.broker_sequence_end,
            log_hash: self.log_hash@,
            log_path: self.log_path@,
        }
    }
}

impl View for StepRow {
    type V = StepInfo;

    open spec fn view(&self) -> StepInfo {
        StepInfo {
            step_id: self.step_id,
            buildset_id: self.buildset_id,
            name: self.name@,
            frozen: self.frozen@,
        }
    }
}

impl View for AttemptRow {
    type V = AttemptInfo;

    open spec fn view(&self) -> AttemptInfo {
        AttemptInfo {
            attempt_id: self.attempt_id,
            step_id: self.step_id,
            retry_number: self.retry_number,
            result_class: self.result_class@,
            result: self.result@,
        }
    }
}

impl View for ChunkRow {
    type V = ChunkInfo;

    open spec fn view(&self) -> ChunkInfo {
        ChunkInfo {
            end_offset: self.end_offset,
            broker_sequence_end: self.broker_sequence_end,
            hash: self.hash@,
            path: self.path@,
        }
    }
}

impl View for StreamRow {
    type V = StreamInfo;

    open spec fn view(&self) -> StreamInfo {
        StreamInfo {
            attempt_id: self.attempt_id,
            stream: self.stream,
            retained_end: self.retained_end,
            hash: self.hash@,
            pruned: self.pruned,
            chunk: match self.chunk {
                Some(chunk) => Some(chunk@),
                None => None,
            },
        }
    }
}

/// What is known of the steps.
pub open spec fn step_infos(rows: Seq<StepRow>) -> Seq<StepInfo> {
    rows.map_values(|row: StepRow| row@)
}

/// What is known of the attempts.
pub open spec fn attempt_infos(rows: Seq<AttemptRow>) -> Seq<AttemptInfo> {
    rows.map_values(|row: AttemptRow| row@)
}

/// What is known of the streams.
pub open spec fn stream_infos(rows: Seq<StreamRow>) -> Seq<StreamInfo> {
    rows.map_values(|row: StreamRow| row@)
}

/// What is known of attempts and their logs.
pub open spec fn record_infos(rows: Seq<StepAttemptRecord>) -> Seq<RecordInfo> {
    rows.map_values(|row: StepAttemptRecord| row@)
}

/// What the tables of steps hold.
#[verifier::ext_equal]
pub struct Logbook {
    pub steps: Seq<StepInfo>,
    pub attempts: Seq<AttemptInfo>,
    pub streams: Seq<StreamInfo>,
}

/// The step makes room for one that has its number, or its name in the same build.
pub open spec fn makes_room(
    step: StepInfo,
    id: StepId,
    buildset: BuildsetId,
    name: Seq<char>,
) -> bool {
    step.step_id == id || (step.buildset_id == buildset && step.name == name)
}

/// A step that would have to make room has attempts of its own.
pub open spec fn is_held(
    book: Logbook,
    id: StepId,
    buildset: BuildsetId,
    name: Seq<char>,
) -> bool {
    exists|i: int, j: int|
        0 <= i < book.steps.len() && 0 <= j < book.attempts.len() && (
        #[trigger] book.steps[i]).step_id != id && makes_room(book.steps[i], id, buildset, name) && (
        #[trigger] book.attempts[j]).step_id == book.steps[i].step_id
}

/// Why an attempt cannot be recorded.
pub enum AttemptFault {
    Constraint,
    Offset,
    Sequence,
}

/// The error reports the fault.
pub open spec fn attempt_error(error: StoreError, fault: AttemptFault) -> bool {
    match fault {
        AttemptFault::Constraint => error is Sql,
        AttemptFault::Offset => error.broken("log offset exceeds SQLite INTEGER range"@),
        AttemptFault::Sequence => error.broken("broker sequence exceeds SQLite INTEGER range"@),
    }
}

/// What stands against keeping a stream of a log.
pub open spec fn stream_fault(retained_end: u64, broker_sequence_end: u64) -> Option<
    AttemptFault,
> {
    if !fits_sqlite(retained_end) {
        Some(AttemptFault::Offset)
    } else if retained_end > 0 && !fits_sqlite(broker_sequence_end) {
        Some(AttemptFault::Sequence)
    } else {
        None
    }
}

/// What stands against recording an attempt.
pub open spec fn attempt_fault(
    book: Logbook,
    buildset: BuildsetId,
    record: RecordInfo,
) -> Option<AttemptFault> {
    if is_held(book, record.step_id, buildset, record.name) {
        Some(AttemptFault::Constraint)
    } else {
        match stream_fault(record.stdout_end, record.broker_sequence_end) {
            Some(fault) => Some(fault),
            None => stream_fault(record.stderr_end, record.broker_sequence_end),
        }
    }
}

/// The stream that an attempt has left.
pub open spec fn left_stream(record: RecordInfo, stream: LogStream) -> StreamInfo {
    let retained_end = match stream {
        LogStream::Stdout => record.stdout_end,
        LogStream::Stderr => record.stderr_end,
    };
    StreamInfo {
        attempt_id: record.attempt_id,
        stream,
        retained_end,
        hash: record.log_hash,
        pruned: false,
        chunk: if retained_end > 0 {
            Some(
                ChunkInfo {
                    end_offset: retained_end,
                    broker_sequence_end: record.broker_sequence_end,
                    hash: record.log_hash,
                    path: record.log_path,
                },
            )
        } else {
            None
        },
    }
}

/// The tables after an attempt has been recorded.
pub open spec fn with_attempt(book: Logbook, buildset: BuildsetId, record: RecordInfo) -> Logbook {
    Logbook {
        steps: book.steps.filter(
            |step: StepInfo| !makes_room(step, record.step_id, buildset, record.name),
        ).push(
            StepInfo {
                step_id: record.step_id,
                buildset_id: buildset,
                name: record.name,
                frozen: record.frozen,
            },
        ),
        attempts: book.attempts.filter(
            |attempt: AttemptInfo| attempt.attempt_id != record.attempt_id,
        ).push(
            AttemptInfo {
                attempt_id: record.attempt_id,
                step_id: record.step_id,
                retry_number: record.retry_number,
                result_class: record.result_class,
                result: record.result,
            },
        ),
        streams: book.streams.push(left_stream(record, LogStream::Stdout)).push(
            left_stream(record, LogStream::Stderr),
        ),
    }
}

/// The tables after the first `n` attempts have been recorded, if nothing stands against
/// them.
pub open spec fn with_attempts(
    book: Logbook,
    buildset: BuildsetId,
    records: Seq<RecordInfo>,
    n: nat,
) -> Option<Logbook>
    decreases n,
{
    if n == 0 {
        Some(book)
    } else {
        match with_attempts(book, buildset, records, (n - 1) as nat) {
            Some(had) => if attempt_fault(had, buildset, records[n - 1]) is None {
                Some(with_attempt(had, buildset, records[n - 1]))
            } else {
                None
            },
            None => None,
        }
    }
}

/// The first attempt that cannot be recorded.
pub open spec fn refused_at(
    book: Logbook,
    buildset: BuildsetId,
    records: Seq<RecordInfo>,
    i: int,
) -> bool {
    &&& 0 <= i < records.len()
    &&& with_attempts(book, buildset, records, i as nat) matches Some(had) && attempt_fault(
        had,
        buildset,
        records[i],
    ) is Some
}

proof fn lemma_attempts_lost(
    book: Logbook,
    buildset: BuildsetId,
    records: Seq<RecordInfo>,
    n: nat,
    m: nat,
)
    requires
        n <= m,
        with_attempts(book, buildset, records, n) is None,
    ensures
        with_attempts(book, buildset, records, m) is None,
    decreases m,
{
    if n < m {
        lemma_attempts_lost(book, buildset, records, n, (m - 1) as nat);
    }
}

/// The attempt is at a step of the build.
pub open spec fn is_of_build(book: Logbook, attempt: AttemptInfo, buildset: BuildsetId) -> bool {
    exists|t: int|
        0 <= t < book.steps.len() && (#[trigger] book.steps[t]).step_id == attempt.step_id
            && book.steps[t].buildset_id == buildset
}

/// The stream is of an attempt at a step of the build.
pub open spec fn is_log_of_build(
    book: Logbook,
    stream: StreamInfo,
    buildset: BuildsetId,
) -> bool {
    exists|a: int|
        0 <= a < book.attempts.len() && (#[trigger] book.attempts[a]).attempt_id
            == stream.attempt_id && is_of_build(book, book.attempts[a], buildset)
}

/// The tables after the logs of a build have been pruned.
pub open spec fn logs_pruned(book: Logbook, buildset: BuildsetId) -> Logbook {
    Logbook {
        streams: book.streams.map_values(
            |stream: StreamInfo|
                if is_log_of_build(book, stream, buildset) {
                    StreamInfo { pruned: true, ..stream }
                } else {
                    stream
                },
        ),
        ..book
    }
}

/// The attempt is at the step of the build with that name.
pub open spec fn is_at_step(
    book: Logbook,
    attempt: AttemptInfo,
    buildset: BuildsetId,
    name: Seq<char>,
) -> bool {
    exists|t: int|
        0 <= t < book.steps.len() && (#[trigger] book.steps[t]).step_id == attempt.step_id
            && book.steps[t].buildset_id == buildset && book.steps[t].name == name
}

/// The stream is of the attempt, which is at the step of the build with that name.
pub open spec fn is_log_of_step(
    book: Logbook,
    buildset: BuildsetId,
    name: Seq<char>,
    s: int,
    a: int,
) -> bool {
    &&& 0 <= s < book.streams.len()
    &&& 0 <= a < book.attempts.len()
    &&& book.streams[s].attempt_id == book.attempts[a].attempt_id
    &&& is_at_step(book, book.attempts[a], buildset, name)
}

/// No attempt at the step that has left a log is later.
pub open spec fn is_latest_log(
    book: Logbook,
    buildset: BuildsetId,
    name: Seq<char>,
    s: int,
    a: int,
) -> bool {
    &&& is_log_of_step(book, buildset, name, s, a)
    &&& forall|t: int, b: int| #[trigger]
        is_log_of_step(book, buildset, name, t, b) ==> book.attempts[b].retry_number
            <= book.attempts[a].retry_number
}

/// The state of a stream.
pub open spec fn log_state(stream: StreamInfo) -> Seq<char> {
    if stream.pruned {
        "pruned"@
    } else {
        "sealed"@
    }
}

/// The tables of steps, attempts and logs.
#[derive(Clone, Debug, PartialEq, Eq)]
pub struct AttemptTable {
    pub steps: Vec<StepRow>,
    pub attempts: Vec<AttemptRow>,
    pub streams: Vec<StreamRow>,
}

impl View for AttemptTable {
    type V = Logbook;

    open spec fn view(&self) -> Logbook {
        Logbook {
            steps: step_infos(self.steps@),
            attempts: attempt_infos(self.attempts@),
            streams: stream_infos(self.streams@),
        }
    }
}

fn check_stream(retained_end: u64, broker_sequence_end: u64) -> (r: Result<(), StoreError>)
    ensures
        match stream_fault(retained_end, broker_sequence_end) {
            Some(fault) => r matches Err(error) && attempt_error(error, fault),
            None => r is Ok,
        },
{
    match to_sqlite(retained_end, "log offset exceeds SQLite INTEGER range") {
        Ok(_) => {},
        Err(error) => {
            return Err(error);
        },
    }
    if retained_end > 0 {
        match to_sqlite(broker_sequence_end, "broker sequence exceeds SQLite INTEGER range") {
            Ok(_) => {},
            Err(error) => {
                return Err(error);
            },
        }
    }
    Ok(())
}

fn stream_row(record: &StepAttemptRecord, stream: LogStream) -> (r: StreamRow)
    ensures
        r@ == left_stream(record@, stream),
{
    let retained_end: u64 = match stream {
        LogStream::Stdout => record.stdout_end,
        LogStream::Stderr => record.stderr_end,
    };
    let chunk: Option<ChunkRow> = if retained_end > 0 {
        Some(
            ChunkRow {
                end_offset: retained_end,
                broker_sequence_end: record.broker_sequence_end,
                hash: record.log_hash.as_str().to_owned(),
                path: record.log_path.as_str().to_owned(),
            },
        )
    } else {
        None
    };
    let row = StreamRow {
        attempt_id: record.attempt_id,
        stream,
        retained_end,
        hash: record.log_hash.as_str().to_owned(),
        pruned: false,
        chunk,
    };
    assert(row@ =~= left_stream(record@, stream));
    row
}

impl StepRow {
    fn duplicate(&self) -> (r: StepRow)
        ensures
            r@ == self@,
    {
        StepRow {
            step_id: self.step_id,
            buildset_id: self.buildset_id,
            name: self.name.as_str().to_owned(),
            frozen: self.frozen.as_str().to_owned(),
        }
    }
}

impl AttemptRow {
    fn duplicate(&self) -> (r: AttemptRow)
        ensures
            r@ == self@,
    {
        AttemptRow {
            attempt_id: self.attempt_id,
            step_id: self.step_id,
            retry_number: self.retry_number,
            result_class: self.result_class.as_str().to_owned(),
            result: self.result.as_str().to_owned(),
        }
    }
}

impl StreamRow {
    fn duplicate(&self) -> (r: StreamRow)
        ensures
            r@ == self@,
    {
        let chunk: Option<ChunkRow> = match &self.chunk {
            Some(chunk) => Some(
                ChunkRow {
                    end_offset: chunk.end_offset,
                    broker_sequence_end: chunk.broker_sequence_end,
                    hash: chunk.hash.as_str().to_owned(),
                    path: chunk.path.as_str().to_owned(),
                },
            ),
            None => None,
        };
        let row = StreamRow {
            attempt_id: self.attempt_id,
            stream: self.stream,
            retained_end: self.retained_end,
            hash: self.hash.as_str().to_owned(),
            pruned: self.pruned,
            chunk,
        };
        assert(row@ =~= self@);
        row
    }
}

impl AttemptTable {
    /// Empty tables.
    pub fn new() -> (r: AttemptTable)
        ensures
            r@ == (Logbook { steps: Seq::empty(), attempts: Seq::empty(), streams: Seq::empty() }),
    {
        let table = AttemptTable { steps: Vec::new(), attempts: Vec::new(), streams: Vec::new() };
        assert(table@.steps =~= Seq::empty());
        assert(table@.attempts =~= Seq::empty());
        assert(table@.streams =~= Seq::empty());
        table
    }

    fn has_attempt_at(&self, step: StepId) -> (r: bool)
        ensures
            r <==> exists|j: int|
                0 <= j < self@.attempts.len() && (#[trigger] self@.attempts[j]).step_id == step,
    {
        let mut i: usize = 0;
        while i < self.attempts.len()
            invariant
                i <= self.attempts@.len(),
                forall|j: int| 0 <= j < i ==> (#[trigger] self@.attempts[j]).step_id != step,
            decreases self.attempts@.len() - i,
        {
            assert(self@.attempts[i as int] == self.attempts@[i as int]@);
            if self.attempts[i].step_id.0 == step.0 {
                return true;
            }
            i += 1;
        }
        false
    }

    fn is_room_held(&self, id: StepId, buildset: BuildsetId, name: &str) -> (r: bool)
        ensures
            r == is_held(self@, id, buildset, name@),
    {
        let ghost book = self@;
        let mut i: usize = 0;
        while i < self.steps.len()
            invariant
                i <= self.steps@.len(),
                book == self@,
                forall|k: int, j: int|
                    0 <= k < i && 0 <= j < book.attempts.len() && (
                    #[trigger] book.steps[k]).step_id != id && makes_room(
                        book.steps[k],
                        id,
                        buildset,
                        name@,
                    ) ==> (#[trigger] book.attempts[j]).step_id != book.steps[k].step_id,
            decreases self.steps@.len() - i,
        {
            assert(book.steps[i as int] == self.steps@[i as int]@);
            let step = &self.steps[i];
            if step.step_id.0 != id.0 && step.buildset_id.0 == buildset.0 && str_equal(
                step.name.as_str(),
                name,
            ) && self.has_attempt_at(step.step_id) {
                proof {
                    let j = choose|j: int|
                        0 <= j < book.attempts.len() && (#[trigger] book.attempts[j]).step_id
                            == step.step_id;
                    assert(makes_room(book.steps[i as int], id, buildset, name@));
                    assert(book.attempts[j].step_id == book.steps[i as int].step_id);
                }
                return true;
            }
            i += 1;
        }
        false
    }

    /// The steps that need not make room.
    fn steps_beside(&self, id: StepId, buildset: BuildsetId, name: &str) -> (r: Vec<StepRow>)
        ensures
            step_infos(r@) == self@.steps.filter(
                |step: StepInfo| !makes_room(step, id, buildset, name@),
            ),
    {
        let ghost infos = self@.steps;
        let ghost stays = |step: StepInfo| !makes_room(step, id, buildset, name@);
        let mut kept: Vec<StepRow> = Vec::new();
        let mut i: usize = 0;
        proof {
            lemma_filter_ends(infos, stays);
            assert(step_infos(kept@) =~= infos.take(0).filter(stays));
        }
        while i < self.steps.len()
            invariant
                i <= self.steps@.len(),
                infos == self@.steps,
                stays == (|step: StepInfo| !makes_room(step, id, buildset, name@)),
                step_infos(kept@) == infos.take(i as int).filter(stays),
            decreases self.steps@.len() - i,
        {
            proof {
                lemma_filter_step(infos, stays, i as int);
                assert(infos[i as int] == self.steps@[i as int]@);
            }
            let step = &self.steps[i];
            if !(step.step_id.0 == id.0 || (step.buildset_id.0 == buildset.0 && str_equal(
                step.name.as_str(),
                name,
            ))) {
                let ghost had = step_infos(kept@);
                kept.push(step.duplicate());
                assert(step_infos(kept@) =~= had.push(infos[i as int]));
            }
            i += 1;
        }
        proof {
            lemma_filter_ends(infos, stays);
        }
        kept
    }

    /// The attempts but for one.
    fn attempts_beside(&self, id: StepAttemptId) -> (r: Vec<AttemptRow>)
        ensures
            attempt_infos(r@) == self@.attempts.filter(
                |attempt: AttemptInfo| attempt.attempt_id != id,
            ),
    {
        let ghost infos = self@.attempts;
        let ghost stays = |attempt: AttemptInfo| attempt.attempt_id != id;
        let mut kept: Vec<AttemptRow> = Vec::new();
        let mut i: usize = 0;
        proof {
            lemma_filter_ends(infos, stays);
            assert(attempt_infos(kept@) =~= infos.take(0).filter(stays));
        }
        while i < self.attempts.len()
            invariant
                i <= self.attempts@.len(),
                infos == self@.attempts,
                stays == (|attempt: AttemptInfo| attempt.attempt_id != id),
                attempt_infos(kept@) == infos.take(i as int).filter(stays),
            decreases self.attempts@.len() - i,
        {
            proof {
                lemma_filter_step(infos, stays, i as int);
                assert(infos[i as int] == self.attempts@[i as int]@);
            }
            if self.attempts[i].attempt_id.0 != id.0 {
                let ghost had = attempt_infos(kept@);
                kept.push(self.attempts[i].duplicate());
                assert(attempt_infos(kept@) =~= had.push(infos[i as int]));
            }
            i += 1;
        }
        proof {
            lemma_filter_ends(infos, stays);
        }
        kept
    }

    fn duplicate(&self) -> (r: AttemptTable)
        ensures
            r@ == self@,
    {
        let mut steps: Vec<StepRow> = Vec::new();
        let mut i: usize = 0;
        while i < self.steps.len()
            invariant
                i <= self.steps@.len(),
                steps@.len() == i,
                forall|j: int| 0 <= j < i ==> (#[trigger] steps@[j])@ == self.steps@[j]@,
            decreases self.steps@.len() - i,
        {
            steps.push(self.steps[i].duplicate());
            i += 1;
        }
        let mut attempts: Vec<AttemptRow> = Vec::new();
        let mut i: usize = 0;
        while i < self.attempts.len()
            invariant
                i <= self.attempts@.len(),
                attempts@.len() == i,
                forall|j: int| 0 <= j < i ==> (#[trigger] attempts@[j])@ == self.attempts@[j]@,
            decreases self.attempts@.len() - i,
        {
            attempts.push(self.attempts[i].duplicate());
            i += 1;
        }
        let mut streams: Vec<StreamRow> = Vec::new();
        let mut i: usize = 0;
        while i < self.streams.len()
            invariant
                i <= self.streams@.len(),
                streams@.len() == i,
                forall|j: int| 0 <= j < i ==> (#[trigger] streams@[j])@ == self.streams@[j]@,
            decreases self.streams@.len() - i,
        {
            streams.push(self.streams[i].duplicate());
            i += 1;
        }
        let table = AttemptTable { steps, attempts, streams };
        assert(table@.steps =~= self@.steps);
        assert(table@.attempts =~= self@.attempts);
        assert(table@.streams =~= self@.streams);
        table
    }

    /// Records an attempt, if nothing stands against it.
    fn record(&mut self, buildset: BuildsetId, record: &StepAttemptRecord) -> (r: Result<
        (),
        StoreError,
    >)
        ensures
            match attempt_fault(old(self)@, buildset, record@) {
                Some(fault) => r matches Err(error) && attempt_error(error, fault),
                None => r is Ok && final(self)@ == with_attempt(old(self)@, buildset, record@),
            },
    {
        let ghost had = self@;
        if self.is_room_held(record.step_id, buildset, record.name.as_str()) {
            return Err(refused("FOREIGN KEY constraint failed"));
        }
        match check_stream(record.stdout_end, record.broker_sequence_end) {
            Ok(()) => {},
            Err(error) => {
                return Err(error);
            },
        }
        match check_stream(record.stderr_end, record.broker_sequence_end) {
            Ok(()) => {},
            Err(error) => {
                return Err(error);
            },
        }
        let mut steps = self.steps_beside(record.step_id, buildset, record.name.as_str());
        let ghost beside = step_infos(steps@);
        steps.push(
            StepRow {
                step_id: record.step_id,
                buildset_id: buildset,
                name: record.name.as_str().to_owned(),
                frozen: record.frozen.as_str().to_owned(),
            },
        );
        let mut attempts = self.attempts_beside(record.attempt_id);
        let ghost others = attempt_infos(attempts@);
        attempts.push(
            AttemptRow {
                attempt_id: record.attempt_id,
                step_id: record.step_id,
                retry_number: record.retry_number,
                result_class: record.result_class.as_str().to_owned(),
                result: record.result.as_str().to_owned(),
            },
        );
        self.steps = steps;
        self.attempts = attempts;
        self.streams.push(stream_row(record, LogStream::Stdout));
        self.streams.push(stream_row(record, LogStream::Stderr));
        proof {
            let goal = with_attempt(had, buildset, record@);
            assert(self@.steps =~= beside.push(goal.steps.last()));
            assert(self@.steps =~= goal.steps);
            assert(self@.attempts =~= others.push(goal.attempts.last()));
            assert(self@.attempts =~= goal.attempts);
            assert(self@.streams =~= goal.streams);
        }
        Ok(())
    }

    /// Records the attempts at the steps of a build, all of them or none.
    pub fn record_step_attempts(
        &mut self,
        buildset: BuildsetId,
        records: &Vec<StepAttemptRecord>,
    ) -> (r: Result<(), StoreError>)
        ensures
            match with_attempts(old(self)@, buildset, record_infos(records@), records@.len()) {
                Some(after) => r is Ok && final(self)@ == after,
                None => r is Err && final(self)@ == old(self)@,
            },
            r matches Err(error) ==> exists|i: int| #[trigger]
                refused_at(old(self)@, buildset, record_infos(records@), i) && attempt_error(
                    error,
                    attempt_fault(
                        with_attempts(
                            old(self)@,
                            buildset,
                            record_infos(records@),
                            i as nat,
                        )->Some_0,
                        buildset,
                        record_infos(records@)[i],
                    )->Some_0,
                ),
    {
        let ghost start = self@;
        let ghost infos = record_infos(records@);
        let mut table = self.duplicate();
        let mut i: usize = 0;
        while i < records.len()
            invariant
                i <= records@.len(),
                start == old(self)@,
                self@ == start,
                infos == record_infos(records@),
                with_attempts(start, buildset, infos, i as nat) == Some(table@),
            decreases records@.len() - i,
        {
            let ghost n = (i + 1) as nat;
            assert((n - 1) as nat == i as nat);
            assert(infos[i as int] == records@[i as int]@);
            match table.record(buildset, &records[i]) {
                Ok(()) => {},
                Err(error) => {
                    proof {
                        assert(refused_at(start, buildset, infos, i as int));
                        lemma_attempts_lost(start, buildset, infos, n, infos.len());
                    }
                    return Err(error);
                },
            }
            i += 1;
        }
        self.steps = table.steps;
        self.attempts = table.attempts;
        self.streams = table.streams;
        Ok(())
    }

    fn has_step(&self, step: StepId, buildset: BuildsetId) -> (r: bool)
        ensures
            r <==> exists|t: int|
                0 <= t < self@.steps.len() && (#[trigger] self@.steps[t]).step_id == step
                    && self@.steps[t].buildset_id == buildset,
    {
        let mut i: usize = 0;
        while i < self.steps.len()
            invariant
                i <= self.steps@.len(),
                forall|t: int|
                    0 <= t < i ==> !((#[trigger] self@.steps[t]).step_id == step
                        && self@.steps[t].buildset_id == buildset),
            decreases self.steps@.len() - i,
        {
            assert(self@.steps[i as int] == self.steps@[i as int]@);
            if self.steps[i].step_id.0 == step.0 && self.steps[i].buildset_id.0 == buildset.0 {
                return true;
            }
            i += 1;
        }
        false
    }

    fn has_named_step(&self, step: StepId, buildset: BuildsetId, name: &str) -> (r: bool)
        ensures
            r <==> exists|t: int|
                0 <= t < self@.steps.len() && (#[trigger] self@.steps[t]).step_id == step
                    && self@.steps[t].buildset_id == buildset && self@.steps[t].name == name@,
    {
        let mut i: usize = 0;
        while i < self.steps.len()
            invariant
                i <= self.steps@.len(),
                forall|t: int|
                    0 <= t < i ==> !((#[trigger] self@.steps[t]).step_id == step
                        && self@.steps[t].buildset_id == buildset && self@.steps[t].name == name@),
            decreases self.steps@.len() - i,
        {
            assert(self@.steps[i as int] == self.steps@[i as int]@);
            if self.steps[i].step_id.0 == step.0 && self.steps[i].buildset_id.0 == buildset.0
                && str_equal(self.steps[i].name.as_str(), name) {
                return true;
            }
            i += 1;
        }
        false
    }

    fn is_log(&self, s: usize, buildset: BuildsetId) -> (r: bool)
        requires
            s < self.streams@.len(),
        ensures
            r == is_log_of_build(self@, self@.streams[s as int], buildset),
    {
        let ghost book = self@;
        assert(book.streams[s as int] == self.streams@[s as int]@);
        let mut a: usize = 0;
        while a < self.attempts.len()
            invariant
                a <= self.attempts@.len(),
                s < self.streams@.len(),
                book == self@,
                book.streams[s as int] == self.streams@[s as int]@,
                forall|b: int|
                    0 <= b < a ==> !((#[trigger] book.attempts[b]).attempt_id
                        == book.streams[s as int].attempt_id && is_of_build(
                        book,
                        book.attempts[b],
                        buildset,
                    )),
            decreases self.attempts@.len() - a,
        {
            assert(book.attempts[a as int] == self.attempts@[a as int]@);
            if self.attempts[a].attempt_id.0 == self.streams[s].attempt_id.0 && self.has_step(
                self.attempts[a].step_id,
                buildset,
            ) {
                assert(is_of_build(book, book.attempts[a as int], buildset));
                return true;
            }
            a += 1;
        }
        false
    }

    /// Marks the logs of a build as pruned.
    pub fn mark_buildset_logs_pruned(&mut self, buildset: BuildsetId)
        ensures
            final(self)@ == logs_pruned(old(self)@, buildset),
    {
        let ghost book = self@;
        let ghost goal = logs_pruned(book, buildset);
        let mut marks: Vec<bool> = Vec::new();
        let mut i: usize = 0;
        while i < self.streams.len()
            invariant
                i <= self.streams@.len(),
                book == self@,
                self@ == old(self)@,
                marks@.len() == i,
                forall|j: int|
                    0 <= j < i ==> #[trigger] marks@[j] == is_log_of_build(
                        book,
                        book.streams[j],
                        buildset,
                    ),
            decreases self.streams@.len() - i,
        {
            marks.push(self.is_log(i, buildset));
            i += 1;
        }
        let mut i: usize = 0;
        while i < self.streams.len()
            invariant
                i <= self.streams@.len(),
                self.streams@.len() == book.streams.len(),
                marks@.len() == book.streams.len(),
                book == old(self)@,
                goal == logs_pruned(book, buildset),
                step_infos(self.steps@) == book.steps,
                attempt_infos(self.attempts@) == book.attempts,
                forall|j: int|
                    0 <= j < marks@.len() ==> #[trigger] marks@[j] == is_log_of_build(
                        book,
                        book.streams[j],
                        buildset,
                    ),
                forall|j: int| 0 <= j < i ==> (#[trigger] self.streams@[j])@ == goal.streams[j],
                forall|j: int|
                    i <= j < book.streams.len() ==> (#[trigger] self.streams@[j])@
                        == book.streams[j],
            decreases self.streams@.len() - i,
        {
            assert(self.streams@[i as int]@ == book.streams[i as int]);
            if marks[i] {
                self.streams[i].pruned = true;
                assert(self.streams@[i as int]@ =~= StreamInfo {
                    pruned: true,
                    ..book.streams[i as int]
                });
            }
            assert(self.streams@[i as int]@ == goal.streams[i as int]);
            i += 1;
        }
        assert(self@.streams =~= goal.streams);
    }

    /// The state of the log that the last attempt at a step has left.
    pub fn step_log_state(&self, buildset: BuildsetId, name: &str) -> (r: Option<&'static str>)
        ensures
            match r {
                Some(state) => exists|s: int, a: int| #[trigger]
                    is_latest_log(self@, buildset, name@, s, a) && state@ == log_state(
                        self@.streams[s],
                    ),
                None => forall|s: int, a: int|
                    !(#[trigger] is_log_of_step(self@, buildset, name@, s, a)),
            },
    {
        let ghost book = self@;
        let mut best: Option<(usize, usize)> = None;
        let mut a: usize = 0;
        while a < self.attempts.len()
            invariant
                a <= self.attempts@.len(),
                book == self@,
                match best {
                    Some((s, b)) => b < a && is_log_of_step(
                        book,
                        buildset,
                        name@,
                        s as int,
                        b as int,
                    ) && forall|t: int, c: int|
                        c < a && #[trigger] is_log_of_step(book, buildset, name@, t, c)
                            ==> book.attempts[c].retry_number
                            <= book.attempts[b as int].retry_number,
                    None => forall|t: int, c: int|
                        c < a ==> !(#[trigger] is_log_of_step(book, buildset, name@, t, c)),
                },
            decreases self.attempts@.len() - a,
        {
            let ghost attempt = book.attempts[a as int];
            assert(attempt == self.attempts@[a as int]@);
            let ghost before = best;
            if self.has_named_step(self.attempts[a].step_id, buildset, name) {
                assert(is_at_step(book, attempt, buildset, name@));
                let mut found: Option<usize> = None;
                let mut s: usize = 0;
                while s < self.streams.len() && found.is_none()
                    invariant
                        s <= self.streams@.len(),
                        a < self.attempts@.len(),
                        book == self@,
                        attempt == book.attempts[a as int],
                        attempt == self.attempts@[a as int]@,
                        is_at_step(book, attempt, buildset, name@),
                        match found {
                            Some(t) => is_log_of_step(
                                book,
                                buildset,
                                name@,
                                t as int,
                                a as int,
                            ),
                            None => forall|t: int|
                                t < s ==> !(#[trigger] is_log_of_step(
                                    book,
                                    buildset,
                                    name@,
                                    t,
                                    a as int,
                                )),
                        },
                    decreases self.streams@.len() - s,
                {
                    assert(book.streams[s as int] == self.streams@[s as int]@);
                    if self.streams[s].attempt_id.0 == self.attempts[a].attempt_id.0 {
                        found = Some(s);
                    }
                    s += 1;
                }
                if let Some(s) = found {
                    let better = match best {
                        Some((_, b)) => {
                            assert(book.attempts[b as int] == self.attempts@[b as int]@);
                            self.attempts[b].retry_number < self.attempts[a].retry_number
                        },
                        None => true,
                    };
                    if better {
                        best = Some((s, a));
                    }
                }
            }
            a += 1;
        }
        match best {
            Some((s, b)) => {
                assert(is_latest_log(book, buildset, name@, s as int, b as int));
                assert(book.streams[s as int] == self.streams@[s as int]@);
                if self.streams[s].pruned {
                    Some("pruned")
                } else {
                    Some("sealed")
                }
            },
            None => None,
        }
    }
}

/// Once the logs of a build have been pruned, every log of its steps is told as pruned.
pub proof fn law_pruned_logs_are_told(book: Logbook, buildset: BuildsetId, name: Seq<char>)
    ensures
        forall|s: int, a: int| #[trigger]
            is_log_of_step(logs_pruned(book, buildset), buildset, name, s, a) ==> log_state(
                logs_pruned(book, buildset).streams[s],
            ) == "pruned"@,
{
    let after = logs_pruned(book, buildset);
    assert forall|s: int, a: int| #[trigger]
        is_log_of_step(after, buildset, name, s, a) implies log_state(after.streams[s])
        == "pruned"@ by {
        let attempt = book.attempts[a];
        let t = choose|t: int|
            0 <= t < after.steps.len() && (#[trigger] after.steps[t]).step_id == attempt.step_id
                && after.steps[t].buildset_id == buildset && after.steps[t].name == name;
        assert(book.steps[t].step_id == attempt.step_id);
        assert(is_of_build(book, book.attempts[a], buildset));
        assert(is_log_of_build(book, book.streams[s], buildset));
    }
}

} // verus!
