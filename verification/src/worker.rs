//! A step worker: what it accepts, what it watches for, and what it reports in the end.

use crate::outside::encode_base64;
#[allow(unused_imports)]
use crate::outside::base64_bytes;
use crate::process_tree::{
    descendants_of, escape_message, memory_limit_message, ProcessIdentity, ProcessInstance,
};
#[allow(unused_imports)]
use crate::process_tree::{descends, escape_text, instances, listed, Instance, Listed};
use crate::runner::LogStream;
use crate::text::str_equal;
#[allow(unused_imports)]
use crate::text::decimal;
use crate::worker_input::WorkerInput;
use crate::worker_output::WorkerOutput;
use vstd::prelude::*;

verus! {

/// The report tells of output on a stream.
pub open spec fn tells_output(
    report: WorkerOutput,
    nonce: Seq<char>,
    stream: LogStream,
    payload: Seq<u8>,
) -> bool {
    report matches WorkerOutput::Log { nonce: given, stream: name, payload_base64 } && given@
        == nonce && name@ == stream.wire_name() && base64_bytes(payload_base64@) == Some(payload)
}

/// Why the first order to a worker is refused.
pub open spec fn spec_fault(expected: Seq<char>, order: WorkerInput) -> Option<Seq<char>> {
    match order {
        WorkerInput::Spec { nonce, argv, .. } => if nonce@ != expected || argv@.len() == 0 {
            Some("worker nonce mismatch or empty argv"@)
        } else {
            None
        },
        _ => Some("first worker frame must be spec"@),
    }
}

/// Accepts the first order to a worker, which says what to run.
pub fn accept_spec(expected_nonce: &str, order: &WorkerInput) -> (r: Result<(), String>)
    ensures
        r is Ok <==> spec_fault(expected_nonce@, *order) is None,
        r matches Err(reason) ==> spec_fault(expected_nonce@, *order) == Some(reason@),
{
    match order {
        WorkerInput::Spec {
            nonce,
            cwd: _,
            argv,
            environment: _,
            timeout_ms: _,
            termination_grace_ms: _,
            rss_limit_bytes: _,
        } => {
            if !str_equal(nonce.as_str(), expected_nonce) || argv.len() == 0 {
                Err("worker nonce mismatch or empty argv".to_owned())
            } else {
                Ok(())
            }
        },
        _ => Err("first worker frame must be spec".to_owned()),
    }
}

/// Accepts the second order to a worker, which says to start.
pub fn accept_start(nonce: &str, order: &WorkerInput) -> (r: Result<(), String>)
    ensures
        r is Ok <==> (*order matches WorkerInput::Start { nonce: tag } && tag@ == nonce@),
        r matches Err(reason) ==> reason@ == "invalid start gate frame"@,
{
    if let WorkerInput::Start { nonce: tag } = order {
        if str_equal(tag.as_str(), nonce) {
            return Ok(());
        }
    }
    Err("invalid start gate frame".to_owned())
}

/// A worker at work.
pub struct WorkerRun {
    nonce: String,
    child_pid: u32,
    session: u32,
    rss_limit: Option<u64>,
    timed_out: bool,
    canceled: bool,
    rss_exceeded: bool,
    escape: Option<u32>,
    root: Option<ProcessInstance>,
    observed: Vec<ProcessInstance>,
}

/// What a worker knows: the step's root process and session, what has happened to it,
/// the first process that left the session, and the processes that were seen to descend
/// from the root.
pub struct WorkerView {
    pub nonce: Seq<char>,
    pub child_pid: u32,
    pub session: u32,
    pub rss_limit: Option<u64>,
    pub timed_out: bool,
    pub canceled: bool,
    pub rss_exceeded: bool,
    pub escape: Option<u32>,
    pub root: Option<Instance>,
    pub observed: Seq<Instance>,
}

impl View for WorkerRun {
    type V = WorkerView;

    closed spec fn view(&self) -> WorkerView {
        WorkerView {
            nonce: self.nonce@,
            child_pid: self.child_pid,
            session: self.session,
            rss_limit: self.rss_limit,
            timed_out: self.timed_out,
            canceled: self.canceled,
            rss_exceeded: self.rss_exceeded,
            escape: self.escape,
            root: match self.root {
                Some(root) => Some(root@),
                None => None,
            },
            observed: instances(self.observed@),
        }
    }
}

/// The first listed process with the number.
pub open spec fn first_with(processes: Seq<Listed>, pid: u32) -> Option<Instance>
    decreases processes.len(),
{
    if processes.len() == 0 {
        None
    } else if processes[0].pid == pid {
        Some(processes[0].instance())
    } else {
        first_with(processes.drop_first(), pid)
    }
}

/// The root process, as it was first seen.
pub open spec fn root_seen(worker: WorkerView, processes: Seq<Listed>) -> Option<Instance> {
    match worker.root {
        Some(root) => Some(root),
        None => first_with(processes, worker.child_pid),
    }
}

/// The listed processes that descend from the root.
pub open spec fn family(worker: WorkerView, processes: Seq<Listed>) -> Seq<Listed> {
    match root_seen(worker, processes) {
        Some(root) => processes.filter(descends(root, processes, worker.observed.to_set())),
        None => Seq::empty(),
    }
}

/// What is known after a look at the processes.
pub open spec fn watched(worker: WorkerView, processes: Seq<Listed>) -> WorkerView {
    WorkerView {
        root: root_seen(worker, processes),
        observed: worker.observed + family(worker, processes).map_values(
            |process: Listed| process.instance(),
        ),
        ..worker
    }
}

/// A process with this session has left the session of the step. Of a process whose
/// session is not known, nothing is held against the step.
pub open spec fn has_left(session: Option<u32>, own: u32) -> bool {
    session matches Some(other) && other != own
}

/// The first of the processes that has left the session.
pub open spec fn first_left(
    pids: Seq<u32>,
    sessions: Seq<Option<u32>>,
    own: u32,
) -> Option<u32>
    decreases pids.len(),
{
    if pids.len() == 0 {
        None
    } else if has_left(sessions[0], own) {
        Some(pids[0])
    } else {
        first_left(pids.drop_first(), sessions.drop_first(), own)
    }
}

fn find_process(processes: &[ProcessIdentity], pid: u32) -> (r: Option<ProcessInstance>)
    ensures
        r is Some <==> first_with(listed(processes@), pid) is Some,
        r matches Some(instance) ==> first_with(listed(processes@), pid) == Some(instance@),
{
    let ghost all = listed(processes@);
    let mut i: usize = 0;
    assert(all.skip(0) =~= all);
    while i < processes.len()
        invariant
            i <= processes@.len(),
            all == listed(processes@),
            first_with(all, pid) == first_with(all.skip(i as int), pid),
        decreases processes@.len() - i,
    {
        proof {
            assert(all.skip(i as int)[0] == processes@[i as int]@);
            assert(all.skip(i as int).drop_first() =~= all.skip(i + 1));
        }
        if processes[i].pid == pid {
            return Some(processes[i].instance());
        }
        i += 1;
    }
    assert(all.skip(i as int) =~= Seq::empty());
    None
}

/// The step takes more memory than it may.
pub open spec fn takes_too_much(rss: Option<u64>, limit: Option<u64>) -> bool {
    match (rss, limit) {
        (Some(bytes), Some(limit)) => bytes > limit,
        _ => false,
    }
}

/// The order tells this worker to stop.
pub open spec fn stops(nonce: Seq<char>, order: Option<WorkerInput>) -> bool {
    order matches Some(WorkerInput::Terminate { nonce: tag }) && tag@ == nonce
}

impl WorkerRun {
    /// A worker whose child has just been started.
    pub fn new(nonce: &str, child_pid: u32, session: u32, rss_limit: Option<u64>) -> (r: WorkerRun)
        ensures
            r@ == (WorkerView {
                nonce: nonce@,
                child_pid,
                session,
                rss_limit,
                timed_out: false,
                canceled: false,
                rss_exceeded: false,
                escape: None,
                root: None,
                observed: Seq::empty(),
            }),
    {
        let worker = WorkerRun {
            nonce: nonce.to_owned(),
            child_pid,
            session,
            rss_limit,
            timed_out: false,
            canceled: false,
            rss_exceeded: false,
            escape: None,
            root: None,
            observed: Vec::new(),
        };
        assert(worker@.observed =~= Seq::empty());
        worker
    }

    /// The time of the step is up.
    pub fn deadline(&mut self)
        ensures
            final(self)@ == (WorkerView { timed_out: true, ..old(self)@ }),
    {
        self.timed_out = true;
    }

    /// The channel on which orders come is closed. The step ends with it.
    pub fn closed(&mut self)
        ensures
            final(self)@ == (WorkerView { canceled: true, ..old(self)@ }),
    {
        self.canceled = true;
    }

    /// A line came on the channel: an order, or something else. Whether the step is to
    /// be ended is the result.
    pub fn ordered(&mut self, order: &Option<WorkerInput>) -> (r: bool)
        ensures
            r == stops(old(self)@.nonce, *order),
            final(self)@ == (WorkerView { canceled: old(self)@.canceled || r, ..old(self)@ }),
    {
        if let Some(WorkerInput::Terminate { nonce }) = order {
            if str_equal(nonce.as_str(), self.nonce.as_str()) {
                self.canceled = true;
                return true;
            }
        }
        false
    }

    /// The memory of the step was measured. The step is ended if it takes more than it
    /// may; what is said of it then is the result.
    pub fn measured(&mut self, rss: Option<u64>) -> (r: Option<String>)
        ensures
            r is Some <==> takes_too_much(rss, old(self)@.rss_limit),
            r is Some <==> (rss matches Some(bytes) && (old(self)@.rss_limit matches Some(limit)
                && bytes > limit)),
            r matches Some(text) ==> text@
                == "Tollgate terminated this step because its process tree exceeded the configured RSS hard limit of "@
                + decimal(old(self)@.rss_limit->0 as nat) + " bytes.\n"@,
            final(self)@ == (WorkerView {
                rss_exceeded: old(self)@.rss_exceeded || r is Some,
                ..old(self)@
            }),
    {
        match (rss, self.rss_limit) {
            (Some(bytes), Some(limit)) => {
                if bytes > limit {
                    self.rss_exceeded = true;
                    Some(memory_limit_message(limit))
                } else {
                    None
                }
            },
            _ => None,
        }
    }

    /// The processes were listed. Those that descend from the root are the result, and
    /// are remembered.
    pub fn watch(&mut self, processes: &[ProcessIdentity]) -> (r: Vec<ProcessIdentity>)
        ensures
            final(self)@ == watched(old(self)@, listed(processes@)),
            listed(r@) == family(old(self)@, listed(processes@)),
    {
        let ghost all = listed(processes@);
        let ghost before = self@;
        if self.root.is_none() {
            self.root = find_process(processes, self.child_pid);
        }
        let found = match &self.root {
            Some(root) => descendants_of(root, processes, &self.observed),
            None => {
                let none: Vec<ProcessIdentity> = Vec::new();
                assert(listed(none@) =~= Seq::empty());
                none
            },
        };
        let ghost start = self.observed@;
        let ghost tail = family(before, all).map_values(|process: Listed| process.instance());
        let mut k: usize = 0;
        proof {
            assert(listed(found@) == family(before, all));
            assert(instances(self.observed@) =~= before.observed + tail.take(0));
        }
        while k < found.len()
            invariant
                k <= found@.len() == tail.len(),
                listed(found@) == family(before, all),
                tail == family(before, all).map_values(|process: Listed| process.instance()),
                self.nonce == old(self).nonce,
                self.child_pid == old(self).child_pid,
                self.session == old(self).session,
                self.rss_limit == old(self).rss_limit,
                self.timed_out == old(self).timed_out,
                self.canceled == old(self).canceled,
                self.rss_exceeded == old(self).rss_exceeded,
                self.escape == old(self).escape,
                self@.root == root_seen(before, all),
                instances(self.observed@) == before.observed + tail.take(k as int),
            decreases found@.len() - k,
        {
            let ghost held = self.observed@;
            self.observed.push(found[k].instance());
            proof {
                assert(listed(found@)[k as int] == found@[k as int]@);
                assert(instances(self.observed@) =~= instances(held).push(tail[k as int]));
                assert(tail.take(k + 1) =~= tail.take(k as int).push(tail[k as int]));
                assert(instances(self.observed@) =~= before.observed + tail.take(k + 1));
            }
            k += 1;
        }
        assert(tail.take(k as int) =~= tail);
        found
    }

    /// The sessions of processes of the step were looked up. The first that has left the
    /// session of the step is remembered; all that have are the result, by position.
    pub fn judge_sessions(&mut self, pids: &Vec<u32>, sessions: &Vec<Option<u32>>) -> (r: Vec<usize>)
        requires
            pids@.len() == sessions@.len(),
        ensures
            final(self)@ == (WorkerView {
                escape: match old(self)@.escape {
                    Some(pid) => Some(pid),
                    None => first_left(pids@, sessions@, old(self)@.session),
                },
                ..old(self)@
            }),
            forall|i: int|
                0 <= i < pids@.len() ==> (r@.contains(i as usize) <==> has_left(
                    #[trigger] sessions@[i],
                    old(self)@.session,
                )),
            forall|k: int| 0 <= k < r@.len() ==> #[trigger] r@[k] < pids@.len(),
    {
        let own: u32 = self.session;
        let mut left: Vec<usize> = Vec::new();
        let mut first: Option<u32> = None;
        let mut i: usize = 0;
        assert(pids@.skip(0) =~= pids@);
        assert(sessions@.skip(0) =~= sessions@);
        while i < pids.len()
            invariant
                i <= pids@.len() == sessions@.len(),
                first is None ==> first_left(pids@, sessions@, own) == first_left(
                    pids@.skip(i as int),
                    sessions@.skip(i as int),
                    own,
                ),
                first is Some ==> first == first_left(pids@, sessions@, own),
                forall|j: int|
                    0 <= j < i ==> (left@.contains(j as usize) <==> has_left(
                        #[trigger] sessions@[j],
                        own,
                    )),
                forall|k: int| 0 <= k < left@.len() ==> #[trigger] left@[k] < i,
            decreases pids@.len() - i,
        {
            proof {
                assert(pids@.skip(i as int)[0] == pids@[i as int]);
                assert(sessions@.skip(i as int)[0] == sessions@[i as int]);
                assert(pids@.skip(i as int).drop_first() =~= pids@.skip(i + 1));
                assert(sessions@.skip(i as int).drop_first() =~= sessions@.skip(i + 1));
            }
            let gone = match sessions[i] {
                Some(other) => other != own,
                None => false,
            };
            let ghost before = left@;
            if gone {
                if first.is_none() {
                    first = Some(pids[i]);
                }
                left.push(i);
            }
            proof {
                assert forall|j: int| 0 <= j < i + 1 implies (left@.contains(j as usize)
                    <==> has_left(#[trigger] sessions@[j], own)) by {
                    if gone && j == i {
                        assert(left@[before.len() as int] == i);
                    }
                    if before.contains(j as usize) {
                        let k = choose|k: int| 0 <= k < before.len() && before[k] == j as usize;
                        assert(left@[k] == j as usize);
                    }
                    if left@.contains(j as usize) && !before.contains(j as usize) {
                        let k = choose|k: int| 0 <= k < left@.len() && left@[k] == j as usize;
                        if k < before.len() {
                            assert(before[k] == j as usize);
                        }
                    }
                }
            }
            i += 1;
        }
        if self.escape.is_none() {
            self.escape = first;
        }
        left
    }

    /// What is said of the first process that left the session of the step.
    pub fn escape_report(&self) -> (r: Option<String>)
        ensures
            r is Some <==> self@.escape is Some,
            r matches Some(text) ==> text@ == escape_text(self@.escape->0),
    {
        match self.escape {
            Some(pid) => Some(escape_message(pid)),
            None => None,
        }
    }

    /// The report of output that the step has written.
    pub fn log_report(&self, stream: LogStream, payload: &[u8]) -> (r: WorkerOutput)
        ensures
            tells_output(r, self@.nonce, stream, payload@),
    {
        WorkerOutput::Log {
            nonce: self.nonce.as_str().to_owned(),
            stream: stream.as_str().to_owned(),
            payload_base64: encode_base64(payload),
        }
    }

    /// The last report of the worker.
    pub fn terminal(
        &self,
        exit_code: Option<i32>,
        signal: Option<i32>,
        pipes_eof: bool,
        process_group_reaped: bool,
    ) -> (r: WorkerOutput)
        ensures
            r matches WorkerOutput::Terminal {
                nonce,
                exit_code: code,
                signal: number,
                timed_out,
                canceled,
                pipes_eof: eof,
                process_group_reaped: reaped,
                rss_exceeded,
                containment_escaped,
                containment_diagnostic,
            } && {
                &&& nonce@ == self@.nonce
                &&& code == exit_code
                &&& number == signal
                &&& timed_out == self@.timed_out
                &&& canceled == self@.canceled
                &&& eof == pipes_eof
                &&& reaped == process_group_reaped
                &&& rss_exceeded == self@.rss_exceeded
                &&& containment_escaped == (self@.escape is Some)
                &&& containment_diagnostic is Some <==> self@.escape is Some
                &&& containment_diagnostic matches Some(text) ==> text@ == escape_text(
                    self@.escape->0,
                )
            },
    {
        WorkerOutput::Terminal {
            nonce: self.nonce.as_str().to_owned(),
            exit_code,
            signal,
            timed_out: self.timed_out,
            canceled: self.canceled,
            pipes_eof,
            process_group_reaped,
            rss_exceeded: self.rss_exceeded,
            containment_escaped: self.escape.is_some(),
            containment_diagnostic: self.escape_report(),
        }
    }
}

/// Processes that stay in the session of their step are no escape, whatever group they
/// form.
pub proof fn law_subgroups_are_no_escape(pids: Seq<u32>, sessions: Seq<Option<u32>>, own: u32)
    requires
        pids.len() == sessions.len(),
        forall|i: int|
            0 <= i < sessions.len() ==> (#[trigger] sessions[i] is None || sessions[i] == Some(own)),
    ensures
        first_left(pids, sessions, own) is None,
    decreases pids.len(),
{
    if pids.len() > 0 {
        assert(sessions[0] is None || sessions[0] == Some(own));
        let rest = sessions.drop_first();
        assert forall|i: int| 0 <= i < rest.len() implies (#[trigger] rest[i] is None || rest[i]
            == Some(own)) by {
            assert(rest[i] == sessions[i + 1]);
        }
        law_subgroups_are_no_escape(pids.drop_first(), rest, own);
    }
}

} // verus!
