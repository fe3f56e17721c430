//! Running one step: what the worker is told, how it is supervised, and how the end of
//! the step is judged.

use crate::config_model::{EffectiveCommand, EffectiveStep};
use crate::outside::{decode_base64, lossy_text};
#[allow(unused_imports)]
use crate::outside::{base64_bytes, lossy_text_of};
use crate::paths::join_path;
#[allow(unused_imports)]
use crate::paths::joined;
use crate::runner::{
    containment_diagnostics, externally_terminated, interrupted, LogStream, RunnerError,
    StepDiagnostic, StepResult, StepResultClass,
};
#[allow(unused_imports)]
use crate::runner::ended_from_outside;
use crate::scan::trim_str;
#[allow(unused_imports)]
use crate::scan::{begins_with, trimmed};
use crate::text::{clone_texts, contains_text, str_equal};
#[allow(unused_imports)]
use crate::text::texts;
use crate::text_map::TextMap;
#[allow(unused_imports)]
use crate::worker::tells_output;
use crate::worker_input::WorkerInput;
use crate::worker_output::WorkerOutput;
use vstd::prelude::*;

verus! {

/// How long a worker waits between asking a step to end and ending it, in milliseconds.
pub const TERMINATION_GRACE_MS: u64 = 10_000;

/// Where a step runs, and with what.
#[derive(Clone, Debug)]
pub struct ExecutionContext {
    pub cwd: String,
    pub environment: TextMap<String>,
    pub read_only_context: TextMap<String>,
    pub runner: Vec<String>,
    pub log_path: String,
}

/// The contents of a map of texts.
pub open spec fn plain(map: Map<Seq<char>, String>) -> Map<Seq<char>, Seq<char>> {
    map.map_values(|text: String| text@)
}

/// An environment with additions, then without removals, then with variables that
/// nothing overrides.
pub open spec fn layered(
    base: Map<Seq<char>, Seq<char>>,
    additions: Map<Seq<char>, Seq<char>>,
    removals: Seq<Seq<char>>,
    fixed: Map<Seq<char>, Seq<char>>,
) -> Map<Seq<char>, Seq<char>> {
    base.union_prefer_right(additions).remove_keys(removals.to_set()).union_prefer_right(fixed)
}

/// Puts the entries of a map into another, but for those that are left out.
fn put_all(into: &mut TextMap<String>, from: &TextMap<String>, left_out: &Vec<String>)
    ensures
        plain(final(into)@) == plain(old(into)@).union_prefer_right(
            plain(from@).remove_keys(texts(left_out@).to_set()),
        ),
{
    let count: usize = from.len();
    let ghost keys = from.keys();
    let ghost out = texts(left_out@).to_set();
    let ghost before = plain(into@);
    let mut i: usize = 0;
    while i < count
        invariant
            i <= count == keys.len(),
            keys == from.keys(),
            out == texts(left_out@).to_set(),
            from@.dom() == keys.to_set(),
            forall|k: Seq<char>| #[trigger]
                plain(into@).contains_key(k) <==> before.contains_key(k) || (!out.contains(k)
                    && keys.take(i as int).contains(k)),
            forall|k: Seq<char>| #[trigger]
                plain(into@).contains_key(k) ==> plain(into@)[k] == if !out.contains(k)
                    && keys.take(i as int).contains(k) {
                    from@[k]@
                } else {
                    before[k]
                },
        decreases count - i,
    {
        let key = from.key_at(i);
        let value = from.value_at(i);
        let ghost held = into@;
        let gone = contains_text(left_out, key.as_str());
        if !gone {
            into.insert(key.as_str().to_owned(), value.as_str().to_owned());
        }
        proof {
            let part = keys.take(i as int);
            let more = keys.take(i + 1);
            assert(more =~= part.push(keys[i as int]));
            assert(gone == out.contains(key@));
            assert forall|k: Seq<char>| more.contains(k) <==> part.contains(k) || k == key@ by {
                if part.contains(k) {
                    let j = choose|j: int| 0 <= j < part.len() && part[j] == k;
                    assert(more[j] == k);
                }
                if k == key@ {
                    assert(more[i as int] == k);
                }
                if more.contains(k) {
                    let j = choose|j: int| 0 <= j < more.len() && more[j] == k;
                    if j < i {
                        assert(part[j] == k);
                    }
                }
            }
            assert forall|k: Seq<char>| #[trigger] plain(into@).contains_key(k) implies plain(
                into@,
            )[k] == (if !out.contains(k) && more.contains(k) {
                from@[k]@
            } else {
                before[k]
            }) by {
                if !gone && k == key@ {
                } else {
                    assert(plain(held).contains_key(k));
                }
            }
            assert forall|k: Seq<char>| #[trigger]
                plain(into@).contains_key(k) <==> before.contains_key(k) || (!out.contains(k)
                    && more.contains(k)) by {
                assert(plain(held).contains_key(k) <==> before.contains_key(k) || (!out.contains(k)
                    && part.contains(k)));
            }
        }
        i += 1;
    }
    proof {
        assert(keys.take(i as int) =~= keys);
        assert forall|k: Seq<char>| keys.contains(k) <==> #[trigger] from@.contains_key(k) by {
            assert(keys.to_set().contains(k) <==> from@.dom().contains(k));
        }
        let expected = before.union_prefer_right(plain(from@).remove_keys(out));
        assert forall|k: Seq<char>| #[trigger] plain(into@).contains_key(k)
            <==> expected.contains_key(k) by {
            assert(from@.contains_key(k) <==> keys.contains(k));
        }
        assert forall|k: Seq<char>| #[trigger] plain(into@).contains_key(k) implies plain(into@)[k]
            == expected[k] by {
            assert(from@.contains_key(k) <==> keys.contains(k));
        }
        assert(plain(into@) =~= expected);
    }
}

/// The environment of a step.
pub fn layer_environment(
    base: &TextMap<String>,
    additions: &TextMap<String>,
    removals: &Vec<String>,
    fixed: &TextMap<String>,
) -> (r: TextMap<String>)
    ensures
        plain(r@) == layered(plain(base@), plain(additions@), texts(removals@), plain(fixed@)),
{
    let none: Vec<String> = Vec::new();
    let mut out: TextMap<String> = TextMap::new();
    put_all(&mut out, base, removals);
    put_all(&mut out, additions, removals);
    put_all(&mut out, fixed, &none);
    proof {
        let gone = texts(removals@).to_set();
        assert(texts(none@) =~= Seq::empty());
        assert(texts(none@).to_set() =~= Set::empty());
        assert(plain(Map::<Seq<char>, String>::empty()) =~= Map::empty());
        assert(plain(fixed@).remove_keys(Set::empty()) =~= plain(fixed@));
        assert(plain(out@) =~= layered(
            plain(base@),
            plain(additions@),
            texts(removals@),
            plain(fixed@),
        ));
    }
    out
}

/// The program and arguments that a step runs: a script is handed to the runner.
pub open spec fn step_argv(step: EffectiveStep, runner: Seq<Seq<char>>) -> Seq<Seq<char>> {
    match step.command {
        EffectiveCommand::Shell { script } => runner.push(script@),
        EffectiveCommand::Argv { argv } => texts(argv@),
    }
}

/// The program and arguments that a step runs.
pub fn command_argv(step: &EffectiveStep, runner: &Vec<String>) -> (r: Vec<String>)
    ensures
        texts(r@) == step_argv(*step, texts(runner@)),
{
    match &step.command {
        EffectiveCommand::Shell { script } => {
            let mut argv = clone_texts(runner);
            let ghost before = argv@;
            argv.push(script.as_str().to_owned());
            assert(texts(argv@) =~= texts(before).push(script@));
            argv
        },
        EffectiveCommand::Argv { argv } => clone_texts(argv),
    }
}

/// What a worker is told to run.
pub fn worker_spec(step: &EffectiveStep, context: &ExecutionContext, nonce: &str) -> (r: WorkerInput)
    ensures
        r matches WorkerInput::Spec {
            nonce: tag,
            cwd,
            argv,
            environment,
            timeout_ms,
            termination_grace_ms,
            rss_limit_bytes,
        } && {
            &&& tag@ == nonce@
            &&& cwd@ == joined(context.cwd@, step.working_directory@)
            &&& texts(argv@) == step_argv(*step, texts(context.runner@))
            &&& plain(environment@) == layered(
                plain(context.environment@),
                plain(step.environment@),
                texts(step.remove_environment@),
                plain(context.read_only_context@),
            )
            &&& timeout_ms == step.timeout_ns / 1_000_000
            &&& termination_grace_ms == TERMINATION_GRACE_MS
            &&& rss_limit_bytes == step.rss_limit_bytes
        },
{
    WorkerInput::Spec {
        nonce: nonce.to_owned(),
        cwd: join_path(context.cwd.as_str(), step.working_directory.as_str()),
        argv: command_argv(step, &context.runner),
        environment: layer_environment(
            &context.environment,
            &step.environment,
            &step.remove_environment,
            &context.read_only_context,
        ),
        timeout_ms: step.timeout_ns / 1_000_000,
        termination_grace_ms: TERMINATION_GRACE_MS,
        rss_limit_bytes: step.rss_limit_bytes,
    }
}

/// Where a step may leave diagnostics, next to its log.
pub fn diagnostics_path(log_path: &str) -> (r: String)
    ensures
        r@ == log_path@ + ".diagnostics.jsonl"@,
{
    log_path.to_owned().concat(".diagnostics.jsonl")
}

/// The context of a step, with the place for its diagnostics made known to it.
pub fn with_diagnostics_file(context: ExecutionContext) -> (r: ExecutionContext)
    ensures
        plain(r.read_only_context@) == plain(context.read_only_context@).insert(
            "TOLLGATE_DIAGNOSTICS_FILE"@,
            context.log_path@ + ".diagnostics.jsonl"@,
        ),
        r.cwd == context.cwd,
        r.environment == context.environment,
        r.runner == context.runner,
        r.log_path == context.log_path,
{
    let mut context = context;
    let path = diagnostics_path(context.log_path.as_str());
    let ghost before = context.read_only_context@;
    let mut variables: TextMap<String> = TextMap::new();
    std::mem::swap(&mut variables, &mut context.read_only_context);
    variables.insert("TOLLGATE_DIAGNOSTICS_FILE".to_owned(), path);
    assert(plain(variables@) =~= plain(before).insert("TOLLGATE_DIAGNOSTICS_FILE"@, path@));
    context.read_only_context = variables;
    context
}

/// The result of a step with the diagnostics that it left. Diagnostics that cannot be
/// read make the step fail.
pub fn with_diagnostics(
    result: StepResult,
    diagnostics: Result<Vec<StepDiagnostic>, String>,
) -> (r: StepResult)
    ensures
        r.attempt_id == result.attempt_id,
        r.exit_code == result.exit_code,
        r.signal == result.signal,
        r.elapsed_ms == result.elapsed_ms,
        r.log == result.log,
        diagnostics matches Ok(found) ==> r.class == result.class && r.diagnostics@
            == result.diagnostics@ + found@,
        diagnostics matches Err(reason) ==> {
            &&& r.class == StepResultClass::ExitFailure
            &&& r.diagnostics@.len() == result.diagnostics@.len() + 1
            &&& r.diagnostics@.drop_last() == result.diagnostics@
            &&& r.diagnostics@.last().code@ == "tollgate.diagnostics-invalid"@
            &&& r.diagnostics@.last().message == reason
            &&& r.diagnostics@.last().paths@.len() == 0
            &&& r.diagnostics@.last().repair is None
        },
{
    let mut result = result;
    let ghost before = result.diagnostics@;
    match diagnostics {
        Ok(found) => {
            let mut found = found;
            result.diagnostics.append(&mut found);
        },
        Err(reason) => {
            result.class = StepResultClass::ExitFailure;
            result.diagnostics.push(
                StepDiagnostic {
                    code: "tollgate.diagnostics-invalid".to_owned(),
                    message: reason,
                    paths: Vec::new(),
                    repair: None,
                },
            );
            assert(result.diagnostics@.drop_last() =~= before);
        },
    }
    result
}

/// By what a step is run.
#[derive(Clone, Copy, Debug, PartialEq, Eq, Structural)]
pub enum StepRunner {
    Worker,
    Direct,
}

/// A worker runs the step wherever there is one. Only a test executable, which lies in a
/// directory `deps`, does without.
pub fn choose_runner(worker_found: bool, test_executable: bool) -> (r: Result<
    StepRunner,
    RunnerError,
>)
    ensures
        worker_found ==> r == Ok::<StepRunner, RunnerError>(StepRunner::Worker),
        !worker_found && test_executable ==> r == Ok::<StepRunner, RunnerError>(StepRunner::Direct),
        !worker_found && !test_executable ==> (r matches Err(error) && error.interrupted_by(
            "tollgate-worker sidecar is unavailable"@,
        )),
{
    if worker_found {
        Ok(StepRunner::Worker)
    } else if test_executable {
        Ok(StepRunner::Direct)
    } else {
        Err(interrupted("tollgate-worker sidecar is unavailable"))
    }
}

/// How a worker is being supervised.
pub struct Supervision {
    nonce: String,
    worker_pid: Option<u32>,
    registered: bool,
    terminate_sent: bool,
    group: Option<u32>,
}

/// What is known of a worker: the tag of its lifetime, its process, whether it has
/// registered, whether it was told to stop, and the process group that it looks after.
pub struct SupervisionView {
    pub nonce: Seq<char>,
    pub worker_pid: Option<u32>,
    pub registered: bool,
    pub terminate_sent: bool,
    pub group: Option<u32>,
}

impl View for Supervision {
    type V = SupervisionView;

    closed spec fn view(&self) -> SupervisionView {
        SupervisionView {
            nonce: self.nonce@,
            worker_pid: self.worker_pid,
            registered: self.registered,
            terminate_sent: self.terminate_sent,
            group: self.group,
        }
    }
}

/// What to do about a worker.
#[derive(Clone, Debug, PartialEq, Eq)]
#[allow(inconsistent_fields)]
pub enum SupervisionAction {
    /// Tell it to start.
    SendStart,
    /// Tell it to stop.
    SendTerminate,
    /// Wait for more.
    Wait,
    /// Append output to the log.
    Append { stream: LogStream, payload: Vec<u8> },
    /// It is through: this is its last report.
    Finish { report: WorkerOutput },
    /// Give up. The group, if there is one, is ended; gently, and the worker with it, if
    /// the channel to the worker failed.
    GiveUp { error: RunnerError, group: Option<u32>, gently: bool },
}

/// The worker registered as itself.
pub open spec fn registers(state: SupervisionView, report: WorkerOutput) -> bool {
    report matches WorkerOutput::Registered { nonce, worker_pid } && nonce@ == state.nonce
        && state.worker_pid == Some(worker_pid)
}

/// The worker started a child that leads its own group.
pub open spec fn starts(state: SupervisionView, report: WorkerOutput) -> bool {
    report matches WorkerOutput::Started { nonce, child_pid, process_group_id } && nonce@
        == state.nonce && child_pid > 0 && process_group_id == child_pid
}

/// Why a report makes supervision give up; the wording of a decoder's complaint is left out.
pub open spec fn report_fault(state: SupervisionView, report: WorkerOutput) -> Option<Seq<char>> {
    if !state.registered {
        if registers(state, report) {
            None
        } else {
            Some("worker registration identity mismatch"@)
        }
    } else {
        match report {
            WorkerOutput::Started { .. } => if starts(state, report) {
                None
            } else {
                Some("worker lifetime frame failed validation"@)
            },
            WorkerOutput::Log { nonce, stream, payload_base64 } => if nonce@ != state.nonce {
                Some("worker lifetime frame failed validation"@)
            } else if base64_bytes(payload_base64@) is None {
                Some("worker log payload is malformed"@)
            } else if LogStream::named(stream@) is None {
                Some("worker reported an unknown log stream"@)
            } else {
                None
            },
            WorkerOutput::Terminal { nonce, .. } => if nonce@ != state.nonce {
                Some("worker terminal nonce mismatch"@)
            } else {
                None
            },
            WorkerOutput::Registered { .. } => Some("worker lifetime frame failed validation"@),
        }
    }
}

/// The report is a log frame whose payload cannot be decoded.
pub open spec fn payload_malformed(state: SupervisionView, report: WorkerOutput) -> bool {
    state.registered && (report matches WorkerOutput::Log { nonce, stream, payload_base64 }
        && nonce@ == state.nonce && base64_bytes(payload_base64@) is None)
}

/// Supervision after a report.
pub open spec fn reported(state: SupervisionView, report: WorkerOutput) -> SupervisionView {
    if report_fault(state, report) is Some {
        state
    } else {
        match report {
            WorkerOutput::Registered { .. } => SupervisionView { registered: true, ..state },
            WorkerOutput::Started { process_group_id, .. } => SupervisionView {
                group: Some(process_group_id),
                ..state
            },
            _ => state,
        }
    }
}

impl Supervision {
    /// Begins to supervise a worker.
    pub fn new(nonce: &str, worker_pid: Option<u32>) -> (r: Supervision)
        ensures
            r@ == (SupervisionView {
                nonce: nonce@,
                worker_pid,
                registered: false,
                terminate_sent: false,
                group: None,
            }),
    {
        Supervision {
            nonce: nonce.to_owned(),
            worker_pid,
            registered: false,
            terminate_sent: false,
            group: None,
        }
    }

    fn give_up(&self, reason: &str) -> (r: SupervisionAction)
        ensures
            r matches SupervisionAction::GiveUp { error, group, gently } && error.interrupted_by(
                reason@,
            ) && group == self@.group && !gently,
    {
        SupervisionAction::GiveUp { error: interrupted(reason), group: self.group, gently: false }
    }

    /// The step is to be stopped. The worker is told once, and only after it registered.
    pub fn canceled(&mut self) -> (r: SupervisionAction)
        ensures
            final(self)@ == (SupervisionView {
                terminate_sent: old(self)@.terminate_sent || old(self)@.registered,
                ..old(self)@
            }),
            r == if old(self)@.registered && !old(self)@.terminate_sent {
                SupervisionAction::SendTerminate
            } else {
                SupervisionAction::Wait
            },
    {
        if self.registered && !self.terminate_sent {
            self.terminate_sent = true;
            SupervisionAction::SendTerminate
        } else {
            SupervisionAction::Wait
        }
    }

    /// The channel from the worker failed.
    pub fn failed(&self, error: RunnerError) -> (r: SupervisionAction)
        ensures
            r == (SupervisionAction::GiveUp {
                error,
                group: self@.group,
                gently: self@.registered,
            }),
    {
        SupervisionAction::GiveUp { error, group: self.group, gently: self.registered }
    }

    /// The worker reported something.
    pub fn report(&mut self, report: WorkerOutput) -> (r: SupervisionAction)
        ensures
            final(self)@ == reported(old(self)@, report),
            r is GiveUp <==> report_fault(old(self)@, report) is Some,
            r matches SupervisionAction::GiveUp { error, group, gently } ==> {
                &&& group == old(self)@.group
                &&& !gently
                &&& payload_malformed(old(self)@, report) ==> error.interrupted_with(
                    "worker log payload is malformed: "@,
                )
                &&& !payload_malformed(old(self)@, report) ==> error.interrupted_by(
                    report_fault(old(self)@, report)->0,
                )
            },
            report_fault(old(self)@, report) is None ==> match report {
                WorkerOutput::Registered { .. } => r == SupervisionAction::SendStart,
                WorkerOutput::Started { .. } => r == SupervisionAction::Wait,
                WorkerOutput::Log { stream, payload_base64, .. } => r matches SupervisionAction::Append {
                    stream: to,
                    payload,
                } && LogStream::named(stream@) == Some(to) && base64_bytes(payload_base64@)
                    == Some(payload@),
                WorkerOutput::Terminal { .. } => r == (SupervisionAction::Finish { report }),
            },
    {
        if !self.registered {
            if let WorkerOutput::Registered { nonce, worker_pid } = &report {
                if str_equal(nonce.as_str(), self.nonce.as_str()) {
                    if let Some(expected) = self.worker_pid {
                        if expected == *worker_pid {
                            self.registered = true;
                            return SupervisionAction::SendStart;
                        }
                    }
                }
            }
            return self.give_up("worker registration identity mismatch");
        }
        match report {
            WorkerOutput::Started { nonce, child_pid, process_group_id } => {
                if str_equal(nonce.as_str(), self.nonce.as_str()) && child_pid > 0
                    && process_group_id == child_pid {
                    self.group = Some(process_group_id);
                    SupervisionAction::Wait
                } else {
                    self.give_up("worker lifetime frame failed validation")
                }
            },
            WorkerOutput::Log { nonce, stream, payload_base64 } => {
                if !str_equal(nonce.as_str(), self.nonce.as_str()) {
                    return self.give_up("worker lifetime frame failed validation");
                }
                let payload = match decode_base64(payload_base64.as_str()) {
                    Ok(payload) => payload,
                    Err(reason) => {
                        let text = "worker log payload is malformed: ".to_owned().concat(
                            reason.as_str(),
                        );
                        proof {
                            let start = "worker log payload is malformed: "@;
                            assert(text@.subrange(0, start.len() as int) =~= start);
                            assert(begins_with(text@, start));
                        }
                        return self.give_up(text.as_str());
                    },
                };
                match LogStream::parse(stream.as_str()) {
                    Some(stream) => SupervisionAction::Append { stream, payload },
                    None => self.give_up("worker reported an unknown log stream"),
                }
            },
            WorkerOutput::Terminal {
                nonce,
                exit_code,
                signal,
                timed_out,
                canceled,
                pipes_eof,
                process_group_reaped,
                rss_exceeded,
                containment_escaped,
                containment_diagnostic,
            } => {
                if !str_equal(nonce.as_str(), self.nonce.as_str()) {
                    return self.give_up("worker terminal nonce mismatch");
                }
                SupervisionAction::Finish {
                    report: WorkerOutput::Terminal {
                        nonce,
                        exit_code,
                        signal,
                        timed_out,
                        canceled,
                        pipes_eof,
                        process_group_reaped,
                        rss_exceeded,
                        containment_escaped,
                        containment_diagnostic,
                    },
                }
            },
            WorkerOutput::Registered { nonce, worker_pid } => self.give_up(
                "worker lifetime frame failed validation",
            ),
        }
    }
}

/// How a step under a worker ended. Limits that it broke come first, then what was done
/// to it, then how it exited.
pub open spec fn worker_class(command: EffectiveCommand, report: WorkerOutput) -> StepResultClass {
    match report {
        WorkerOutput::Terminal {
            exit_code,
            signal,
            timed_out,
            canceled,
            rss_exceeded,
            containment_escaped,
            ..
        } => if rss_exceeded || containment_escaped {
            StepResultClass::ExitFailure
        } else if timed_out {
            StepResultClass::Timeout
        } else if canceled {
            StepResultClass::Canceled
        } else if exit_code == Some(0i32) && signal is None {
            StepResultClass::Success
        } else if ended_from_outside(command, exit_code, signal) {
            StepResultClass::Interrupted
        } else {
            StepResultClass::ExitFailure
        },
        _ => StepResultClass::Interrupted,
    }
}

/// The end of a step.
#[derive(Clone, Debug, PartialEq, Eq)]
pub struct StepEnd {
    pub class: StepResultClass,
    pub exit_code: Option<i32>,
    pub signal: Option<i32>,
    pub diagnostics: Vec<StepDiagnostic>,
}

/// Judges the last report of a worker. `succeeded` and `complaints` say how the worker
/// itself exited, and what it wrote to its error stream.
pub fn conclude_worker(
    command: &EffectiveCommand,
    report: WorkerOutput,
    succeeded: bool,
    complaints: &[u8],
) -> (r: Result<StepEnd, RunnerError>)
    requires
        report is Terminal,
    ensures
        r is Ok <==> succeeded && report->pipes_eof && report->process_group_reaped,
        r matches Ok(end) ==> {
            &&& end.class == worker_class(*command, report)
            &&& end.exit_code == report->exit_code
            &&& end.signal == report->signal
            &&& report->containment_diagnostic is None ==> end.diagnostics@.len() == 0
            &&& report->containment_diagnostic matches Some(message) ==> {
                &&& end.diagnostics@.len() == 1
                &&& end.diagnostics@[0].code@ == "tollgate.containment-escape"@
                &&& end.diagnostics@[0].message == message
                &&& end.diagnostics@[0].paths@.len() == 0
                &&& end.diagnostics@[0].repair is None
            }
        },
        r matches Err(error) ==> error.interrupted_by(
            if !succeeded {
                "worker exited unsuccessfully: "@ + trimmed(lossy_text_of(complaints@))
            } else {
                "worker could not prove pipe EOF and process-group reaping"@
            },
        ),
{
    if !succeeded {
        let said = trim_str(lossy_text(complaints).as_str());
        return Err(
            RunnerError::Interrupted(
                "worker exited unsuccessfully: ".to_owned().concat(said.as_str()),
            ),
        );
    }
    match report {
        WorkerOutput::Terminal {
            nonce: _,
            exit_code,
            signal,
            timed_out,
            canceled,
            pipes_eof,
            process_group_reaped,
            rss_exceeded,
            containment_escaped,
            containment_diagnostic,
        } => {
            if !pipes_eof || !process_group_reaped {
                return Err(
                    interrupted("worker could not prove pipe EOF and process-group reaping"),
                );
            }
            let success = match exit_code {
                Some(code) => code == 0 && signal.is_none(),
                None => false,
            };
            let class = if rss_exceeded || containment_escaped {
                StepResultClass::ExitFailure
            } else if timed_out {
                StepResultClass::Timeout
            } else if canceled {
                StepResultClass::Canceled
            } else if success {
                StepResultClass::Success
            } else if externally_terminated(command, exit_code, signal) {
                StepResultClass::Interrupted
            } else {
                StepResultClass::ExitFailure
            };
            Ok(
                StepEnd {
                    class,
                    exit_code,
                    signal,
                    diagnostics: containment_diagnostics(containment_diagnostic),
                },
            )
        },
        other => {
            assert(false);
            Err(interrupted("worker lifetime frame failed validation"))
        },
    }
}

/// How a step without a worker ended.
#[derive(Clone, Debug, PartialEq, Eq)]
pub enum Termination {
    SpawnFailed,
    Exited { exit_code: Option<i32>, signal: Option<i32> },
    TimedOut,
    Canceled,
}

/// How a step without a worker ended.
pub open spec fn direct_class(
    command: EffectiveCommand,
    termination: Termination,
) -> StepResultClass {
    match termination {
        Termination::SpawnFailed => StepResultClass::SpawnFailure,
        Termination::TimedOut => StepResultClass::Timeout,
        Termination::Canceled => StepResultClass::Canceled,
        Termination::Exited { exit_code, signal } => if exit_code == Some(0i32) {
            StepResultClass::Success
        } else if ended_from_outside(command, exit_code, signal) {
            StepResultClass::Interrupted
        } else {
            StepResultClass::ExitFailure
        },
    }
}

/// Judges the end of a step without a worker.
pub fn conclude_direct(command: &EffectiveCommand, termination: &Termination) -> (r: StepEnd)
    ensures
        r.diagnostics@.len() == 0,
        r.class == direct_class(*command, *termination),
        match *termination {
            Termination::SpawnFailed => r.class == StepResultClass::SpawnFailure,
            Termination::TimedOut => r.class == StepResultClass::Timeout,
            Termination::Canceled => r.class == StepResultClass::Canceled,
            Termination::Exited { exit_code, signal } => r.class == if exit_code == Some(0i32) {
                StepResultClass::Success
            } else if ended_from_outside(*command, exit_code, signal) {
                StepResultClass::Interrupted
            } else {
                StepResultClass::ExitFailure
            },
        },
        match *termination {
            Termination::Exited { exit_code, signal } => r.exit_code == exit_code && r.signal
                == signal,
            _ => r.exit_code is None && r.signal is None,
        },
{
    let (class, exit_code, signal) = match termination {
        Termination::SpawnFailed => (StepResultClass::SpawnFailure, None, None),
        Termination::TimedOut => (StepResultClass::Timeout, None, None),
        Termination::Canceled => (StepResultClass::Canceled, None, None),
        Termination::Exited { exit_code, signal } => {
            let success = match *exit_code {
                Some(code) => code == 0,
                None => false,
            };
            let class = if success {
                StepResultClass::Success
            } else if externally_terminated(command, *exit_code, *signal) {
                StepResultClass::Interrupted
            } else {
                StepResultClass::ExitFailure
            };
            (class, *exit_code, *signal)
        },
    };
    StepEnd { class, exit_code, signal, diagnostics: Vec::new() }
}

/// What is logged of a step that could not be started.
pub fn spawn_failure_text(reason: &str) -> (r: String)
    ensures
        r@ == "Tollgate could not spawn step: "@ + reason@ + "\n"@,
{
    "Tollgate could not spawn step: ".to_owned().concat(reason).concat("\n")
}

/// A step that broke a limit, ran out of time or was stopped never counts as a success.
pub proof fn law_only_clean_exits_succeed(command: EffectiveCommand, report: WorkerOutput)
    requires
        report is Terminal,
        worker_class(command, report) == StepResultClass::Success,
    ensures
        report->exit_code == Some(0i32),
        report->signal is None,
        !report->timed_out,
        !report->canceled,
        !report->rss_exceeded,
        !report->containment_escaped,
{
}

/// No report takes back that the worker was told to stop, or that it registered.
pub proof fn law_reports_take_nothing_back(state: SupervisionView, report: WorkerOutput)
    ensures
        reported(state, report).terminate_sent == state.terminate_sent,
        state.registered ==> reported(state, report).registered,
{
}

/// Output that a worker tells of reaches the log as it was written, and on its stream.
pub proof fn law_output_reaches_the_log(
    state: SupervisionView,
    report: WorkerOutput,
    stream: LogStream,
    payload: Seq<u8>,
)
    requires
        state.registered,
        tells_output(report, state.nonce, stream, payload),
    ensures
        report_fault(state, report) is None,
        report matches WorkerOutput::Log { stream: name, payload_base64, .. }
            && LogStream::named(name@) == Some(stream) && base64_bytes(payload_base64@) == Some(
            payload,
        ),
{
    reveal_strlit("stdout");
    reveal_strlit("stderr");
    assert("stdout"@[3] != "stderr"@[3]);
}

} // verus!
