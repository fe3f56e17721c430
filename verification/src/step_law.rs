//! What the end of a step is called, and what a step is given to run with.

#[allow(unused_imports)]
use crate::config_model::{EffectiveCommand, EffectiveStep};
#[allow(unused_imports)]
use crate::outside::base64_bytes;
#[allow(unused_imports)]
use crate::runner::{ended_from_outside, LogStream, StepResultClass};
#[allow(unused_imports)]
use crate::step_run::{
    direct_class, layered, registers, report_fault, reported, starts, step_argv, worker_class,
    SupervisionView, Termination,
};
#[allow(unused_imports)]
use crate::text::texts;
#[allow(unused_imports)]
use crate::worker_output::WorkerOutput;
use vstd::prelude::*;

verus! {

/// The number is that of hang-up, interrupt, kill or terminate.
pub open spec fn ends_a_process(signal: int) -> bool {
    signal == 1 || signal == 2 || signal == 9 || signal == 15
}

/// The step was ended by such a signal, or its shell exited as one does whose command was.
pub open spec fn was_ended(
    command: EffectiveCommand,
    exit_code: Option<i32>,
    signal: Option<i32>,
) -> bool {
    ||| signal matches Some(number) && ends_a_process(number as int)
    ||| command is Shell && (exit_code == Some(129i32) || exit_code == Some(130i32) || exit_code
        == Some(137i32) || exit_code == Some(143i32))
}

/// Nothing but its own exit ended the step: no limit was broken, it was in time, and nobody
/// stopped it.
pub open spec fn ran_freely(report: WorkerOutput) -> bool {
    report is Terminal && !report->rss_exceeded && !report->containment_escaped
        && !report->timed_out && !report->canceled
}

/// A step counts as ended from outside exactly if it ran freely and one of the signals
/// that end a process ended it. Any other step that did not succeed has failed, and that
/// is conclusive.
pub proof fn law_only_signals_interrupt(command: EffectiveCommand, report: WorkerOutput)
    requires
        report is Terminal,
    ensures
        ({
            let clean = report->exit_code == Some(0i32) && report->signal is None;
            let ended = was_ended(command, report->exit_code, report->signal);
            &&& worker_class(command, report) == StepResultClass::Interrupted <==> ran_freely(
                report,
            ) && !clean && ended
            &&& ran_freely(report) && !clean && !ended ==> worker_class(command, report)
                == StepResultClass::ExitFailure
            &&& ran_freely(report) && clean ==> worker_class(command, report)
                == StepResultClass::Success
        }),
{
}

/// A step that exits with a code of its own has failed, unless the code is zero; a program
/// that is run without a shell may exit with any.
pub proof fn law_failing_steps_fail(command: EffectiveCommand, report: WorkerOutput, code: i32)
    requires
        ran_freely(report),
        report->signal is None,
        report->exit_code == Some(code),
        code != 0,
        command is Argv || !(code == 129 || code == 130 || code == 137 || code == 143),
    ensures
        worker_class(command, report) == StepResultClass::ExitFailure,
        direct_class(command, Termination::Exited { exit_code: Some(code), signal: None })
            == StepResultClass::ExitFailure,
{
}

/// What was done to a step comes before how it exited: a broken limit is a failure, else a
/// step that ran out of time did so, else one that was stopped was stopped; whatever the
/// exit says.
pub proof fn law_what_was_done_comes_first(command: EffectiveCommand, report: WorkerOutput)
    requires
        report is Terminal,
    ensures
        report->rss_exceeded || report->containment_escaped ==> worker_class(command, report)
            == StepResultClass::ExitFailure,
        worker_class(command, report) == StepResultClass::Timeout <==> report->timed_out
            && !report->rss_exceeded && !report->containment_escaped,
        worker_class(command, report) == StepResultClass::Canceled <==> report->canceled
            && !report->timed_out && !report->rss_exceeded && !report->containment_escaped,
        worker_class(command, report) != StepResultClass::SpawnFailure,
{
}

/// A step ends the same way whether a worker looked after it or not.
pub proof fn law_workers_make_no_difference(
    command: EffectiveCommand,
    report: WorkerOutput,
    termination: Termination,
)
    requires
        report is Terminal,
        !report->rss_exceeded,
        !report->containment_escaped,
        !(report->exit_code is Some && report->signal is Some),
        termination == if report->timed_out {
            Termination::TimedOut
        } else if report->canceled {
            Termination::Canceled
        } else {
            Termination::Exited { exit_code: report->exit_code, signal: report->signal }
        },
    ensures
        worker_class(command, report) == direct_class(command, termination),
{
}

/// Without a worker, only a step that could not be started counts as not spawned, only one
/// that exited with zero as a success, and one that was ended by a signal as interrupted.
pub proof fn law_ends_without_a_worker(command: EffectiveCommand, termination: Termination)
    ensures
        direct_class(command, termination) == StepResultClass::SpawnFailure <==> termination
            == Termination::SpawnFailed,
        direct_class(command, termination) == StepResultClass::Timeout <==> termination
            == Termination::TimedOut,
        direct_class(command, termination) == StepResultClass::Canceled <==> termination
            == Termination::Canceled,
        direct_class(command, termination) == StepResultClass::Success <==> (
        termination matches Termination::Exited { exit_code, .. } && exit_code == Some(0i32)),
        direct_class(command, termination) == StepResultClass::Interrupted <==> (
        termination matches Termination::Exited { exit_code, signal } && exit_code != Some(0i32)
            && was_ended(command, exit_code, signal)),
{
}

/// Only a shell passes a signal on in its exit code: for a program that is run by itself,
/// the code decides nothing but success.
pub proof fn law_exit_codes_of_programs_are_their_own(
    argv: Vec<String>,
    exit_code: Option<i32>,
    other: Option<i32>,
    signal: Option<i32>,
)
    ensures
        ended_from_outside(EffectiveCommand::Argv { argv }, exit_code, signal)
            == ended_from_outside(EffectiveCommand::Argv { argv }, other, signal),
{
}

/// A variable of a step has one value: what nothing overrides comes first; then a variable
/// that is removed is gone; then what the step adds; and else what was there.
pub proof fn law_environments_are_layered(
    base: Map<Seq<char>, Seq<char>>,
    additions: Map<Seq<char>, Seq<char>>,
    removals: Seq<Seq<char>>,
    fixed: Map<Seq<char>, Seq<char>>,
    name: Seq<char>,
)
    ensures
        ({
            let whole = layered(base, additions, removals, fixed);
            &&& fixed.contains_key(name) ==> whole.contains_key(name) && whole[name] == fixed[name]
            &&& !fixed.contains_key(name) && removals.contains(name) ==> !whole.contains_key(name)
            &&& !fixed.contains_key(name) && !removals.contains(name) && additions.contains_key(
                name,
            ) ==> whole.contains_key(name) && whole[name] == additions[name]
            &&& !fixed.contains_key(name) && !removals.contains(name) && !additions.contains_key(
                name,
            ) ==> (whole.contains_key(name) <==> base.contains_key(name)) && (base.contains_key(
                name,
            ) ==> whole[name] == base[name])
        }),
{
    assert(removals.to_set().contains(name) <==> removals.contains(name));
}

/// A script is the last argument of the runner, which gets nothing else; a program gets the
/// arguments that the step gives, whatever the runner.
pub proof fn law_scripts_go_to_the_runner(
    step: EffectiveStep,
    runner: Seq<Seq<char>>,
    other: Seq<Seq<char>>,
)
    ensures
        step.command matches EffectiveCommand::Shell { script } ==> step_argv(step, runner).len()
            == runner.len() + 1 && step_argv(step, runner).last() == script@ && step_argv(
            step,
            runner,
        ).drop_last() == runner,
        step.command matches EffectiveCommand::Argv { argv } ==> step_argv(step, runner)
            == step_argv(step, other) && step_argv(step, runner) == texts(argv@),
{
    if step.command is Shell {
        assert(step_argv(step, runner).drop_last() =~= runner);
    }
}

/// A worker is believed only under the name of its lifetime: a report under another one
/// ends the supervision, and a worker registers only as the process that was started.
pub proof fn law_strangers_are_not_believed(state: SupervisionView, report: WorkerOutput)
    ensures
        report_fault(state, report) is None ==> match report {
            WorkerOutput::Registered { nonce, worker_pid } => nonce@ == state.nonce
                && state.worker_pid == Some(worker_pid) && !state.registered,
            WorkerOutput::Started { nonce, child_pid, process_group_id } => nonce@ == state.nonce
                && state.registered && child_pid > 0 && process_group_id == child_pid,
            WorkerOutput::Log { nonce, .. } => nonce@ == state.nonce && state.registered,
            WorkerOutput::Terminal { nonce, .. } => nonce@ == state.nonce && state.registered,
        },
        report_fault(state, report) is Some ==> reported(state, report) == state,
{
}

/// A worker that does as it should is never given up: it registers once, and then starts
/// its child and ends, all under the name of its lifetime.
pub proof fn law_faithful_workers_are_kept(state: SupervisionView, report: WorkerOutput)
    ensures
        !state.registered && (report matches WorkerOutput::Registered { nonce, worker_pid }
            && nonce@ == state.nonce && state.worker_pid == Some(worker_pid)) ==> report_fault(
            state,
            report,
        ) is None && reported(state, report).registered,
        state.registered && (report matches WorkerOutput::Started {
            nonce,
            child_pid,
            process_group_id,
        } && nonce@ == state.nonce && child_pid > 0 && process_group_id == child_pid)
            ==> report_fault(state, report) is None && reported(state, report).group == Some(
            report->process_group_id,
        ),
        state.registered && (report matches WorkerOutput::Terminal { nonce, .. } && nonce@
            == state.nonce) ==> report_fault(state, report) is None && reported(state, report)
            == state,
        !(report is Started) ==> reported(state, report).group == state.group,
        reported(state, report).nonce == state.nonce,
        reported(state, report).worker_pid == state.worker_pid,
        reported(state, report).registered ==> state.registered || report is Registered,
{
}

/// A log frame is believed only if it is the worker's own, its payload can be decoded and its
/// stream is known; and then it is.
pub proof fn law_log_frames_are_decoded(state: SupervisionView, report: WorkerOutput)
    requires
        state.registered,
    ensures
        report matches WorkerOutput::Log { nonce, stream, payload_base64 } ==> (report_fault(
            state,
            report,
        ) is None <==> nonce@ == state.nonce && base64_bytes(payload_base64@) is Some
            && LogStream::named(stream@) is Some),
{
}

} // verus!
