//! Which processes belong to a step, and what a worker obeys.

#[allow(unused_imports)]
use crate::process_tree::{
    current, descends, holders_on_lines, in_family, is_family, listed_on, listed_on_lines,
    memory_on_lines, names_file, parent_in, process_line, Holders, Instance, Listed,
};
#[allow(unused_imports)]
use crate::scan::{number_of, trimmed, words_of};
#[allow(unused_imports)]
use crate::seqs::lemma_filter_members;
#[allow(unused_imports)]
use crate::worker::{
    family, first_left, first_with, has_left, root_seen, spec_fault, stops, watched, WorkerView,
};
#[allow(unused_imports)]
use crate::worker_input::WorkerInput;
use vstd::prelude::*;

verus! {

/// A worker runs what it is told first, if that is meant for it and names a program; no
/// other order can come first.
pub proof fn law_workers_begin_with_their_own_order(
    expected: Seq<char>,
    other: Seq<char>,
    order: WorkerInput,
)
    ensures
        spec_fault(expected, order) is None <==> (order matches WorkerInput::Spec {
            nonce,
            argv,
            ..
        } && nonce@ == expected && argv@.len() > 0),
        spec_fault(expected, order) is None && spec_fault(other, order) is None ==> expected
            == other,
{
}

/// A worker is stopped by the order to stop that is meant for it, and by nothing else that
/// comes on its channel.
pub proof fn law_workers_stop_when_told(
    nonce: Seq<char>,
    other: Seq<char>,
    order: Option<WorkerInput>,
)
    ensures
        order is None ==> !stops(nonce, order),
        stops(nonce, order) ==> order->0 is Terminate,
        stops(nonce, order) && stops(other, order) ==> nonce == other,
        order matches Some(WorkerInput::Terminate { nonce: tag }) ==> stops(tag@, order),
{
}

/// A process descends from the root if its parent is the root, was seen to descend from it,
/// or descends from it itself.
pub proof fn law_children_descend(
    root: Instance,
    processes: Seq<Listed>,
    observed: Set<Instance>,
    i: int,
)
    requires
        0 <= i < processes.len(),
        processes[i].instance() != root,
        current(processes, processes[i].parent) matches Some(parent) && (parent == root
            || observed.contains(parent) || in_family(root, processes, observed, parent)),
    ensures
        descends(root, processes, observed)(processes[i]),
{
    let parent = current(processes, processes[i].parent)->0;
    assert forall|set: Set<Instance>| #[trigger]
        is_family(root, processes, observed, set) implies set.contains(
        processes[i].instance(),
    ) by {
        assert(set.contains(parent));
        assert(parent_in(processes, processes[i], set));
    }
}

/// The root does not descend from itself, and of a number that is listed twice the later
/// process has it.
pub proof fn law_numbers_belong_to_the_latest(
    root: Instance,
    processes: Seq<Listed>,
    observed: Set<Instance>,
    process: Listed,
)
    ensures
        process.instance() == root ==> !descends(root, processes, observed)(process),
        current(processes.push(process), process.pid) == Some(process.instance()),
        forall|pid: u32|
            pid != process.pid ==> #[trigger] current(processes.push(process), pid) == current(
                processes,
                pid,
            ),
        current(Seq::empty(), process.pid) is None,
{
    assert(processes.push(process).drop_last() =~= processes);
}

/// The root is the process with the number of the child when it is first seen, and stays
/// that one; what was seen to descend from it is remembered.
pub proof fn law_what_was_seen_is_remembered(
    worker: WorkerView,
    processes: Seq<Listed>,
    i: int,
)
    requires
        0 <= i < processes.len(),
    ensures
        worker.root is Some ==> watched(worker, processes).root == worker.root,
        worker.root is None && processes[i].pid == worker.child_pid && (forall|j: int|
            0 <= j < i ==> (#[trigger] processes[j]).pid != worker.child_pid) ==> watched(
            worker,
            processes,
        ).root == Some(processes[i].instance()),
        root_seen(worker, processes) is Some && descends(
            root_seen(worker, processes)->0,
            processes,
            worker.observed.to_set(),
        )(processes[i]) ==> watched(worker, processes).observed.contains(
            processes[i].instance(),
        ),
        watched(worker, processes).observed.take(worker.observed.len() as int) == worker.observed,
        watched(worker, processes).canceled == worker.canceled,
        watched(worker, processes).timed_out == worker.timed_out,
        watched(worker, processes).rss_exceeded == worker.rss_exceeded,
        watched(worker, processes).escape == worker.escape,
{
    lemma_first_with(processes, worker.child_pid, i);
    let after = watched(worker, processes).observed;
    assert(after.take(worker.observed.len() as int) =~= worker.observed);
    if let Some(root) = root_seen(worker, processes) {
        let pred = descends(root, processes, worker.observed.to_set());
        lemma_filter_members(processes, pred);
        if pred(processes[i]) {
            let kin = family(worker, processes);
            let k = choose|k: int| 0 <= k < kin.len() && kin[k] == processes[i];
            assert(after[worker.observed.len() + k] == processes[i].instance());
        }
    }
}

proof fn lemma_first_with(processes: Seq<Listed>, pid: u32, i: int)
    requires
        0 <= i < processes.len(),
    ensures
        processes[i].pid == pid && (forall|j: int|
            0 <= j < i ==> (#[trigger] processes[j]).pid != pid) ==> first_with(processes, pid)
            == Some(processes[i].instance()),
    decreases processes.len(),
{
    if i > 0 {
        let rest = processes.drop_first();
        lemma_first_with(rest, pid, i - 1);
        if forall|j: int| 0 <= j < i ==> (#[trigger] processes[j]).pid != pid {
            assert(processes[0].pid != pid);
            assert forall|j: int| 0 <= j < i - 1 implies (#[trigger] rest[j]).pid != pid by {
                assert(processes[j + 1].pid != pid);
            }
        }
    }
}

/// A process with a session of its own has left, and the first that has is named; one whose
/// session nobody knows has not.
pub proof fn law_the_first_to_leave_is_named(
    pids: Seq<u32>,
    sessions: Seq<Option<u32>>,
    own: u32,
    i: int,
)
    requires
        0 <= i < pids.len() == sessions.len(),
        sessions[i] is Some && sessions[i] != Some(own),
        forall|j: int|
            0 <= j < i ==> (#[trigger] sessions[j] is None || sessions[j] == Some(own)),
    ensures
        first_left(pids, sessions, own) == Some(pids[i]),
    decreases pids.len(),
{
    if i > 0 {
        assert(sessions[0] is None || sessions[0] == Some(own));
        let rest = sessions.drop_first();
        assert forall|j: int| 0 <= j < i - 1 implies (#[trigger] rest[j] is None || rest[j] == Some(
            own,
        )) by {
            assert(sessions[j + 1] is None || sessions[j + 1] == Some(own));
        }
        law_the_first_to_leave_is_named(pids.drop_first(), rest, own, i - 1);
    }
}

/// A line of the table of processes gives the number of a process, then that of its parent,
/// then that of its group, and then when it was started; a line without all of these lists
/// none.
pub proof fn law_tables_give_number_parent_and_group(
    line: Seq<char>,
    pid: nat,
    parent: nat,
    group: nat,
)
    ensures
        words_of(line).len() < 4 ==> listed_on(line) is None,
        words_of(line).len() >= 4 && number_of(words_of(line)[0], u32::MAX as nat) == Some(pid)
            && number_of(words_of(line)[1], u32::MAX as nat) == Some(parent) && number_of(
            words_of(line)[2],
            u32::MAX as nat,
        ) == Some(group) ==> (listed_on(line) matches Some(process) && process.pid == pid as u32
            && process.parent == parent as u32 && process.process_group == group as u32),
{
}

/// Every line that lists a process adds it behind those of the lines before, and other lines
/// add nothing.
pub proof fn law_every_listed_process_is_known(lines: Seq<Seq<char>>, n: nat)
    ensures
        ({
            let before = listed_on_lines(lines, n);
            let after = listed_on_lines(lines, n + 1);
            match listed_on(lines[n as int]) {
                Some(process) => after == before.push(process),
                None => after == before,
            }
        }),
        listed_on_lines(lines, 0).len() == 0,
{
}

/// Memory adds up line by line, a thousand and twenty-four bytes for each unit, as long as
/// the sum can be told; a line that is no number spoils the measure.
pub proof fn law_memory_adds_up(lines: Seq<Seq<char>>, n: nat, total: u64, kib: nat)
    requires
        memory_on_lines(lines, n) == Some(total),
    ensures
        number_of(trimmed(lines[n as int]), u64::MAX as nat) == Some(kib) && total + kib * 1024
            <= u64::MAX ==> (memory_on_lines(lines, n + 1) matches Some(sum) && sum == total + kib
            * 1024),
        number_of(trimmed(lines[n as int]), u64::MAX as nat) is None ==> memory_on_lines(
            lines,
            n + 1,
        ) is None,
        memory_on_lines(lines, n + 1) matches Some(sum) ==> sum >= total,
        memory_on_lines(lines, 0) == Some(0u64),
{
}

/// A process is found to hold a file exactly if a line that names the file follows the line
/// that begins the process; the one who asks is never found, and nobody is lost again.
pub proof fn law_holders_are_found(
    lines: Seq<Seq<char>>,
    paths: Seq<Seq<char>>,
    own: u32,
    n: nat,
)
    ensures
        !holders_on_lines(lines, paths, own, n).found.contains(own),
        holders_on_lines(lines, paths, own, n).found.subset_of(
            holders_on_lines(lines, paths, own, n + 1).found,
        ),
        process_line(lines[n as int]) matches Some(pid) ==> holders_on_lines(
            lines,
            paths,
            own,
            n + 1,
        ).pid == Some(pid),
        process_line(lines[n as int]) is None && names_file(lines[n as int], paths) ==> (
        holders_on_lines(lines, paths, own, n).pid matches Some(pid) ==> pid != own ==> holders_on_lines(
            lines,
            paths,
            own,
            n + 1,
        ).found.contains(pid)),
        !names_file(lines[n as int], paths) ==> holders_on_lines(lines, paths, own, n + 1).found
            =~= holders_on_lines(lines, paths, own, n).found,
        process_line(lines[n as int]) is None ==> holders_on_lines(lines, paths, own, n + 1).pid
            == holders_on_lines(lines, paths, own, n).pid,
    decreases n,
{
    if n > 0 {
        law_holders_are_found(lines, paths, own, (n - 1) as nat);
    }
}

} // verus!
