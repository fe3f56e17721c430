//! Which processes descend from a step, told apart from others that came to have the
//! same number.

use crate::scan::{lines_str, parse_number, strip_prefix, trim_str, words_str};
#[allow(unused_imports)]
use crate::scan::{begins_with, lines_of, number_of, trimmed, words_of};
#[allow(unused_imports)]
use crate::seqs::{lemma_filter_ends, lemma_filter_step};
use crate::text::{concat3, contains_text, decimal_string, join_strings, str_equal};
#[allow(unused_imports)]
use crate::text::{decimal, join_texts, texts};
use vstd::prelude::*;

verus! {

/// A process as a table of processes lists it.
#[derive(Clone, Debug, PartialEq, Eq)]
pub struct ProcessIdentity {
    pub pid: u32,
    pub parent: u32,
    pub process_group: u32,
    pub started_at: String,
}

/// One process, whatever its number: the number together with when it was started.
#[derive(Clone, Debug, PartialEq, Eq)]
pub struct ProcessInstance {
    pub pid: u32,
    pub started_at: String,
}

/// What a `ProcessInstance` is.
pub struct Instance {
    pub pid: u32,
    pub started_at: Seq<char>,
}

impl View for ProcessInstance {
    type V = Instance;

    open spec fn view(&self) -> Instance {
        Instance { pid: self.pid, started_at: self.started_at@ }
    }
}

/// What a `ProcessIdentity` says.
pub struct Listed {
    pub pid: u32,
    pub parent: u32,
    pub process_group: u32,
    pub started_at: Seq<char>,
}

impl View for ProcessIdentity {
    type V = Listed;

    open spec fn view(&self) -> Listed {
        Listed {
            pid: self.pid,
            parent: self.parent,
            process_group: self.process_group,
            started_at: self.started_at@,
        }
    }
}

impl Listed {
    /// The process itself.
    pub open spec fn instance(self) -> Instance {
        Instance { pid: self.pid, started_at: self.started_at }
    }
}

impl ProcessIdentity {
    /// The process itself.
    pub fn instance(&self) -> (r: ProcessInstance)
        ensures
            r@ == self@.instance(),
    {
        ProcessInstance { pid: self.pid, started_at: self.started_at.as_str().to_owned() }
    }

    fn duplicate(&self) -> (r: ProcessIdentity)
        ensures
            r@ == self@,
    {
        ProcessIdentity {
            pid: self.pid,
            parent: self.parent,
            process_group: self.process_group,
            started_at: self.started_at.as_str().to_owned(),
        }
    }
}

pub open spec fn listed(processes: Seq<ProcessIdentity>) -> Seq<Listed> {
    processes.map_values(|process: ProcessIdentity| process@)
}

pub open spec fn instances(items: Seq<ProcessInstance>) -> Seq<Instance> {
    items.map_values(|item: ProcessInstance| item@)
}

/// The process that has the number now: the last that is listed with it.
pub open spec fn current(processes: Seq<Listed>, pid: u32) -> Option<Instance>
    decreases processes.len(),
{
    if processes.len() == 0 {
        None
    } else if processes.last().pid == pid {
        Some(processes.last().instance())
    } else {
        current(processes.drop_last(), pid)
    }
}

/// The parent of the process belongs to the set.
pub open spec fn parent_in(processes: Seq<Listed>, process: Listed, set: Set<Instance>) -> bool {
    current(processes, process.parent) matches Some(parent) && set.contains(parent)
}

/// With a process, the set holds all its children.
pub open spec fn holds_children(processes: Seq<Listed>, set: Set<Instance>) -> bool {
    forall|i: int|
        0 <= i < processes.len() && parent_in(processes, #[trigger] processes[i], set)
            ==> set.contains(processes[i].instance())
}

/// The set holds the root, what was observed before, and all children.
pub open spec fn is_family(
    root: Instance,
    processes: Seq<Listed>,
    observed: Set<Instance>,
    set: Set<Instance>,
) -> bool {
    set.contains(root) && observed.subset_of(set) && holds_children(processes, set)
}

/// The process belongs to the family of the root, however small that is taken to be.
pub open spec fn in_family(
    root: Instance,
    processes: Seq<Listed>,
    observed: Set<Instance>,
    instance: Instance,
) -> bool {
    forall|set: Set<Instance>| #[trigger]
        is_family(root, processes, observed, set) ==> set.contains(instance)
}

/// The listed process descends from the root.
pub open spec fn descends(
    root: Instance,
    processes: Seq<Listed>,
    observed: Set<Instance>,
) -> spec_fn(Listed) -> bool {
    |process: Listed|
        process.instance() != root && in_family(root, processes, observed, process.instance())
}

fn same_instance(a: &ProcessInstance, b: &ProcessInstance) -> (r: bool)
    ensures
        r == (a@ == b@),
{
    a.pid == b.pid && str_equal(a.started_at.as_str(), b.started_at.as_str())
}

fn knows(items: &Vec<ProcessInstance>, wanted: &ProcessInstance) -> (r: bool)
    ensures
        r == instances(items@).to_set().contains(wanted@),
{
    let ghost all = instances(items@);
    let mut i: usize = 0;
    while i < items.len()
        invariant
            i <= items@.len(),
            all == instances(items@),
            forall|j: int| 0 <= j < i ==> #[trigger] all[j] != wanted@,
        decreases items@.len() - i,
    {
        assert(all[i as int] == items@[i as int]@);
        if same_instance(&items[i], wanted) {
            assert(all.contains(wanted@));
            return true;
        }
        i += 1;
    }
    false
}

fn current_instance(processes: &[ProcessIdentity], pid: u32) -> (r: Option<ProcessInstance>)
    ensures
        r is Some <==> current(listed(processes@), pid) is Some,
        r matches Some(instance) ==> current(listed(processes@), pid) == Some(instance@),
{
    let ghost all = listed(processes@);
    let mut i: usize = processes.len();
    assert(all.take(i as int) =~= all);
    while i > 0
        invariant
            i <= processes@.len(),
            all == listed(processes@),
            current(all, pid) == current(all.take(i as int), pid),
        decreases i,
    {
        let ghost part = all.take(i as int);
        proof {
            assert(part.last() == processes@[i - 1]@);
            assert(part.drop_last() =~= all.take(i - 1));
        }
        if processes[i - 1].pid == pid {
            return Some(processes[i - 1].instance());
        }
        i -= 1;
    }
    None
}

/// How many of the listed processes are not in the set.
spec fn absent(processes: Seq<Listed>, set: Set<Instance>) -> nat
    decreases processes.len(),
{
    if processes.len() == 0 {
        0
    } else {
        absent(processes.drop_last(), set) + if set.contains(processes.last().instance()) {
            0nat
        } else {
            1nat
        }
    }
}

proof fn lemma_absent_shrinks(processes: Seq<Listed>, set: Set<Instance>, i: int)
    requires
        0 <= i < processes.len(),
        !set.contains(processes[i].instance()),
    ensures
        absent(processes, set.insert(processes[i].instance())) < absent(processes, set),
    decreases processes.len(),
{
    let instance = processes[i].instance();
    let rest = processes.drop_last();
    if i < rest.len() {
        assert(rest[i] == processes[i]);
        lemma_absent_shrinks(rest, set, i);
    } else {
        lemma_absent_grows_not(rest, set, instance);
    }
}

proof fn lemma_absent_grows_not(processes: Seq<Listed>, set: Set<Instance>, instance: Instance)
    ensures
        absent(processes, set.insert(instance)) <= absent(processes, set),
    decreases processes.len(),
{
    if processes.len() > 0 {
        lemma_absent_grows_not(processes.drop_last(), set, instance);
    }
}

fn copy_instances(items: &Vec<ProcessInstance>) -> (r: Vec<ProcessInstance>)
    ensures
        instances(r@) == instances(items@),
{
    let mut out: Vec<ProcessInstance> = Vec::new();
    let mut i: usize = 0;
    while i < items.len()
        invariant
            i <= items@.len(),
            out@.len() == i,
            forall|j: int| 0 <= j < i ==> (#[trigger] out@[j])@ == items@[j]@,
        decreases items@.len() - i,
    {
        out.push(
            ProcessInstance {
                pid: items[i].pid,
                started_at: items[i].started_at.as_str().to_owned(),
            },
        );
        i += 1;
    }
    assert(instances(out@) =~= instances(items@));
    out
}

/// The listed processes that descend from the root, in order. What was observed to
/// descend from it before still does, wherever it has moved since.
pub fn descendants_of(
    root: &ProcessInstance,
    processes: &[ProcessIdentity],
    previously_observed: &Vec<ProcessInstance>,
) -> (r: Vec<ProcessIdentity>)
    ensures
        listed(r@) == listed(processes@).filter(
            descends(root@, listed(processes@), instances(previously_observed@).to_set()),
        ),
{
    let ghost all = listed(processes@);
    let ghost observed = instances(previously_observed@).to_set();
    let mut family = copy_instances(previously_observed);
    let ghost held = family@;
    family.push(
        ProcessInstance { pid: root.pid, started_at: root.started_at.as_str().to_owned() },
    );
    let ghost mut set = observed.insert(root@);
    proof {
        assert(instances(family@) =~= instances(held).push(root@));
        instances(held).lemma_push_to_set_commute(root@);
    }
    let mut growing = true;
    while growing
        invariant
            all == listed(processes@),
            observed == instances(previously_observed@).to_set(),
            set == instances(family@).to_set(),
            set.contains(root@),
            observed.subset_of(set),
            forall|x: Instance| #[trigger]
                set.contains(x) ==> in_family(root@, all, observed, x),
            !growing ==> holds_children(all, set),
        decreases absent(all, set), if growing {
            1int
        } else {
            0int
        },
    {
        let ghost before = set;
        growing = false;
        let mut i: usize = 0;
        while i < processes.len()
            invariant
                i <= processes@.len(),
                all == listed(processes@),
                observed == instances(previously_observed@).to_set(),
                set == instances(family@).to_set(),
                set.contains(root@),
                observed.subset_of(set),
                forall|x: Instance| #[trigger]
                    set.contains(x) ==> in_family(root@, all, observed, x),
                absent(all, set) <= absent(all, before),
                growing ==> absent(all, set) < absent(all, before),
                !growing ==> set == before,
                !growing ==> forall|j: int|
                    0 <= j < i && parent_in(all, #[trigger] all[j], set) ==> set.contains(
                        all[j].instance(),
                    ),
            decreases processes@.len() - i,
        {
            let process = &processes[i];
            assert(all[i as int] == process@);
            if let Some(parent) = current_instance(processes, process.parent) {
                if knows(&family, &parent) {
                    let instance = process.instance();
                    if !knows(&family, &instance) {
                        proof {
                            lemma_absent_shrinks(all, set, i as int);
                            assert(in_family(root@, all, observed, instance@)) by {
                                assert forall|other: Set<Instance>| #[trigger]
                                    is_family(root@, all, observed, other) implies other.contains(
                                    instance@,
                                ) by {
                                    assert(in_family(root@, all, observed, parent@));
                                    assert(other.contains(parent@));
                                    assert(parent_in(all, all[i as int], other));
                                }
                            }
                        }
                        let ghost list = family@;
                        let ghost added = instance@;
                        family.push(instance);
                        growing = true;
                        proof {
                            assert(instances(family@) =~= instances(list).push(added));
                            instances(list).lemma_push_to_set_commute(added);
                            set = set.insert(added);
                        }
                    }
                }
            }
            i += 1;
        }
    }
    let ghost pred = descends(root@, all, observed);
    let mut out: Vec<ProcessIdentity> = Vec::new();
    let mut k: usize = 0;
    proof {
        lemma_filter_ends(all, pred);
        assert(listed(out@) =~= Seq::empty());
        assert(is_family(root@, all, observed, set));
    }
    while k < processes.len()
        invariant
            k <= processes@.len(),
            all == listed(processes@),
            set == instances(family@).to_set(),
            pred == descends(root@, all, observed),
            is_family(root@, all, observed, set),
            forall|x: Instance| #[trigger]
                set.contains(x) ==> in_family(root@, all, observed, x),
            listed(out@) == all.take(k as int).filter(pred),
        decreases processes@.len() - k,
    {
        proof {
            lemma_filter_step(all, pred, k as int);
            assert(all[k as int] == processes@[k as int]@);
        }
        let instance = processes[k].instance();
        if !same_instance(&instance, root) && knows(&family, &instance) {
            assert(in_family(root@, all, observed, instance@));
            let ghost before = out@;
            out.push(processes[k].duplicate());
            assert(listed(out@) =~= listed(before).push(all[k as int]));
        }
        k += 1;
    }
    proof {
        lemma_filter_ends(all, pred);
    }
    out
}

/// A process that took over the number of one that was observed does not descend from
/// the root on that account: with no parent in the family, it is left out.
pub proof fn law_reused_numbers_are_ignored(
    root: Instance,
    processes: Seq<Listed>,
    observed: Set<Instance>,
    i: int,
)
    requires
        0 <= i < processes.len(),
        !observed.contains(processes[i].instance()),
        processes[i].instance() != root,
        forall|j: int|
            0 <= j < processes.len() && (#[trigger] processes[j]).instance()
                == processes[i].instance() ==> (current(processes, processes[j].parent) matches Some(
                parent,
            ) ==> !in_family(root, processes, observed, parent)),
    ensures
        !descends(root, processes, observed)(processes[i]),
{
    let outsider = processes[i].instance();
    let family = Set::new(|x: Instance| in_family(root, processes, observed, x) && x != outsider);
    assert(is_family(root, processes, observed, family)) by {
        assert forall|j: int|
            0 <= j < processes.len() && parent_in(processes, #[trigger] processes[j], family) implies family.contains(
            processes[j].instance(),
        ) by {
            let parent = current(processes, processes[j].parent)->0;
            assert(in_family(root, processes, observed, parent));
            assert(processes[j].instance() != outsider);
            assert forall|set: Set<Instance>| #[trigger]
                is_family(root, processes, observed, set) implies set.contains(
                processes[j].instance(),
            ) by {
                assert(set.contains(parent));
                assert(parent_in(processes, processes[j], set));
            }
        }
    }
    assert(!family.contains(outsider));
}

/// What was observed to descend from the root still does, even with another parent.
pub proof fn law_observed_processes_are_retained(
    root: Instance,
    processes: Seq<Listed>,
    observed: Set<Instance>,
    process: Listed,
)
    requires
        observed.contains(process.instance()),
        process.instance() != root,
    ensures
        descends(root, processes, observed)(process),
{
}

/// The process that a line of a table lists: its number, its parent, its group, and
/// when it was started.
pub open spec fn listed_on(line: Seq<char>) -> Option<Listed> {
    let words = words_of(line);
    if words.len() < 4 {
        None
    } else {
        match (
            number_of(words[0], u32::MAX as nat),
            number_of(words[1], u32::MAX as nat),
            number_of(words[2], u32::MAX as nat),
        ) {
            (Some(pid), Some(parent), Some(group)) => Some(
                Listed {
                    pid: pid as u32,
                    parent: parent as u32,
                    process_group: group as u32,
                    started_at: join_texts(words.skip(3), " "@),
                },
            ),
            _ => None,
        }
    }
}

/// The processes that the first `n` lines list; lines that list none are passed over.
pub open spec fn listed_on_lines(lines: Seq<Seq<char>>, n: nat) -> Seq<Listed>
    decreases n,
{
    if n == 0 {
        Seq::empty()
    } else {
        let before = listed_on_lines(lines, (n - 1) as nat);
        match listed_on(lines[n - 1]) {
            Some(process) => before.push(process),
            None => before,
        }
    }
}

fn parse_process(line: &str) -> (r: Option<ProcessIdentity>)
    ensures
        r is Some <==> listed_on(line@) is Some,
        r matches Some(process) ==> listed_on(line@) == Some(process@),
{
    let words = words_str(line);
    let ghost all = texts(words@);
    assert(all.len() == words@.len());
    if words.len() < 4 {
        return None;
    }
    assert(all[0] == words@[0]@ && all[1] == words@[1]@ && all[2] == words@[2]@);
    let pid: u64 = match parse_number(words[0].as_str(), u32::MAX as u64) {
        Some(pid) => pid,
        None => {
            return None;
        },
    };
    let parent: u64 = match parse_number(words[1].as_str(), u32::MAX as u64) {
        Some(parent) => parent,
        None => {
            return None;
        },
    };
    let process_group: u64 = match parse_number(words[2].as_str(), u32::MAX as u64) {
        Some(process_group) => process_group,
        None => {
            return None;
        },
    };
    let mut rest: Vec<String> = Vec::new();
    let mut i: usize = 3;
    while i < words.len()
        invariant
            3 <= i <= words@.len(),
            all == texts(words@),
            texts(rest@) == all.subrange(3, i as int),
        decreases words@.len() - i,
    {
        let ghost before = rest@;
        rest.push(words[i].as_str().to_owned());
        assert(texts(rest@) =~= texts(before).push(all[i as int]));
        assert(all.subrange(3, i + 1) =~= all.subrange(3, i as int).push(all[i as int]));
        i += 1;
    }
    assert(all.subrange(3, i as int) =~= all.skip(3));
    Some(
        ProcessIdentity {
            pid: pid as u32,
            parent: parent as u32,
            process_group: process_group as u32,
            started_at: join_strings(&rest, " "),
        },
    )
}

/// Reads a table of processes.
pub fn parse_process_table(text: &str) -> (r: Vec<ProcessIdentity>)
    ensures
        listed(r@) == listed_on_lines(lines_of(text@), lines_of(text@).len()),
{
    let lines = lines_str(text);
    let ghost all = lines_of(text@);
    assert(texts(lines@).len() == lines@.len());
    let mut out: Vec<ProcessIdentity> = Vec::new();
    let mut i: usize = 0;
    assert(listed(out@) =~= Seq::empty());
    while i < lines.len()
        invariant
            i <= lines@.len() == all.len(),
            all == texts(lines@),
            listed(out@) == listed_on_lines(all, i as nat),
        decreases lines@.len() - i,
    {
        assert(all[i as int] == lines@[i as int]@);
        if let Some(process) = parse_process(lines[i].as_str()) {
            let ghost before = out@;
            out.push(process);
            assert(listed(out@) =~= listed(before).push(process@));
        }
        i += 1;
    }
    out
}

/// The sum of two numbers, or the greatest number.
pub open spec fn capped(n: nat) -> u64 {
    if n <= u64::MAX {
        n as u64
    } else {
        u64::MAX
    }
}

/// The memory that the first `n` lines add up to, each in KiB.
pub open spec fn memory_on_lines(lines: Seq<Seq<char>>, n: nat) -> Option<u64>
    decreases n,
{
    if n == 0 {
        Some(0)
    } else {
        match (
            memory_on_lines(lines, (n - 1) as nat),
            number_of(trimmed(lines[n - 1]), u64::MAX as nat),
        ) {
            (Some(total), Some(kib)) => Some(capped(total as nat + capped(kib * 1024) as nat)),
            _ => None,
        }
    }
}

proof fn lemma_memory_lost(lines: Seq<Seq<char>>, i: nat, n: nat)
    requires
        i <= n,
        memory_on_lines(lines, i) is None,
    ensures
        memory_on_lines(lines, n) is None,
    decreases n,
{
    if i < n {
        lemma_memory_lost(lines, i, (n - 1) as nat);
    }
}

/// The memory of a process group, in bytes, as a table of sizes in KiB has it.
pub fn parse_memory(text: &str) -> (r: Option<u64>)
    ensures
        r == memory_on_lines(lines_of(text@), lines_of(text@).len()),
{
    let lines = lines_str(text);
    let ghost all = lines_of(text@);
    assert(texts(lines@).len() == lines@.len());
    let mut total: u64 = 0;
    let mut i: usize = 0;
    while i < lines.len()
        invariant
            i <= lines@.len() == all.len(),
            all == texts(lines@),
            all == lines_of(text@),
            memory_on_lines(all, i as nat) == Some(total),
        decreases lines@.len() - i,
    {
        assert(all[i as int] == lines@[i as int]@);
        match parse_number(trim_str(lines[i].as_str()).as_str(), u64::MAX) {
            Some(kib) => {
                let bytes: u64 = match kib.checked_mul(1024) {
                    Some(bytes) => bytes,
                    None => u64::MAX,
                };
                total = total.saturating_add(bytes);
            },
            None => {
                proof {
                    assert(memory_on_lines(all, (i + 1) as nat) is None);
                    lemma_memory_lost(all, (i + 1) as nat, all.len());
                }
                return None;
            },
        }
        i += 1;
        assert(memory_on_lines(all, i as nat) == Some(total));
    }
    Some(total)
}

/// What is known after some lines of a list of open files: the process that the lines
/// are about, and the processes that hold one of the files in question.
pub struct Holders {
    pub pid: Option<u32>,
    pub found: Set<u32>,
}

/// The process that a line of a list of open files begins.
pub open spec fn process_line(line: Seq<char>) -> Option<u32> {
    if begins_with(line, "p"@) {
        match number_of(line.skip(1), u32::MAX as nat) {
            Some(pid) => Some(pid as u32),
            None => None,
        }
    } else {
        None
    }
}

/// The line names one of the files.
pub open spec fn names_file(line: Seq<char>, paths: Seq<Seq<char>>) -> bool {
    begins_with(line, "n"@) && paths.contains(line.skip(1))
}

/// Which processes hold one of the files, by the first `n` lines of a list of open
/// files. The process that asks is left out.
pub open spec fn holders_on_lines(
    lines: Seq<Seq<char>>,
    paths: Seq<Seq<char>>,
    own: u32,
    n: nat,
) -> Holders
    decreases n,
{
    if n == 0 {
        Holders { pid: None, found: Set::empty() }
    } else {
        let before = holders_on_lines(lines, paths, own, (n - 1) as nat);
        let line = lines[n - 1];
        match process_line(line) {
            Some(pid) => Holders { pid: Some(pid), found: before.found },
            None => if names_file(line, paths) && before.pid is Some && before.pid != Some(own) {
                Holders { pid: before.pid, found: before.found.insert(before.pid->0) }
            } else {
                before
            },
        }
    }
}

/// The processes that hold one of the files, each once.
pub fn parse_holders(text: &str, paths: &Vec<String>, own: u32) -> (r: Vec<u32>)
    ensures
        r@.to_set() == holders_on_lines(
            lines_of(text@),
            texts(paths@),
            own,
            lines_of(text@).len(),
        ).found,
        r@.no_duplicates(),
{
    let lines = lines_str(text);
    let ghost all = lines_of(text@);
    assert(texts(lines@).len() == lines@.len());
    let mut current: Option<u32> = None;
    let mut out: Vec<u32> = Vec::new();
    let mut i: usize = 0;
    proof {
        reveal_strlit("p");
        reveal_strlit("n");
        assert(out@.to_set() =~= Set::empty());
    }
    while i < lines.len()
        invariant
            i <= lines@.len() == all.len(),
            all == texts(lines@),
            "p"@.len() == 1,
            "n"@.len() == 1,
            current == holders_on_lines(all, texts(paths@), own, i as nat).pid,
            out@.to_set() == holders_on_lines(all, texts(paths@), own, i as nat).found,
            out@.no_duplicates(),
        decreases lines@.len() - i,
    {
        let line = lines[i].as_str();
        assert(all[i as int] == line@);
        let begun: Option<u32> = match strip_prefix(line, "p") {
            Some(rest) => match parse_number(rest.as_str(), u32::MAX as u64) {
                Some(pid) => Some(pid as u32),
                None => None,
            },
            None => None,
        };
        assert(begun == process_line(line@));
        if let Some(pid) = begun {
            current = Some(pid);
        } else if let Some(name) = strip_prefix(line, "n") {
            if contains_text(paths, name.as_str()) {
                if let Some(pid) = current {
                    if pid != own {
                        let mut known = false;
                        let mut k: usize = 0;
                        while k < out.len()
                            invariant
                                k <= out@.len(),
                                known <==> out@.take(k as int).contains(pid),
                            decreases out@.len() - k,
                        {
                            proof {
                                let part = out@.take(k as int);
                                let more = out@.take(k + 1);
                                assert(more =~= part.push(out@[k as int]));
                                if part.contains(pid) {
                                    let j = choose|j: int| 0 <= j < part.len() && part[j] == pid;
                                    assert(more[j] == pid);
                                }
                                if out@[k as int] == pid {
                                    assert(more[k as int] == pid);
                                }
                            }
                            if out[k] == pid {
                                known = true;
                            }
                            k += 1;
                        }
                        assert(out@.take(k as int) =~= out@);
                        let ghost before = out@;
                        if !known {
                            out.push(pid);
                            proof {
                                before.lemma_push_to_set_commute(pid);
                            }
                        } else {
                            assert(before.to_set().insert(pid) =~= before.to_set());
                        }
                    }
                }
            }
        }
        i += 1;
    }
    out
}

/// What is said of a process that left the session of its step.
pub open spec fn escape_text(pid: u32) -> Seq<char> {
    "Tollgate rejected an unsupported session escape by descendant PID "@ + decimal(pid as nat)
        + "."@
}

/// What is said of a process that left the session of its step.
pub fn escape_message(pid: u32) -> (r: String)
    ensures
        r@ == escape_text(pid),
{
    concat3(
        "Tollgate rejected an unsupported session escape by descendant PID ",
        decimal_string(pid as u64).as_str(),
        ".",
    )
}

/// What is said of a step that took more memory than it may.
pub fn memory_limit_message(limit: u64) -> (r: String)
    ensures
        r@ == "Tollgate terminated this step because its process tree exceeded the configured RSS hard limit of "@
            + decimal(limit as nat) + " bytes.\n"@,
{
    concat3(
        "Tollgate terminated this step because its process tree exceeded the configured RSS hard limit of ",
        decimal_string(limit).as_str(),
        " bytes.\n",
    )
}

} // verus!
