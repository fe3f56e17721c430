//! What a step worker reports.

use crate::document::{Document, Fields};
#[allow(unused_imports)]
use crate::document::{
    distinct_entries, first_text, lemma_lookup_finds, lemma_table_writable, lemma_writable_deeper,
    names_of, record, Tree,
};
use crate::outside::{json_value, write_json};
#[allow(unused_imports)]
use crate::outside::{json_parsed, json_written};
use crate::text::str_equal;
use crate::wire::{optional_i32_document, optional_text_document};
#[allow(unused_imports)]
use crate::wire::{optional_i32_tree, optional_text_tree};
use vstd::prelude::*;

verus! {

/// What a step worker reports: itself, its child, output, and how it all ended.
#[derive(Clone, Debug, PartialEq, Eq)]
#[allow(inconsistent_fields)]
pub enum WorkerOutput {
    Registered { nonce: String, worker_pid: u32 },
    Started { nonce: String, child_pid: u32, process_group_id: u32 },
    Log { nonce: String, stream: String, payload_base64: String },
    Terminal { nonce: String, exit_code: Option<i32>, signal: Option<i32>, timed_out: bool, canceled: bool, pipes_eof: bool, process_group_reaped: bool, rss_exceeded: bool, containment_escaped: bool, containment_diagnostic: Option<String> },
}

impl WorkerOutput {
    /// The name of the report on the wire.
    pub open spec fn wire_name(self) -> Seq<char> {
        match self {
            WorkerOutput::Registered { .. } => "registered"@,
            WorkerOutput::Started { .. } => "started"@,
            WorkerOutput::Log { .. } => "log"@,
            WorkerOutput::Terminal { .. } => "terminal"@,
        }
    }

    /// What the report is written as: a table of its name, then its fields.
    pub open spec fn tree(self) -> Tree {
        match self {
            WorkerOutput::Registered { nonce, worker_pid } => Tree::Table(registered_entries(nonce, worker_pid)),
            WorkerOutput::Started { nonce, child_pid, process_group_id } => Tree::Table(started_entries(nonce, child_pid, process_group_id)),
            WorkerOutput::Log { nonce, stream, payload_base64 } => Tree::Table(log_entries(nonce, stream, payload_base64)),
            WorkerOutput::Terminal { nonce, exit_code, signal, timed_out, canceled, pipes_eof, process_group_reaped, rss_exceeded, containment_escaped, containment_diagnostic } => Tree::Table(terminal_entries(nonce, exit_code, signal, timed_out, canceled, pipes_eof, process_group_reaped, rss_exceeded, containment_escaped, containment_diagnostic)),
        }
    }

    /// Writes the report. What is written reads back as the report.
    pub fn to_document(&self) -> (r: Document)
        ensures
            r@ == self.tree(),
            r@.writable(8),
            report_reads(r@, *self),
    {
        match self {
            WorkerOutput::Registered { nonce, worker_pid } => write_registered(nonce, worker_pid),
            WorkerOutput::Started { nonce, child_pid, process_group_id } => write_started(nonce, child_pid, process_group_id),
            WorkerOutput::Log { nonce, stream, payload_base64 } => write_log(nonce, stream, payload_base64),
            WorkerOutput::Terminal { nonce, exit_code, signal, timed_out, canceled, pipes_eof, process_group_reaped, rss_exceeded, containment_escaped, containment_diagnostic } => write_terminal(nonce, exit_code, signal, timed_out, canceled, pipes_eof, process_group_reaped, rss_exceeded, containment_escaped, containment_diagnostic),
        }
    }

    /// Writes the report as JSON.
    pub fn to_json(&self) -> (r: Vec<u8>)
        ensures
            r@ == json_written(self.tree()),
            json_parsed(r@) == Some(self.tree()),
            report_reads(self.tree(), *self),
    {
        let document = self.to_document();
        proof {
            lemma_writable_deeper(document@, 8, 127);
        }
        write_json(&json_value(&document))
    }

    /// Reads a report. Fields that nobody knows are passed over.
    pub fn read(document: &Document) -> (r: Option<WorkerOutput>)
        ensures
            r is Some <==> report_readable(document@),
            r matches Some(report) ==> report_reads(document@, report),
    {
        let table = read_report_record(document);
        let document = match &table {
            Some(table) => table,
            None => document,
        };
        let name = match document.text_field("type", None) {
            Some(name) => name,
            None => {
                return None;
            },
        };
        if str_equal(name.as_str(), "registered") {
            return read_registered(document);
        }
        if str_equal(name.as_str(), "started") {
            return read_started(document);
        }
        if str_equal(name.as_str(), "log") {
            return read_log(document);
        }
        if str_equal(name.as_str(), "terminal") {
            return read_terminal(document);
        }
        None
    }
}

/// The fields of a report that begins with its name, in order, and how many of them may not
/// be left out.
pub open spec fn report_order(tag: Seq<char>) -> (Seq<Seq<char>>, nat) {
    if tag == "registered"@ {
        (seq!["type"@, "nonce"@, "worker_pid"@], 3)
    } else if tag == "started"@ {
        (seq!["type"@, "nonce"@, "child_pid"@, "process_group_id"@], 4)
    } else if tag == "log"@ {
        (seq!["type"@, "nonce"@, "stream"@, "payload_base64"@], 4)
    } else if tag == "terminal"@ {
        (seq![
            "type"@,
            "nonce"@,
            "exit_code"@,
            "signal"@,
            "timed_out"@,
            "canceled"@,
            "pipes_eof"@,
            "process_group_reaped"@,
            "rss_exceeded"@,
            "containment_escaped"@,
            "containment_diagnostic"@,
        ], 10)
    } else {
        (seq![], 0)
    }
}

/// A report, which may be written as a list of its name and its fields.
pub open spec fn report_record(t: Tree) -> Tree {
    match first_text(t) {
        Some(tag) => record(t, report_order(tag).0, report_order(tag).1, true),
        None => t,
    }
}

fn report_names(tag: &str) -> (r: (Vec<&'static str>, usize))
    ensures
        names_of(r.0@) == report_order(tag@).0,
        r.1 == report_order(tag@).1,
{
    if str_equal(tag, "registered") {
        let names: Vec<&'static str> = vec!["type", "nonce", "worker_pid"];
        assert(names_of(names@) =~= report_order(tag@).0);
        return (names, 3);
    }
    if str_equal(tag, "started") {
        let names: Vec<&'static str> = vec!["type", "nonce", "child_pid", "process_group_id"];
        assert(names_of(names@) =~= report_order(tag@).0);
        return (names, 4);
    }
    if str_equal(tag, "log") {
        let names: Vec<&'static str> = vec!["type", "nonce", "stream", "payload_base64"];
        assert(names_of(names@) =~= report_order(tag@).0);
        return (names, 4);
    }
    if str_equal(tag, "terminal") {
        let names: Vec<&'static str> = vec![
            "type",
            "nonce",
            "exit_code",
            "signal",
            "timed_out",
            "canceled",
            "pipes_eof",
            "process_group_reaped",
            "rss_exceeded",
            "containment_escaped",
            "containment_diagnostic",
        ];
        assert(names_of(names@) =~= report_order(tag@).0);
        return (names, 10);
    }
    let names: Vec<&'static str> = Vec::new();
    assert(names_of(names@) =~= Seq::<Seq<char>>::empty());
    (names, 0)
}

fn read_report_record(document: &Document) -> (r: Option<Document>)
    ensures
        match r {
            Some(table) => table@ == report_record(document@),
            None => document@ == report_record(document@),
        },
{
    match document.read_first_text() {
        Some(tag) => {
            let (names, needed) = report_names(tag.as_str());
            document.as_record(names.as_slice(), needed, true)
        },
        None => None,
    }
}

/// The document can be read as a report.
pub open spec fn report_readable(t: Tree) -> bool {
    let t = report_record(t);
    match t.text_field("type"@, None) {
        None => false,
        Some(name) => {
            if name == "registered"@ {
                registered_readable(t)
            } else if name == "started"@ {
                started_readable(t)
            } else if name == "log"@ {
                log_readable(t)
            } else if name == "terminal"@ {
                terminal_readable(t)
            } else {
                false
            }
        },
    }
}

/// Read as a report, the document gives this one.
pub open spec fn report_reads(t: Tree, report: WorkerOutput) -> bool {
    let t = report_record(t);
    &&& t.text_field("type"@, None) == Some(report.wire_name())
    &&& match report {
        WorkerOutput::Registered { nonce, worker_pid } => {
            &&& t.text_field("nonce"@, None) == Some(nonce@)
            &&& t.number_field("worker_pid"@, None::<nat>, u32::MAX as nat) == Some(worker_pid as nat)
        },
        WorkerOutput::Started { nonce, child_pid, process_group_id } => {
            &&& t.text_field("nonce"@, None) == Some(nonce@)
            &&& t.number_field("child_pid"@, None::<nat>, u32::MAX as nat) == Some(child_pid as nat)
            &&& t.number_field("process_group_id"@, None::<nat>, u32::MAX as nat) == Some(process_group_id as nat)
        },
        WorkerOutput::Log { nonce, stream, payload_base64 } => {
            &&& t.text_field("nonce"@, None) == Some(nonce@)
            &&& t.text_field("stream"@, None) == Some(stream@)
            &&& t.text_field("payload_base64"@, None) == Some(payload_base64@)
        },
        WorkerOutput::Terminal { nonce, exit_code, signal, timed_out, canceled, pipes_eof, process_group_reaped, rss_exceeded, containment_escaped, containment_diagnostic } => {
            &&& t.text_field("nonce"@, None) == Some(nonce@)
            &&& t.optional_i32("exit_code"@) == Some(exit_code)
            &&& t.optional_i32("signal"@) == Some(signal)
            &&& t.bool_field("timed_out"@, None) == Some(timed_out)
            &&& t.bool_field("canceled"@, None) == Some(canceled)
            &&& t.bool_field("pipes_eof"@, None) == Some(pipes_eof)
            &&& t.bool_field("process_group_reaped"@, None) == Some(process_group_reaped)
            &&& t.bool_field("rss_exceeded"@, None) == Some(rss_exceeded)
            &&& t.bool_field("containment_escaped"@, None) == Some(containment_escaped)
            &&& t.optional_text("containment_diagnostic"@) == Some(match containment_diagnostic { Some(text) => Some(text@), None => None })
        },
    }
}

/// The document holds the fields of the report.
pub open spec fn registered_readable(t: Tree) -> bool {
    &&& t.text_field("nonce"@, None) is Some
    &&& t.number_field("worker_pid"@, None::<nat>, u32::MAX as nat) is Some
}

fn read_registered(document: &Document) -> (r: Option<WorkerOutput>)
    requires
        document@.text_field("type"@, None) == Some("registered"@),
    ensures
        r is Some <==> registered_readable(document@),
        r matches Some(report) ==> report_reads(document@, report),
{
    let nonce = match document.text_field("nonce", None) {
        Some(value) => value,
        None => {
            return None;
        },
    };
    let worker_pid: u32 = match document.number_field("worker_pid", None, u32::MAX as u64) {
        Some(value) => value as u32,
        None => {
            return None;
        },
    };
    Some(WorkerOutput::Registered { nonce, worker_pid })
}

/// The document holds the fields of the report.
pub open spec fn started_readable(t: Tree) -> bool {
    &&& t.text_field("nonce"@, None) is Some
    &&& t.number_field("child_pid"@, None::<nat>, u32::MAX as nat) is Some
    &&& t.number_field("process_group_id"@, None::<nat>, u32::MAX as nat) is Some
}

fn read_started(document: &Document) -> (r: Option<WorkerOutput>)
    requires
        document@.text_field("type"@, None) == Some("started"@),
    ensures
        r is Some <==> started_readable(document@),
        r matches Some(report) ==> report_reads(document@, report),
{
    let nonce = match document.text_field("nonce", None) {
        Some(value) => value,
        None => {
            return None;
        },
    };
    let child_pid: u32 = match document.number_field("child_pid", None, u32::MAX as u64) {
        Some(value) => value as u32,
        None => {
            return None;
        },
    };
    let process_group_id: u32 = match document.number_field("process_group_id", None, u32::MAX as u64) {
        Some(value) => value as u32,
        None => {
            return None;
        },
    };
    Some(WorkerOutput::Started { nonce, child_pid, process_group_id })
}

/// The document holds the fields of the report.
pub open spec fn log_readable(t: Tree) -> bool {
    &&& t.text_field("nonce"@, None) is Some
    &&& t.text_field("stream"@, None) is Some
    &&& t.text_field("payload_base64"@, None) is Some
}

fn read_log(document: &Document) -> (r: Option<WorkerOutput>)
    requires
        document@.text_field("type"@, None) == Some("log"@),
    ensures
        r is Some <==> log_readable(document@),
        r matches Some(report) ==> report_reads(document@, report),
{
    let nonce = match document.text_field("nonce", None) {
        Some(value) => value,
        None => {
            return None;
        },
    };
    let stream = match document.text_field("stream", None) {
        Some(value) => value,
        None => {
            return None;
        },
    };
    let payload_base64 = match document.text_field("payload_base64", None) {
        Some(value) => value,
        None => {
            return None;
        },
    };
    Some(WorkerOutput::Log { nonce, stream, payload_base64 })
}

/// The document holds the fields of the report.
pub open spec fn terminal_readable(t: Tree) -> bool {
    &&& t.text_field("nonce"@, None) is Some
    &&& t.optional_i32("exit_code"@) is Some
    &&& t.optional_i32("signal"@) is Some
    &&& t.bool_field("timed_out"@, None) is Some
    &&& t.bool_field("canceled"@, None) is Some
    &&& t.bool_field("pipes_eof"@, None) is Some
    &&& t.bool_field("process_group_reaped"@, None) is Some
    &&& t.bool_field("rss_exceeded"@, None) is Some
    &&& t.bool_field("containment_escaped"@, None) is Some
    &&& t.optional_text("containment_diagnostic"@) is Some
}

fn read_terminal(document: &Document) -> (r: Option<WorkerOutput>)
    requires
        document@.text_field("type"@, None) == Some("terminal"@),
    ensures
        r is Some <==> terminal_readable(document@),
        r matches Some(report) ==> report_reads(document@, report),
{
    let nonce = match document.text_field("nonce", None) {
        Some(value) => value,
        None => {
            return None;
        },
    };
    let exit_code = match document.optional_i32("exit_code") {
        Some(value) => value,
        None => {
            return None;
        },
    };
    let signal = match document.optional_i32("signal") {
        Some(value) => value,
        None => {
            return None;
        },
    };
    let timed_out = match document.bool_field("timed_out", None) {
        Some(value) => value,
        None => {
            return None;
        },
    };
    let canceled = match document.bool_field("canceled", None) {
        Some(value) => value,
        None => {
            return None;
        },
    };
    let pipes_eof = match document.bool_field("pipes_eof", None) {
        Some(value) => value,
        None => {
            return None;
        },
    };
    let process_group_reaped = match document.bool_field("process_group_reaped", None) {
        Some(value) => value,
        None => {
            return None;
        },
    };
    let rss_exceeded = match document.bool_field("rss_exceeded", None) {
        Some(value) => value,
        None => {
            return None;
        },
    };
    let containment_escaped = match document.bool_field("containment_escaped", None) {
        Some(value) => value,
        None => {
            return None;
        },
    };
    let containment_diagnostic = match document.optional_text("containment_diagnostic") {
        Some(value) => value,
        None => {
            return None;
        },
    };
    Some(WorkerOutput::Terminal { nonce, exit_code, signal, timed_out, canceled, pipes_eof, process_group_reaped, rss_exceeded, containment_escaped, containment_diagnostic })
}

/// The names of fields that occur together are different.
proof fn lemma_field_names()
    ensures
        "canceled"@ != "containment_diagnostic"@,
        "canceled"@ != "containment_escaped"@,
        "canceled"@ != "exit_code"@,
        "canceled"@ != "nonce"@,
        "canceled"@ != "pipes_eof"@,
        "canceled"@ != "process_group_reaped"@,
        "canceled"@ != "rss_exceeded"@,
        "canceled"@ != "signal"@,
        "canceled"@ != "timed_out"@,
        "canceled"@ != "type"@,
        "child_pid"@ != "nonce"@,
        "child_pid"@ != "process_group_id"@,
        "child_pid"@ != "type"@,
        "containment_diagnostic"@ != "containment_escaped"@,
        "containment_diagnostic"@ != "exit_code"@,
        "containment_diagnostic"@ != "nonce"@,
        "containment_diagnostic"@ != "pipes_eof"@,
        "containment_diagnostic"@ != "process_group_reaped"@,
        "containment_diagnostic"@ != "rss_exceeded"@,
        "containment_diagnostic"@ != "signal"@,
        "containment_diagnostic"@ != "timed_out"@,
        "containment_diagnostic"@ != "type"@,
        "containment_escaped"@ != "exit_code"@,
        "containment_escaped"@ != "nonce"@,
        "containment_escaped"@ != "pipes_eof"@,
        "containment_escaped"@ != "process_group_reaped"@,
        "containment_escaped"@ != "rss_exceeded"@,
        "containment_escaped"@ != "signal"@,
        "containment_escaped"@ != "timed_out"@,
        "containment_escaped"@ != "type"@,
        "exit_code"@ != "nonce"@,
        "exit_code"@ != "pipes_eof"@,
        "exit_code"@ != "process_group_reaped"@,
        "exit_code"@ != "rss_exceeded"@,
        "exit_code"@ != "signal"@,
        "exit_code"@ != "timed_out"@,
        "exit_code"@ != "type"@,
        "nonce"@ != "payload_base64"@,
        "nonce"@ != "pipes_eof"@,
        "nonce"@ != "process_group_id"@,
        "nonce"@ != "process_group_reaped"@,
        "nonce"@ != "rss_exceeded"@,
        "nonce"@ != "signal"@,
        "nonce"@ != "stream"@,
        "nonce"@ != "timed_out"@,
        "nonce"@ != "type"@,
        "nonce"@ != "worker_pid"@,
        "payload_base64"@ != "stream"@,
        "payload_base64"@ != "type"@,
        "pipes_eof"@ != "process_group_reaped"@,
        "pipes_eof"@ != "rss_exceeded"@,
        "pipes_eof"@ != "signal"@,
        "pipes_eof"@ != "timed_out"@,
        "pipes_eof"@ != "type"@,
        "process_group_id"@ != "type"@,
        "process_group_reaped"@ != "rss_exceeded"@,
        "process_group_reaped"@ != "signal"@,
        "process_group_reaped"@ != "timed_out"@,
        "process_group_reaped"@ != "type"@,
        "rss_exceeded"@ != "signal"@,
        "rss_exceeded"@ != "timed_out"@,
        "rss_exceeded"@ != "type"@,
        "signal"@ != "timed_out"@,
        "signal"@ != "type"@,
        "stream"@ != "type"@,
        "timed_out"@ != "type"@,
        "type"@ != "worker_pid"@,
{
    reveal_strlit("canceled");
    reveal_strlit("child_pid");
    reveal_strlit("containment_diagnostic");
    reveal_strlit("containment_escaped");
    reveal_strlit("exit_code");
    reveal_strlit("nonce");
    reveal_strlit("payload_base64");
    reveal_strlit("pipes_eof");
    reveal_strlit("process_group_id");
    reveal_strlit("process_group_reaped");
    reveal_strlit("rss_exceeded");
    reveal_strlit("signal");
    reveal_strlit("stream");
    reveal_strlit("timed_out");
    reveal_strlit("type");
    reveal_strlit("worker_pid");
    assert("canceled"@.len() != "containment_diagnostic"@.len());
    assert("canceled"@.len() != "containment_escaped"@.len());
    assert("canceled"@.len() != "exit_code"@.len());
    assert("canceled"@.len() != "nonce"@.len());
    assert("canceled"@.len() != "pipes_eof"@.len());
    assert("canceled"@.len() != "process_group_reaped"@.len());
    assert("canceled"@.len() != "rss_exceeded"@.len());
    assert("canceled"@.len() != "signal"@.len());
    assert("canceled"@.len() != "timed_out"@.len());
    assert("canceled"@.len() != "type"@.len());
    assert("child_pid"@.len() != "nonce"@.len());
    assert("child_pid"@.len() != "process_group_id"@.len());
    assert("child_pid"@.len() != "type"@.len());
    assert("containment_diagnostic"@.len() != "containment_escaped"@.len());
    assert("containment_diagnostic"@.len() != "exit_code"@.len());
    assert("containment_diagnostic"@.len() != "nonce"@.len());
    assert("containment_diagnostic"@.len() != "pipes_eof"@.len());
    assert("containment_diagnostic"@.len() != "process_group_reaped"@.len());
    assert("containment_diagnostic"@.len() != "rss_exceeded"@.len());
    assert("containment_diagnostic"@.len() != "signal"@.len());
    assert("containment_diagnostic"@.len() != "timed_out"@.len());
    assert("containment_diagnostic"@.len() != "type"@.len());
    assert("containment_escaped"@.len() != "exit_code"@.len());
    assert("containment_escaped"@.len() != "nonce"@.len());
    assert("containment_escaped"@.len() != "pipes_eof"@.len());
    assert("containment_escaped"@.len() != "process_group_reaped"@.len());
    assert("containment_escaped"@.len() != "rss_exceeded"@.len());
    assert("containment_escaped"@.len() != "signal"@.len());
    assert("containment_escaped"@.len() != "timed_out"@.len());
    assert("containment_escaped"@.len() != "type"@.len());
    assert("exit_code"@.len() != "nonce"@.len());
    assert("exit_code"@[0] != "pipes_eof"@[0]);
    assert("exit_code"@.len() != "process_group_reaped"@.len());
    assert("exit_code"@.len() != "rss_exceeded"@.len());
    assert("exit_code"@.len() != "signal"@.len());
    assert("exit_code"@[0] != "timed_out"@[0]);
    assert("exit_code"@.len() != "type"@.len());
    assert("nonce"@.len() != "payload_base64"@.len());
    assert("nonce"@.len() != "pipes_eof"@.len());
    assert("nonce"@.len() != "process_group_id"@.len());
    assert("nonce"@.len() != "process_group_reaped"@.len());
    assert("nonce"@.len() != "rss_exceeded"@.len());
    assert("nonce"@.len() != "signal"@.len());
    assert("nonce"@.len() != "stream"@.len());
    assert("nonce"@.len() != "timed_out"@.len());
    assert("nonce"@.len() != "type"@.len());
    assert("nonce"@.len() != "worker_pid"@.len());
    assert("payload_base64"@.len() != "stream"@.len());
    assert("payload_base64"@.len() != "type"@.len());
    assert("pipes_eof"@.len() != "process_group_reaped"@.len());
    assert("pipes_eof"@.len() != "rss_exceeded"@.len());
    assert("pipes_eof"@.len() != "signal"@.len());
    assert("pipes_eof"@[0] != "timed_out"@[0]);
    assert("pipes_eof"@.len() != "type"@.len());
    assert("process_group_id"@.len() != "type"@.len());
    assert("process_group_reaped"@.len() != "rss_exceeded"@.len());
    assert("process_group_reaped"@.len() != "signal"@.len());
    assert("process_group_reaped"@.len() != "timed_out"@.len());
    assert("process_group_reaped"@.len() != "type"@.len());
    assert("rss_exceeded"@.len() != "signal"@.len());
    assert("rss_exceeded"@.len() != "timed_out"@.len());
    assert("rss_exceeded"@.len() != "type"@.len());
    assert("signal"@.len() != "timed_out"@.len());
    assert("signal"@.len() != "type"@.len());
    assert("stream"@.len() != "type"@.len());
    assert("timed_out"@.len() != "type"@.len());
    assert("type"@.len() != "worker_pid"@.len());
}

pub open spec fn registered_entries(nonce: String, worker_pid: u32) -> Seq<
    (Seq<char>, Tree),
> {
    seq![
        ("type"@, Tree::Text("registered"@)),
        ("nonce"@, Tree::Text(nonce@)),
        ("worker_pid"@, Tree::Integer(worker_pid as int)),
    ]
}

fn write_registered(nonce: &String, worker_pid: &u32) -> (r: Document)
    ensures
        r@ == Tree::Table(registered_entries(*nonce, *worker_pid)),
        r@.writable(8),
        report_reads(r@, (WorkerOutput::Registered { nonce: *nonce, worker_pid: *worker_pid })),
{
    let mut fields = Fields::new();
    fields.put("type", Document::Text("registered".to_owned()));
    let nonce_value = Document::Text(nonce.as_str().to_owned());
    fields.put("nonce", nonce_value);
    let worker_pid_value = Document::Integer(*worker_pid as i128);
    fields.put("worker_pid", worker_pid_value);
    proof {
        let entries = fields@;
        assert(entries =~= registered_entries(*nonce, *worker_pid));
        lemma_field_names();
        assert(entries[0].0 == "type"@);
        assert(entries[1].0 == "nonce"@);
        assert(entries[2].0 == "worker_pid"@);
        assert(distinct_entries(entries));
        lemma_lookup_finds(entries, 0);
        lemma_lookup_finds(entries, 1);
        lemma_lookup_finds(entries, 2);
        assert(entries[0].1.writable(7));
        assert(entries[1].1.writable(7));
        assert(entries[2].1.writable(7));
        lemma_table_writable(entries, 7);
    }
    fields.build()
}

pub open spec fn started_entries(nonce: String, child_pid: u32, process_group_id: u32) -> Seq<
    (Seq<char>, Tree),
> {
    seq![
        ("type"@, Tree::Text("started"@)),
        ("nonce"@, Tree::Text(nonce@)),
        ("child_pid"@, Tree::Integer(child_pid as int)),
        ("process_group_id"@, Tree::Integer(process_group_id as int)),
    ]
}

fn write_started(nonce: &String, child_pid: &u32, process_group_id: &u32) -> (r: Document)
    ensures
        r@ == Tree::Table(started_entries(*nonce, *child_pid, *process_group_id)),
        r@.writable(8),
        report_reads(r@, (WorkerOutput::Started { nonce: *nonce, child_pid: *child_pid, process_group_id: *process_group_id })),
{
    let mut fields = Fields::new();
    fields.put("type", Document::Text("started".to_owned()));
    let nonce_value = Document::Text(nonce.as_str().to_owned());
    fields.put("nonce", nonce_value);
    let child_pid_value = Document::Integer(*child_pid as i128);
    fields.put("child_pid", child_pid_value);
    let process_group_id_value = Document::Integer(*process_group_id as i128);
    fields.put("process_group_id", process_group_id_value);
    proof {
        let entries = fields@;
        assert(entries =~= started_entries(*nonce, *child_pid, *process_group_id));
        lemma_field_names();
        assert(entries[0].0 == "type"@);
        assert(entries[1].0 == "nonce"@);
        assert(entries[2].0 == "child_pid"@);
        assert(entries[3].0 == "process_group_id"@);
        assert(distinct_entries(entries));
        lemma_lookup_finds(entries, 0);
        lemma_lookup_finds(entries, 1);
        lemma_lookup_finds(entries, 2);
        lemma_lookup_finds(entries, 3);
        assert(entries[0].1.writable(7));
        assert(entries[1].1.writable(7));
        assert(entries[2].1.writable(7));
        assert(entries[3].1.writable(7));
        lemma_table_writable(entries, 7);
    }
    fields.build()
}

pub open spec fn log_entries(nonce: String, stream: String, payload_base64: String) -> Seq<
    (Seq<char>, Tree),
> {
    seq![
        ("type"@, Tree::Text("log"@)),
        ("nonce"@, Tree::Text(nonce@)),
        ("stream"@, Tree::Text(stream@)),
        ("payload_base64"@, Tree::Text(payload_base64@)),
    ]
}

fn write_log(nonce: &String, stream: &String, payload_base64: &String) -> (r: Document)
    ensures
        r@ == Tree::Table(log_entries(*nonce, *stream, *payload_base64)),
        r@.writable(8),
        report_reads(r@, (WorkerOutput::Log { nonce: *nonce, stream: *stream, payload_base64: *payload_base64 })),
{
    let mut fields = Fields::new();
    fields.put("type", Document::Text("log".to_owned()));
    let nonce_value = Document::Text(nonce.as_str().to_owned());
    fields.put("nonce", nonce_value);
    let stream_value = Document::Text(stream.as_str().to_owned());
    fields.put("stream", stream_value);
    let payload_base64_value = Document::Text(payload_base64.as_str().to_owned());
    fields.put("payload_base64", payload_base64_value);
    proof {
        let entries = fields@;
        assert(entries =~= log_entries(*nonce, *stream, *payload_base64));
        lemma_field_names();
        assert(entries[0].0 == "type"@);
        assert(entries[1].0 == "nonce"@);
        assert(entries[2].0 == "stream"@);
        assert(entries[3].0 == "payload_base64"@);
        assert(distinct_entries(entries));
        lemma_lookup_finds(entries, 0);
        lemma_lookup_finds(entries, 1);
        lemma_lookup_finds(entries, 2);
        lemma_lookup_finds(entries, 3);
        assert(entries[0].1.writable(7));
        assert(entries[1].1.writable(7));
        assert(entries[2].1.writable(7));
        assert(entries[3].1.writable(7));
        lemma_table_writable(entries, 7);
    }
    fields.build()
}

pub open spec fn terminal_entries(nonce: String, exit_code: Option<i32>, signal: Option<i32>, timed_out: bool, canceled: bool, pipes_eof: bool, process_group_reaped: bool, rss_exceeded: bool, containment_escaped: bool, containment_diagnostic: Option<String>) -> Seq<
    (Seq<char>, Tree),
> {
    seq![
        ("type"@, Tree::Text("terminal"@)),
        ("nonce"@, Tree::Text(nonce@)),
        ("exit_code"@, optional_i32_tree(exit_code)),
        ("signal"@, optional_i32_tree(signal)),
        ("timed_out"@, Tree::Bool(timed_out)),
        ("canceled"@, Tree::Bool(canceled)),
        ("pipes_eof"@, Tree::Bool(pipes_eof)),
        ("process_group_reaped"@, Tree::Bool(process_group_reaped)),
        ("rss_exceeded"@, Tree::Bool(rss_exceeded)),
        ("containment_escaped"@, Tree::Bool(containment_escaped)),
        ("containment_diagnostic"@, optional_text_tree(match containment_diagnostic { Some(text) => Some(text@), None => None })),
    ]
}

fn write_terminal(nonce: &String, exit_code: &Option<i32>, signal: &Option<i32>, timed_out: &bool, canceled: &bool, pipes_eof: &bool, process_group_reaped: &bool, rss_exceeded: &bool, containment_escaped: &bool, containment_diagnostic: &Option<String>) -> (r: Document)
    ensures
        r@ == Tree::Table(terminal_entries(*nonce, *exit_code, *signal, *timed_out, *canceled, *pipes_eof, *process_group_reaped, *rss_exceeded, *containment_escaped, *containment_diagnostic)),
        r@.writable(8),
        report_reads(r@, (WorkerOutput::Terminal { nonce: *nonce, exit_code: *exit_code, signal: *signal, timed_out: *timed_out, canceled: *canceled, pipes_eof: *pipes_eof, process_group_reaped: *process_group_reaped, rss_exceeded: *rss_exceeded, containment_escaped: *containment_escaped, containment_diagnostic: *containment_diagnostic })),
{
    let mut fields = Fields::new();
    fields.put("type", Document::Text("terminal".to_owned()));
    let nonce_value = Document::Text(nonce.as_str().to_owned());
    fields.put("nonce", nonce_value);
    let exit_code_value = optional_i32_document(*exit_code);
    fields.put("exit_code", exit_code_value);
    let signal_value = optional_i32_document(*signal);
    fields.put("signal", signal_value);
    let timed_out_value = Document::Bool(*timed_out);
    fields.put("timed_out", timed_out_value);
    let canceled_value = Document::Bool(*canceled);
    fields.put("canceled", canceled_value);
    let pipes_eof_value = Document::Bool(*pipes_eof);
    fields.put("pipes_eof", pipes_eof_value);
    let process_group_reaped_value = Document::Bool(*process_group_reaped);
    fields.put("process_group_reaped", process_group_reaped_value);
    let rss_exceeded_value = Document::Bool(*rss_exceeded);
    fields.put("rss_exceeded", rss_exceeded_value);
    let containment_escaped_value = Document::Bool(*containment_escaped);
    fields.put("containment_escaped", containment_escaped_value);
    let containment_diagnostic_value = optional_text_document(containment_diagnostic);
    fields.put("containment_diagnostic", containment_diagnostic_value);
    proof {
        let entries = fields@;
        assert(entries =~= terminal_entries(*nonce, *exit_code, *signal, *timed_out, *canceled, *pipes_eof, *process_group_reaped, *rss_exceeded, *containment_escaped, *containment_diagnostic));
        lemma_field_names();
        assert(entries[0].0 == "type"@);
        assert(entries[1].0 == "nonce"@);
        assert(entries[2].0 == "exit_code"@);
        assert(entries[3].0 == "signal"@);
        assert(entries[4].0 == "timed_out"@);
        assert(entries[5].0 == "canceled"@);
        assert(entries[6].0 == "pipes_eof"@);
        assert(entries[7].0 == "process_group_reaped"@);
        assert(entries[8].0 == "rss_exceeded"@);
        assert(entries[9].0 == "containment_escaped"@);
        assert(entries[10].0 == "containment_diagnostic"@);
        assert(distinct_entries(entries));
        lemma_lookup_finds(entries, 0);
        lemma_lookup_finds(entries, 1);
        lemma_lookup_finds(entries, 2);
        lemma_lookup_finds(entries, 3);
        lemma_lookup_finds(entries, 4);
        lemma_lookup_finds(entries, 5);
        lemma_lookup_finds(entries, 6);
        lemma_lookup_finds(entries, 7);
        lemma_lookup_finds(entries, 8);
        lemma_lookup_finds(entries, 9);
        lemma_lookup_finds(entries, 10);
        assert(entries[0].1.writable(7));
        assert(entries[1].1.writable(7));
        assert(entries[2].1.writable(7));
        assert(entries[3].1.writable(7));
        assert(entries[4].1.writable(7));
        assert(entries[5].1.writable(7));
        assert(entries[6].1.writable(7));
        assert(entries[7].1.writable(7));
        assert(entries[8].1.writable(7));
        assert(entries[9].1.writable(7));
        assert(entries[10].1.writable(7));
        lemma_table_writable(entries, 7);
    }
    fields.build()
}

/// What a worker reports is what it meant: reports that are read from one document are
/// written in one way.
pub proof fn law_one_notation_one_report(tree: Tree, one: WorkerOutput, other: WorkerOutput)
    requires
        report_reads(tree, one),
        report_reads(tree, other),
    ensures
        one.tree() == other.tree(),
{
    reveal_strlit("registered");
    reveal_strlit("started");
    reveal_strlit("log");
    reveal_strlit("terminal");
    assert("registered"@.len() == 10 && "started"@.len() == 7 && "log"@.len() == 3
        && "terminal"@.len() == 8);
    assert(one.tree()->Table_0 =~= other.tree()->Table_0);
}

} // verus!
