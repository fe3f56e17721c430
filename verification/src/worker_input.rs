//! What a step worker is told.

use crate::document::{Document, Fields, text_list};
#[allow(unused_imports)]
use crate::document::{
    distinct_entries, lemma_text_trees, lemma_lookup_finds, lemma_table_writable, lemma_writable_deeper, Tree, text_trees,
};
use crate::outside::{json_value, write_json};
#[allow(unused_imports)]
use crate::outside::{json_parsed, json_written};
use crate::text::str_equal;
#[allow(unused_imports)]
use crate::text::texts;
use crate::text_map::TextMap;
use crate::wire::{optional_number_document, text_map_document};
#[allow(unused_imports)]
use crate::wire::{lemma_one_table_one_notation, optional_number_tree, text_map_tree};
use vstd::prelude::*;

verus! {

/// What a step worker is told: what to run, to start, and to stop.
#[derive(Clone, Debug, PartialEq, Eq)]
#[allow(inconsistent_fields)]
pub enum WorkerInput {
    Spec { nonce: String, cwd: String, argv: Vec<String>, environment: TextMap<String>, timeout_ms: u64, termination_grace_ms: u64, rss_limit_bytes: Option<u64> },
    Start { nonce: String },
    Terminate { nonce: String },
}

impl WorkerInput {
    /// The name of the order on the wire.
    pub open spec fn wire_name(self) -> Seq<char> {
        match self {
            WorkerInput::Spec { .. } => "spec"@,
            WorkerInput::Start { .. } => "start"@,
            WorkerInput::Terminate { .. } => "terminate"@,
        }
    }

    /// What the order is written as: a table of its name, then its fields.
    pub open spec fn tree(self) -> Tree {
        match self {
            WorkerInput::Spec { nonce, cwd, argv, environment, timeout_ms, termination_grace_ms, rss_limit_bytes } => Tree::Table(spec_entries(nonce, cwd, argv, environment, timeout_ms, termination_grace_ms, rss_limit_bytes)),
            WorkerInput::Start { nonce } => Tree::Table(start_entries(nonce)),
            WorkerInput::Terminate { nonce } => Tree::Table(terminate_entries(nonce)),
        }
    }

    /// Writes the order. What is written reads back as the order.
    pub fn to_document(&self) -> (r: Document)
        ensures
            r@ == self.tree(),
            r@.writable(8),
            order_reads(r@, *self),
    {
        match self {
            WorkerInput::Spec { nonce, cwd, argv, environment, timeout_ms, termination_grace_ms, rss_limit_bytes } => write_spec(nonce, cwd, argv, environment, timeout_ms, termination_grace_ms, rss_limit_bytes),
            WorkerInput::Start { nonce } => write_start(nonce),
            WorkerInput::Terminate { nonce } => write_terminate(nonce),
        }
    }

    /// Writes the order as JSON.
    pub fn to_json(&self) -> (r: Vec<u8>)
        ensures
            r@ == json_written(self.tree()),
            json_parsed(r@) == Some(self.tree()),
            order_reads(self.tree(), *self),
    {
        let document = self.to_document();
        proof {
            lemma_writable_deeper(document@, 8, 127);
        }
        write_json(&json_value(&document))
    }

    /// Reads an order. Fields that nobody knows are passed over.
    pub fn read(document: &Document) -> (r: Option<WorkerInput>)
        ensures
            r is Some <==> order_readable(document@),
            r matches Some(order) ==> order_reads(document@, order),
    {
        let name = match document.text_field("type", None) {
            Some(name) => name,
            None => {
                return None;
            },
        };
        if str_equal(name.as_str(), "spec") {
            return read_spec(document);
        }
        if str_equal(name.as_str(), "start") {
            return read_start(document);
        }
        if str_equal(name.as_str(), "terminate") {
            return read_terminate(document);
        }
        None
    }
}

/// The document can be read as a order.
pub open spec fn order_readable(t: Tree) -> bool {
    match t.text_field("type"@, None) {
        None => false,
        Some(name) => {
            if name == "spec"@ {
                spec_readable(t)
            } else if name == "start"@ {
                start_readable(t)
            } else if name == "terminate"@ {
                terminate_readable(t)
            } else {
                false
            }
        },
    }
}

/// Read as a order, the document gives this one.
pub open spec fn order_reads(t: Tree, order: WorkerInput) -> bool {
    &&& t.text_field("type"@, None) == Some(order.wire_name())
    &&& match order {
        WorkerInput::Spec { nonce, cwd, argv, environment, timeout_ms, termination_grace_ms, rss_limit_bytes } => {
            &&& t.text_field("nonce"@, None) == Some(nonce@)
            &&& t.text_field("cwd"@, None) == Some(cwd@)
            &&& t.texts_field("argv"@, true) == Some(texts(argv@))
            &&& t.text_table("environment"@, environment@)
            &&& t.number_field("timeout_ms"@, None::<nat>, u64::MAX as nat) == Some(timeout_ms as nat)
            &&& t.number_field("termination_grace_ms"@, None::<nat>, u64::MAX as nat) == Some(termination_grace_ms as nat)
            &&& t.optional_number("rss_limit_bytes"@, u64::MAX as nat) == Some(match rss_limit_bytes { Some(number) => Some(number as nat), None => None })
        },
        WorkerInput::Start { nonce } => {
            &&& t.text_field("nonce"@, None) == Some(nonce@)
        },
        WorkerInput::Terminate { nonce } => {
            &&& t.text_field("nonce"@, None) == Some(nonce@)
        },
    }
}

/// The document holds the fields of the order.
pub open spec fn spec_readable(t: Tree) -> bool {
    &&& t.text_field("nonce"@, None) is Some
    &&& t.text_field("cwd"@, None) is Some
    &&& t.texts_field("argv"@, true) is Some
    &&& t.has_text_table("environment"@)
    &&& t.number_field("timeout_ms"@, None::<nat>, u64::MAX as nat) is Some
    &&& t.number_field("termination_grace_ms"@, None::<nat>, u64::MAX as nat) is Some
    &&& t.optional_number("rss_limit_bytes"@, u64::MAX as nat) is Some
}

fn read_spec(document: &Document) -> (r: Option<WorkerInput>)
    requires
        document@.text_field("type"@, None) == Some("spec"@),
    ensures
        r is Some <==> spec_readable(document@),
        r matches Some(order) ==> order_reads(document@, order),
{
    let nonce = match document.text_field("nonce", None) {
        Some(value) => value,
        None => {
            return None;
        },
    };
    let cwd = match document.text_field("cwd", None) {
        Some(value) => value,
        None => {
            return None;
        },
    };
    let argv = match document.texts_field("argv", true) {
        Some(value) => value,
        None => {
            return None;
        },
    };
    let environment = match document.text_table("environment") {
        Some(value) => value,
        None => {
            return None;
        },
    };
    let timeout_ms: u64 = match document.number_field("timeout_ms", None, u64::MAX) {
        Some(value) => value,
        None => {
            return None;
        },
    };
    let termination_grace_ms: u64 = match document.number_field("termination_grace_ms", None, u64::MAX) {
        Some(value) => value,
        None => {
            return None;
        },
    };
    let rss_limit_bytes = match document.optional_number("rss_limit_bytes", u64::MAX) {
        Some(value) => value,
        None => {
            return None;
        },
    };
    Some(WorkerInput::Spec { nonce, cwd, argv, environment, timeout_ms, termination_grace_ms, rss_limit_bytes })
}

/// The document holds the fields of the order.
pub open spec fn start_readable(t: Tree) -> bool {
    &&& t.text_field("nonce"@, None) is Some
}

fn read_start(document: &Document) -> (r: Option<WorkerInput>)
    requires
        document@.text_field("type"@, None) == Some("start"@),
    ensures
        r is Some <==> start_readable(document@),
        r matches Some(order) ==> order_reads(document@, order),
{
    let nonce = match document.text_field("nonce", None) {
        Some(value) => value,
        None => {
            return None;
        },
    };
    Some(WorkerInput::Start { nonce })
}

/// The document holds the fields of the order.
pub open spec fn terminate_readable(t: Tree) -> bool {
    &&& t.text_field("nonce"@, None) is Some
}

fn read_terminate(document: &Document) -> (r: Option<WorkerInput>)
    requires
        document@.text_field("type"@, None) == Some("terminate"@),
    ensures
        r is Some <==> terminate_readable(document@),
        r matches Some(order) ==> order_reads(document@, order),
{
    let nonce = match document.text_field("nonce", None) {
        Some(value) => value,
        None => {
            return None;
        },
    };
    Some(WorkerInput::Terminate { nonce })
}

/// The names of fields that occur together are different.
proof fn lemma_field_names()
    ensures
        "argv"@ != "cwd"@,
        "argv"@ != "environment"@,
        "argv"@ != "nonce"@,
        "argv"@ != "rss_limit_bytes"@,
        "argv"@ != "termination_grace_ms"@,
        "argv"@ != "timeout_ms"@,
        "argv"@ != "type"@,
        "cwd"@ != "environment"@,
        "cwd"@ != "nonce"@,
        "cwd"@ != "rss_limit_bytes"@,
        "cwd"@ != "termination_grace_ms"@,
        "cwd"@ != "timeout_ms"@,
        "cwd"@ != "type"@,
        "environment"@ != "nonce"@,
        "environment"@ != "rss_limit_bytes"@,
        "environment"@ != "termination_grace_ms"@,
        "environment"@ != "timeout_ms"@,
        "environment"@ != "type"@,
        "nonce"@ != "rss_limit_bytes"@,
        "nonce"@ != "termination_grace_ms"@,
        "nonce"@ != "timeout_ms"@,
        "nonce"@ != "type"@,
        "rss_limit_bytes"@ != "termination_grace_ms"@,
        "rss_limit_bytes"@ != "timeout_ms"@,
        "rss_limit_bytes"@ != "type"@,
        "termination_grace_ms"@ != "timeout_ms"@,
        "termination_grace_ms"@ != "type"@,
        "timeout_ms"@ != "type"@,
{
    reveal_strlit("argv");
    reveal_strlit("cwd");
    reveal_strlit("environment");
    reveal_strlit("nonce");
    reveal_strlit("rss_limit_bytes");
    reveal_strlit("termination_grace_ms");
    reveal_strlit("timeout_ms");
    reveal_strlit("type");
    assert("argv"@.len() != "cwd"@.len());
    assert("argv"@.len() != "environment"@.len());
    assert("argv"@.len() != "nonce"@.len());
    assert("argv"@.len() != "rss_limit_bytes"@.len());
    assert("argv"@.len() != "termination_grace_ms"@.len());
    assert("argv"@.len() != "timeout_ms"@.len());
    assert("argv"@[0] != "type"@[0]);
    assert("cwd"@.len() != "environment"@.len());
    assert("cwd"@.len() != "nonce"@.len());
    assert("cwd"@.len() != "rss_limit_bytes"@.len());
    assert("cwd"@.len() != "termination_grace_ms"@.len());
    assert("cwd"@.len() != "timeout_ms"@.len());
    assert("cwd"@.len() != "type"@.len());
    assert("environment"@.len() != "nonce"@.len());
    assert("environment"@.len() != "rss_limit_bytes"@.len());
    assert("environment"@.len() != "termination_grace_ms"@.len());
    assert("environment"@.len() != "timeout_ms"@.len());
    assert("environment"@.len() != "type"@.len());
    assert("nonce"@.len() != "rss_limit_bytes"@.len());
    assert("nonce"@.len() != "termination_grace_ms"@.len());
    assert("nonce"@.len() != "timeout_ms"@.len());
    assert("nonce"@.len() != "type"@.len());
    assert("rss_limit_bytes"@.len() != "termination_grace_ms"@.len());
    assert("rss_limit_bytes"@.len() != "timeout_ms"@.len());
    assert("rss_limit_bytes"@.len() != "type"@.len());
    assert("termination_grace_ms"@.len() != "timeout_ms"@.len());
    assert("termination_grace_ms"@.len() != "type"@.len());
    assert("timeout_ms"@.len() != "type"@.len());
}

pub open spec fn spec_entries(nonce: String, cwd: String, argv: Vec<String>, environment: TextMap<String>, timeout_ms: u64, termination_grace_ms: u64, rss_limit_bytes: Option<u64>) -> Seq<
    (Seq<char>, Tree),
> {
    seq![
        ("type"@, Tree::Text("spec"@)),
        ("nonce"@, Tree::Text(nonce@)),
        ("cwd"@, Tree::Text(cwd@)),
        ("argv"@, text_trees(texts(argv@))),
        ("environment"@, text_map_tree(environment.keys(), environment@)),
        ("timeout_ms"@, Tree::Integer(timeout_ms as int)),
        ("termination_grace_ms"@, Tree::Integer(termination_grace_ms as int)),
        ("rss_limit_bytes"@, optional_number_tree(rss_limit_bytes)),
    ]
}

fn write_spec(nonce: &String, cwd: &String, argv: &Vec<String>, environment: &TextMap<String>, timeout_ms: &u64, termination_grace_ms: &u64, rss_limit_bytes: &Option<u64>) -> (r: Document)
    ensures
        r@ == Tree::Table(spec_entries(*nonce, *cwd, *argv, *environment, *timeout_ms, *termination_grace_ms, *rss_limit_bytes)),
        r@.writable(8),
        order_reads(r@, (WorkerInput::Spec { nonce: *nonce, cwd: *cwd, argv: *argv, environment: *environment, timeout_ms: *timeout_ms, termination_grace_ms: *termination_grace_ms, rss_limit_bytes: *rss_limit_bytes })),
{
    let mut fields = Fields::new();
    fields.put("type", Document::Text("spec".to_owned()));
    let nonce_value = Document::Text(nonce.as_str().to_owned());
    fields.put("nonce", nonce_value);
    let cwd_value = Document::Text(cwd.as_str().to_owned());
    fields.put("cwd", cwd_value);
    let argv_value = text_list(argv);
    fields.put("argv", argv_value);
    let environment_value = text_map_document(environment);
    fields.put("environment", environment_value);
    let timeout_ms_value = Document::Integer(*timeout_ms as i128);
    fields.put("timeout_ms", timeout_ms_value);
    let termination_grace_ms_value = Document::Integer(*termination_grace_ms as i128);
    fields.put("termination_grace_ms", termination_grace_ms_value);
    let rss_limit_bytes_value = optional_number_document(*rss_limit_bytes);
    fields.put("rss_limit_bytes", rss_limit_bytes_value);
    proof {
        let entries = fields@;
        assert(entries =~= spec_entries(*nonce, *cwd, *argv, *environment, *timeout_ms, *termination_grace_ms, *rss_limit_bytes));
        lemma_field_names();
        assert(entries[0].0 == "type"@);
        assert(entries[1].0 == "nonce"@);
        assert(entries[2].0 == "cwd"@);
        assert(entries[3].0 == "argv"@);
        assert(entries[4].0 == "environment"@);
        assert(entries[5].0 == "timeout_ms"@);
        assert(entries[6].0 == "termination_grace_ms"@);
        assert(entries[7].0 == "rss_limit_bytes"@);
        assert(distinct_entries(entries));
        lemma_lookup_finds(entries, 0);
        lemma_lookup_finds(entries, 1);
        lemma_lookup_finds(entries, 2);
        lemma_lookup_finds(entries, 3);
        lemma_lookup_finds(entries, 4);
        lemma_lookup_finds(entries, 5);
        lemma_lookup_finds(entries, 6);
        lemma_lookup_finds(entries, 7);
        assert forall|i: int| 0 <= i < text_trees(texts(argv@))->List_0.len() implies (
        #[trigger] text_trees(texts(argv@))->List_0[i]).writable(6) by {}
        assert(text_trees(texts(argv@)).writable(7));
        lemma_text_trees(texts(argv@));
        lemma_writable_deeper(environment_value@, 1, 7);
        assert(entries[0].1.writable(7));
        assert(entries[1].1.writable(7));
        assert(entries[2].1.writable(7));
        assert(entries[3].1.writable(7));
        assert(entries[4].1.writable(7));
        assert(entries[5].1.writable(7));
        assert(entries[6].1.writable(7));
        assert(entries[7].1.writable(7));
        lemma_table_writable(entries, 7);
    }
    fields.build()
}

pub open spec fn start_entries(nonce: String) -> Seq<
    (Seq<char>, Tree),
> {
    seq![
        ("type"@, Tree::Text("start"@)),
        ("nonce"@, Tree::Text(nonce@)),
    ]
}

fn write_start(nonce: &String) -> (r: Document)
    ensures
        r@ == Tree::Table(start_entries(*nonce)),
        r@.writable(8),
        order_reads(r@, (WorkerInput::Start { nonce: *nonce })),
{
    let mut fields = Fields::new();
    fields.put("type", Document::Text("start".to_owned()));
    let nonce_value = Document::Text(nonce.as_str().to_owned());
    fields.put("nonce", nonce_value);
    proof {
        let entries = fields@;
        assert(entries =~= start_entries(*nonce));
        lemma_field_names();
        assert(entries[0].0 == "type"@);
        assert(entries[1].0 == "nonce"@);
        assert(distinct_entries(entries));
        lemma_lookup_finds(entries, 0);
        lemma_lookup_finds(entries, 1);
        assert(entries[0].1.writable(7));
        assert(entries[1].1.writable(7));
        lemma_table_writable(entries, 7);
    }
    fields.build()
}

pub open spec fn terminate_entries(nonce: String) -> Seq<
    (Seq<char>, Tree),
> {
    seq![
        ("type"@, Tree::Text("terminate"@)),
        ("nonce"@, Tree::Text(nonce@)),
    ]
}

fn write_terminate(nonce: &String) -> (r: Document)
    ensures
        r@ == Tree::Table(terminate_entries(*nonce)),
        r@.writable(8),
        order_reads(r@, (WorkerInput::Terminate { nonce: *nonce })),
{
    let mut fields = Fields::new();
    fields.put("type", Document::Text("terminate".to_owned()));
    let nonce_value = Document::Text(nonce.as_str().to_owned());
    fields.put("nonce", nonce_value);
    proof {
        let entries = fields@;
        assert(entries =~= terminate_entries(*nonce));
        lemma_field_names();
        assert(entries[0].0 == "type"@);
        assert(entries[1].0 == "nonce"@);
        assert(distinct_entries(entries));
        lemma_lookup_finds(entries, 0);
        lemma_lookup_finds(entries, 1);
        assert(entries[0].1.writable(7));
        assert(entries[1].1.writable(7));
        lemma_table_writable(entries, 7);
    }
    fields.build()
}

/// The variables that an order gives are in order, as they always are.
pub open spec fn variables_sound(order: WorkerInput) -> bool {
    order matches WorkerInput::Spec { environment, .. } ==> environment.sound()
}

/// A worker is told what was meant: orders that are read from one document are written in
/// one way.
pub proof fn law_one_notation_one_order(tree: Tree, one: WorkerInput, other: WorkerInput)
    requires
        order_reads(tree, one),
        order_reads(tree, other),
        variables_sound(one),
        variables_sound(other),
    ensures
        one.tree() == other.tree(),
{
    reveal_strlit("spec");
    reveal_strlit("start");
    reveal_strlit("terminate");
    assert("spec"@.len() == 4 && "start"@.len() == 5 && "terminate"@.len() == 9);
    match one {
        WorkerInput::Spec { environment: variables, .. } => {
            assert(other is Spec);
            if let WorkerInput::Spec { environment, .. } = other {
                lemma_one_table_one_notation(
                    tree.field("environment"@)->0,
                    variables,
                    environment,
                );
            }
        },
        _ => {},
    }
    assert(one.tree()->Table_0 =~= other.tree()->Table_0);
}

} // verus!
