//! The diagnostics that a step leaves behind: one JSON object on each line.

use crate::document::Document;
#[allow(unused_imports)]
use crate::document::Tree;
use crate::outside::{decode_text, json_document, parse_json};
#[allow(unused_imports)]
use crate::outside::json_parsed;
use crate::runner::{validate_step_diagnostic, RepairCommand, StepDiagnostic};
#[allow(unused_imports)]
use crate::runner::{diagnostic_fault, DiagnosticView};
use crate::scan::{lines_str, trim_str};
#[allow(unused_imports)]
use crate::scan::{begins_with, lines_of, trimmed};
use crate::text::{concat3, decimal_string, str_equal};
#[allow(unused_imports)]
use crate::text::{decimal, texts};
use vstd::prelude::*;
use vstd::utf8::encode_utf8;

verus! {

/// The greatest length of all diagnostics together, in bytes: 1 MiB.
pub const MAX_DIAGNOSTIC_BYTES: usize = 1_048_576;

/// The greatest number of diagnostics.
pub const MAX_DIAGNOSTICS: usize = 128;

/// What several diagnostics say.
pub open spec fn diagnostic_views(items: Seq<StepDiagnostic>) -> Seq<DiagnosticView> {
    items.map_values(|item: StepDiagnostic| item@)
}

/// The repair command that a document describes: none, or one of a known kind.
pub open spec fn repair_of(t: Tree) -> Option<Option<Seq<Seq<char>>>> {
    match t.field("repair"@) {
        None | Some(Tree::Null) => Some(None),
        Some(value) => if value.text_field("kind"@, None) == Some("argv"@) {
            match value.texts_field("argv"@, true) {
                Some(argv) => Some(Some(argv)),
                None => None,
            }
        } else {
            None
        },
    }
}

/// The diagnostic that a document describes.
pub open spec fn diagnostic_of(t: Tree) -> Option<DiagnosticView> {
    match (
        t.text_field("code"@, None),
        t.text_field("message"@, None),
        t.texts_field("paths"@, false),
        repair_of(t),
    ) {
        (Some(code), Some(message), Some(paths), Some(repair)) => Some(
            DiagnosticView { code, message, paths, repair },
        ),
        _ => None,
    }
}

/// The diagnostic that a line holds.
pub open spec fn record_of(line: Seq<char>) -> Option<DiagnosticView> {
    match json_parsed(encode_utf8(line)) {
        Some(tree) => diagnostic_of(tree),
        None => None,
    }
}

/// What is wrong with diagnostics.
#[allow(inconsistent_fields)]
pub enum DiagnosticsFault {
    TooLong,
    NotText,
    TooMany,
    Malformed { record: nat },
    Invalid { record: nat, reason: Seq<char> },
}

/// The diagnostics on the lines from `i` on, after those already found.
pub open spec fn records_from(
    lines: Seq<Seq<char>>,
    i: int,
    found: Seq<DiagnosticView>,
) -> Result<Seq<DiagnosticView>, DiagnosticsFault>
    decreases lines.len() - i,
{
    if i >= lines.len() {
        Ok(found)
    } else if trimmed(lines[i]).len() == 0 {
        records_from(lines, i + 1, found)
    } else if found.len() == MAX_DIAGNOSTICS {
        Err(DiagnosticsFault::TooMany)
    } else {
        match record_of(lines[i]) {
            None => Err(DiagnosticsFault::Malformed { record: (i + 1) as nat }),
            Some(view) => match diagnostic_fault(view) {
                Some(reason) => Err(DiagnosticsFault::Invalid { record: (i + 1) as nat, reason }),
                None => records_from(lines, i + 1, found.push(view)),
            },
        }
    }
}

/// The diagnostics that bytes hold.
pub open spec fn records_of(bytes: Seq<u8>) -> Result<Seq<DiagnosticView>, DiagnosticsFault> {
    if bytes.len() > MAX_DIAGNOSTIC_BYTES {
        Err(DiagnosticsFault::TooLong)
    } else if !vstd::utf8::valid_utf8(bytes) {
        Err(DiagnosticsFault::NotText)
    } else {
        records_from(lines_of(vstd::utf8::decode_utf8(bytes)), 0, Seq::empty())
    }
}

/// The message says what is wrong. The wording of a decoder's complaint is left open.
pub open spec fn says(message: Seq<char>, fault: DiagnosticsFault) -> bool {
    match fault {
        DiagnosticsFault::TooLong => message == "diagnostic output exceeds "@ + decimal(
            MAX_DIAGNOSTIC_BYTES as nat,
        ) + " bytes"@,
        DiagnosticsFault::NotText => begins_with(message, "diagnostic output is not UTF-8: "@),
        DiagnosticsFault::TooMany => message == "diagnostic output exceeds "@ + decimal(
            MAX_DIAGNOSTICS as nat,
        ) + " records"@,
        DiagnosticsFault::Malformed { record } => begins_with(
            message,
            "diagnostic record "@ + decimal(record) + " is malformed: "@,
        ),
        DiagnosticsFault::Invalid { record, reason } => message == "diagnostic record "@ + decimal(
            record,
        ) + " is invalid: "@ + reason,
    }
}

impl StepDiagnostic {
    /// Reads a diagnostic.
    pub fn read(document: &Document) -> (r: Option<StepDiagnostic>)
        ensures
            r is Some <==> diagnostic_of(document@) is Some,
            r matches Some(item) ==> diagnostic_of(document@) == Some(item@),
    {
        let code = match document.text_field("code", None) {
            Some(value) => value,
            None => {
                return None;
            },
        };
        let message = match document.text_field("message", None) {
            Some(value) => value,
            None => {
                return None;
            },
        };
        let paths = match document.texts_field("paths", false) {
            Some(value) => value,
            None => {
                return None;
            },
        };
        let repair = match document.get("repair") {
            None => None,
            Some(Document::Null) => None,
            Some(value) => {
                let kind = match value.text_field("kind", None) {
                    Some(kind) => kind,
                    None => {
                        return None;
                    },
                };
                if !str_equal(kind.as_str(), "argv") {
                    return None;
                }
                match value.texts_field("argv", true) {
                    Some(argv) => Some(RepairCommand::Argv { argv }),
                    None => {
                        return None;
                    },
                }
            },
        };
        Some(StepDiagnostic { code, message, paths, repair })
    }
}

proof fn lemma_begins(prefix: Seq<char>, rest: Seq<char>)
    ensures
        begins_with(prefix + rest, prefix),
{
    assert((prefix + rest).subrange(0, prefix.len() as int) =~= prefix);
}

fn record_text(record: u64, verdict: &str, reason: &str) -> (r: String)
    ensures
        r@ == "diagnostic record "@ + decimal(record as nat) + verdict@ + reason@,
{
    concat3("diagnostic record ", decimal_string(record).as_str(), verdict).concat(reason)
}

/// Reads the diagnostics that a step left.
pub fn read_step_diagnostics(bytes: &[u8]) -> (r: Result<Vec<StepDiagnostic>, String>)
    ensures
        r is Ok <==> records_of(bytes@) is Ok,
        r matches Ok(items) ==> records_of(bytes@)
            == Ok::<Seq<DiagnosticView>, DiagnosticsFault>(diagnostic_views(items@)),
        r matches Err(message) ==> (records_of(bytes@) matches Err(fault) && says(message@, fault)),
{
    if bytes.len() > MAX_DIAGNOSTIC_BYTES {
        return Err(
            concat3(
                "diagnostic output exceeds ",
                decimal_string(MAX_DIAGNOSTIC_BYTES as u64).as_str(),
                " bytes",
            ),
        );
    }
    let text = match decode_text(bytes) {
        Ok(text) => text,
        Err(reason) => {
            let message = "diagnostic output is not UTF-8: ".to_owned().concat(reason.as_str());
            proof {
                lemma_begins("diagnostic output is not UTF-8: "@, reason@);
            }
            return Err(message);
        },
    };
    let lines = lines_str(text.as_str());
    let ghost all = texts(lines@);
    let mut items: Vec<StepDiagnostic> = Vec::new();
    let mut i: usize = 0;
    assert(diagnostic_views(items@) =~= Seq::empty());
    while i < lines.len()
        invariant
            i <= lines@.len(),
            all == texts(lines@),
            items@.len() <= MAX_DIAGNOSTICS,
            records_of(bytes@) == records_from(all, i as int, diagnostic_views(items@)),
        decreases lines@.len() - i,
    {
        let line = lines[i].as_str();
        assert(all[i as int] == line@);
        let number: u64 = i as u64 + 1;
        let blank = trim_str(line);
        if blank.as_str().as_bytes().len() == 0 {
            proof {
                assert(encode_utf8(Seq::<char>::empty()) =~= Seq::empty());
                crate::text::lemma_utf8_injective(blank@, Seq::empty());
            }
            i += 1;
            continue;
        }
        assert(blank@.len() != 0) by {
            if blank@.len() == 0 {
                assert(blank@ =~= Seq::empty());
                assert(encode_utf8(Seq::<char>::empty()) =~= Seq::empty());
            }
        }
        if items.len() == MAX_DIAGNOSTICS {
            return Err(
                concat3(
                    "diagnostic output exceeds ",
                    decimal_string(MAX_DIAGNOSTICS as u64).as_str(),
                    " records",
                ),
            );
        }
        let value = match parse_json(line.as_bytes()) {
            Ok(value) => value,
            Err(reason) => {
                proof {
                    lemma_begins(
                        "diagnostic record "@ + decimal(number as nat) + " is malformed: "@,
                        reason@,
                    );
                }
                return Err(record_text(number, " is malformed: ", reason.as_str()));
            },
        };
        let document = json_document(value);
        let item = match StepDiagnostic::read(&document) {
            Some(item) => item,
            None => {
                proof {
                    lemma_begins(
                        "diagnostic record "@ + decimal(number as nat) + " is malformed: "@,
                        "unexpected shape"@,
                    );
                }
                return Err(record_text(number, " is malformed: ", "unexpected shape"));
            },
        };
        match validate_step_diagnostic(&item) {
            Ok(()) => {},
            Err(reason) => {
                return Err(record_text(number, " is invalid: ", reason.as_str()));
            },
        }
        let ghost before = items@;
        items.push(item);
        assert(diagnostic_views(items@) =~= diagnostic_views(before).push(item@));
        i += 1;
    }
    Ok(items)
}

} // verus!
