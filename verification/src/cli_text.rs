//! What the command line shows.

use crate::document::Document;
#[allow(unused_imports)]
use crate::document::Tree;
use crate::event::Actor;
use crate::ids::{QueueItemId, RepositoryId, SlotId};
use crate::oid::GitOid;
use crate::outside::{decode_text, json_value, write_json};
#[allow(unused_imports)]
use crate::outside::{json_written, uuid_text};
use crate::state::{QueueItemState, RepositoryExecutionState};
use crate::text::{
    chars_of, concat3, decimal_string, join_strings, slice_text, str_equal,
};
#[allow(unused_imports)]
use crate::text::{decimal, join_texts, texts};
use vstd::prelude::*;
#[allow(unused_imports)]
use vstd::utf8::{decode_utf8, valid_utf8};

verus! {

/// So many spaces.
pub open spec fn spaces(count: nat) -> Seq<char> {
    Seq::new(count, |i: int| ' ')
}

/// The text with spaces behind it, up to a width.
pub open spec fn pad_right(text: Seq<char>, width: nat) -> Seq<char> {
    if text.len() < width {
        text + spaces((width - text.len()) as nat)
    } else {
        text
    }
}

/// The text with spaces before it, up to a width.
pub open spec fn pad_left(text: Seq<char>, width: nat) -> Seq<char> {
    if text.len() < width {
        spaces((width - text.len()) as nat) + text
    } else {
        text
    }
}

fn space_run(count: usize) -> (r: String)
    ensures
        r@ == spaces(count as nat),
{
    let mut out = String::new();
    let mut i: usize = 0;
    assert(out@ =~= spaces(0));
    while i < count
        invariant
            i <= count,
            out@ == spaces(i as nat),
        decreases count - i,
    {
        out.append(" ");
        i += 1;
        proof {
            reveal_strlit(" ");
            assert(out@ =~= spaces(i as nat));
        }
    }
    out
}

fn padded_right(text: &str, width: usize) -> (r: String)
    ensures
        r@ == pad_right(text@, width as nat),
{
    let len: usize = chars_of(text).len();
    if len < width {
        text.to_owned().concat(space_run(width - len).as_str())
    } else {
        text.to_owned()
    }
}

fn padded_left(text: &str, width: usize) -> (r: String)
    ensures
        r@ == pad_left(text@, width as nat),
{
    let len: usize = chars_of(text).len();
    if len < width {
        space_run(width - len).concat(text)
    } else {
        text.to_owned()
    }
}

/// The first characters of a text.
pub open spec fn first_chars(text: Seq<char>, count: nat) -> Seq<char> {
    if text.len() < count {
        text
    } else {
        text.take(count as int)
    }
}

fn beginning(text: &str, count: usize) -> (r: String)
    ensures
        r@ == first_chars(text@, count as nat),
{
    let len: usize = chars_of(text).len();
    if len < count {
        return text.to_owned();
    }
    let r = slice_text(text, 0, count);
    assert(r@ =~= text@.take(count as int));
    r
}

/// The first ten characters of an object identifier.
pub fn short_oid(value: &str) -> (r: String)
    ensures
        r@ == first_chars(value@, 10),
{
    beginning(value, 10)
}

/// What a field holds, or null.
pub open spec fn at(tree: Tree, name: Seq<char>) -> Tree {
    match tree.field(name) {
        Some(value) => value,
        None => Tree::Null,
    }
}

/// The text that a field holds, or another.
pub open spec fn text_at(tree: Tree, name: Seq<char>, fallback: Seq<char>) -> Seq<char> {
    match at(tree, name) {
        Tree::Text(text) => text,
        _ => fallback,
    }
}

fn text_of(value: &Document, name: &str, fallback: &str) -> (r: String)
    ensures
        r@ == text_at(value@, name@, fallback@),
{
    match value.get(name) {
        Some(Document::Text(text)) => text.as_str().to_owned(),
        _ => fallback.to_owned(),
    }
}

/// The number that a field holds, or zero.
pub open spec fn number_at(tree: Tree, name: Seq<char>) -> nat {
    match at(tree, name).as_number(u64::MAX as nat) {
        Some(number) => number,
        None => 0,
    }
}

fn number_of_field(value: &Document, name: &str) -> (r: u64)
    ensures
        r == number_at(value@, name@),
{
    match value.get(name) {
        Some(field) => match field.read_number(u64::MAX) {
            Some(number) => number,
            None => 0,
        },
        None => 0,
    }
}

/// How a value is shown: in JSON notation.
pub open spec fn shown(tree: Tree) -> Seq<char> {
    decode_utf8(json_written(tree))
}

fn show_field(value: &Document, name: &str) -> (r: String)
    requires
        at(value@, name@).has_notation(),
    ensures
        r@ == shown(at(value@, name@)),
{
    let bytes = match value.get(name) {
        Some(field) => write_json(&json_value(field)),
        None => write_json(&json_value(&Document::Null)),
    };
    match decode_text(bytes.as_slice()) {
        Ok(text) => text,
        Err(_) => {
            assert(false);
            String::new()
        },
    }
}

/// How an object identifier that a field holds is shown.
pub open spec fn oid_at(tree: Tree, name: Seq<char>) -> Seq<char> {
    first_chars(text_at(at(tree, name), "bytes"@, "?"@), 10)
}

/// How an object identifier is shown.
pub fn oid_value(value: &Document) -> (r: String)
    ensures
        r@ == first_chars(text_at(value@, "bytes"@, "?"@), 10),
{
    short_oid(text_of(value, "bytes", "?").as_str())
}

fn oid_of_field(value: &Document, name: &str) -> (r: String)
    ensures
        r@ == oid_at(value@, name@),
{
    match value.get(name) {
        Some(field) => oid_value(field),
        None => oid_value(&Document::Null),
    }
}

fn join4(a: &str, b: &str, c: &str, d: &str) -> (r: String)
    ensures
        r@ == a@ + b@ + c@ + d@,
{
    concat3(a, b, c).concat(d)
}

/// How many candidates an approval covers.
pub open spec fn authority_text(tree: Tree) -> Seq<char> {
    match at(tree, "authorized_item_ids"@) {
        Tree::List(items) => if items.len() > 1 {
            decimal(items.len()) + " candidates (including dependencies)"@
        } else {
            "1 candidate"@
        },
        _ => "1 candidate"@,
    }
}

fn authority_of(value: &Document) -> (r: String)
    ensures
        r@ == authority_text(value@),
{
    if let Some(field) = value.get("authorized_item_ids") {
        if let Document::List(items) = field {
            assert(field@->List_0.len() == items@.len());
            if items.len() > 1 {
                return decimal_string(items.len() as u64).concat(
                    " candidates (including dependencies)",
                );
            }
        }
    }
    "1 candidate".to_owned()
}

/// What is shown after an approval.
pub open spec fn approved(tree: Tree) -> Seq<char> {
    "Approved "@ + text_at(tree, "item_id"@, "?"@) + (if at(tree, "evidence_reused"@) == Tree::Bool(
        true,
    ) {
        " (completed validation reused)"@
    } else {
        ""@
    }) + "\n  authority  "@ + authority_text(tree) + "\n  source  "@ + oid_at(tree, "source_oid"@)
        + "\n  tested  "@ + oid_at(tree, "tested_oid"@) + "\n  queue revision "@ + shown(
        at(tree, "queue_revision"@),
    )
}

/// What is shown after an approval.
pub fn approved_text(value: &Document) -> (r: String)
    requires
        at(value@, "queue_revision"@).has_notation(),
    ensures
        r@ == approved(value@),
{
    let mut out = "Approved ".to_owned().concat(text_of(value, "item_id", "?").as_str());
    let reused = match value.get("evidence_reused") {
        Some(Document::Bool(true)) => true,
        _ => false,
    };
    if reused {
        out.append(" (completed validation reused)");
    } else {
        out.append("");
    }
    out.append("\n  authority  ");
    out.append(authority_of(value).as_str());
    out.append("\n  source  ");
    out.append(oid_of_field(value, "source_oid").as_str());
    out.append("\n  tested  ");
    out.append(oid_of_field(value, "tested_oid").as_str());
    out.append("\n  queue revision ");
    out.append(show_field(value, "queue_revision").as_str());
    out
}

/// What is shown after a candidate has been submitted.
pub fn candidate_text(value: &Document) -> (r: String)
    requires
        at(value@, "queue_revision"@).has_notation(),
    ensures
        r@ == "Candidate "@ + text_at(value@, "item_id"@, "?"@)
            + " submitted without promotion authority\n  source  "@ + oid_at(
            value@,
            "source_oid"@,
        ) + "\n  tested  "@ + oid_at(value@, "tested_oid"@) + "\n  queue revision "@ + shown(
            at(value@, "queue_revision"@),
        ),
{
    let mut out = concat3(
        "Candidate ",
        text_of(value, "item_id", "?").as_str(),
        " submitted without promotion authority\n  source  ",
    );
    out.append(oid_of_field(value, "source_oid").as_str());
    out.append("\n  tested  ");
    out.append(oid_of_field(value, "tested_oid").as_str());
    out.append("\n  queue revision ");
    out.append(show_field(value, "queue_revision").as_str());
    out
}

/// What is shown after a check has been started.
pub fn check_text(value: &Document) -> (r: String)
    ensures
        r@ == "Independent check started "@ + text_at(value@, "item_id"@, "?"@) + "\n  source  "@
            + oid_at(value@, "source_oid"@) + "\n  tested  "@ + oid_at(value@, "tested_oid"@),
{
    let mut out = concat3(
        "Independent check started ",
        text_of(value, "item_id", "?").as_str(),
        "\n  source  ",
    );
    out.append(oid_of_field(value, "source_oid").as_str());
    out.append("\n  tested  ");
    out.append(oid_of_field(value, "tested_oid").as_str());
    out
}

/// What is shown after a retry.
pub fn retried_text(id: QueueItemId, value: &Document, cold: bool) -> (r: String)
    ensures
        r@ == "Retried "@ + uuid_text(id.0) + " as "@ + text_at(value@, "item_id"@, "?"@)
            + " at the queue tail"@ + (if cold {
            " with a cold slot"@
        } else {
            ""@
        }) + "."@,
{
    let mut out = concat3("Retried ", id.to_text().as_str(), " as ");
    out.append(text_of(value, "item_id", "?").as_str());
    out.append(" at the queue tail");
    if cold {
        out.append(" with a cold slot");
    } else {
        out.append("");
    }
    out.append(".");
    out
}

/// How many entries a field lists.
pub open spec fn count_at(tree: Tree, name: Seq<char>) -> nat {
    match at(tree, name) {
        Tree::List(items) => items.len(),
        _ => 0,
    }
}

fn count_of_field(value: &Document, name: &str) -> (r: u64)
    ensures
        r == count_at(value@, name@),
{
    if let Some(field) = value.get(name) {
        if let Document::List(items) = field {
            assert(field@->List_0.len() == items@.len());
            return items.len() as u64;
        }
    }
    0
}

/// What is shown after the queue has been reordered.
pub fn reordered_text(value: &Document) -> (r: String)
    requires
        at(value@, "queue_revision"@).has_notation(),
    ensures
        ({
            let restarted = count_at(value@, "restarted_item_ids"@);
            r@ == "Queue reordered at revision "@ + shown(at(value@, "queue_revision"@)) + ". "@
                + decimal(restarted) + " affected item"@ + (if restarted == 1 {
                ""@
            } else {
                "s"@
            }) + " received a new validation generation."@
        }),
{
    let restarted: u64 = count_of_field(value, "restarted_item_ids");
    let mut out = concat3(
        "Queue reordered at revision ",
        show_field(value, "queue_revision").as_str(),
        ". ",
    );
    out.append(decimal_string(restarted).as_str());
    out.append(" affected item");
    if restarted == 1 {
        out.append("");
    } else {
        out.append("s");
    }
    out.append(" received a new validation generation.");
    out
}

/// What is shown after a repository has been paused or resumed.
pub fn paused_text(paused: bool, json: bool) -> (r: String)
    ensures
        r@ == if json {
            "{\"execution_state\":\""@ + (if paused {
                "paused"@
            } else {
                "active"@
            }) + "\"}"@
        } else {
            "Gate "@ + (if paused {
                "paused"@
            } else {
                "resumed"@
            }) + "."@
        },
{
    if json {
        let state: &str = if paused {
            "paused"
        } else {
            "active"
        };
        concat3("{\"execution_state\":\"", state, "\"}")
    } else {
        let state: &str = if paused {
            "paused"
        } else {
            "resumed"
        };
        concat3("Gate ", state, ".")
    }
}

/// What is shown after a repository has been removed.
pub fn removed_text(id: RepositoryId, json: bool) -> (r: String)
    ensures
        r@ == if json {
            "{\"status\":\"removed\",\"repository_id\":\""@ + uuid_text(id.0) + "\"}"@
        } else {
            "Removed repository "@ + uuid_text(id.0)
                + " from Tollgate. Repository data was preserved."@
        },
{
    if json {
        concat3("{\"status\":\"removed\",\"repository_id\":\"", id.to_text().as_str(), "\"}")
    } else {
        concat3(
            "Removed repository ",
            id.to_text().as_str(),
            " from Tollgate. Repository data was preserved.",
        )
    }
}

/// What is shown after an item has been canceled.
pub fn canceled_text(id: QueueItemId, json: bool) -> (r: String)
    ensures
        r@ == if json {
            "{\"status\":\"accepted\",\"item_id\":\""@ + uuid_text(id.0) + "\"}"@
        } else {
            "Canceled "@ + uuid_text(id.0)
                + "; affected descendants will receive new validation generations."@
        },
{
    if json {
        concat3("{\"status\":\"accepted\",\"item_id\":\"", id.to_text().as_str(), "\"}")
    } else {
        concat3(
            "Canceled ",
            id.to_text().as_str(),
            "; affected descendants will receive new validation generations.",
        )
    }
}

/// What is shown after work with the remote.
pub fn remote_text(value: &Document) -> (r: String)
    ensures
        r@ == text_at(value@, "message"@, "Remote operation completed."@) + "\n  local   "@
            + oid_at(value@, "local_master"@) + "\n  remote  "@ + (if at(
            value@,
            "remote_master"@,
        ) is Null {
            "absent"@
        } else {
            oid_at(value@, "remote_master"@)
        }) + "\n  action  "@ + text_at(value@, "action"@, "unknown"@),
{
    let mut out = text_of(value, "message", "Remote operation completed.").concat(
        "\n  local   ",
    );
    out.append(oid_of_field(value, "local_master").as_str());
    out.append("\n  remote  ");
    let absent = match value.get("remote_master") {
        None => true,
        Some(Document::Null) => true,
        _ => false,
    };
    if absent {
        out.append("absent");
    } else {
        out.append(oid_of_field(value, "remote_master").as_str());
    }
    out.append("\n  action  ");
    out.append(text_of(value, "action", "unknown").as_str());
    out
}

/// What is shown after a reconciliation.
pub fn reconciled_text(value: &Document) -> (r: String)
    requires
        at(value@, "queue_revision"@).has_notation(),
    ensures
        r@ == text_at(value@, "message"@, "Repository reconciled."@) + "\n  adopted release "@
            + oid_at(value@, "local_master"@) + "\n  queue revision  "@ + shown(
            at(value@, "queue_revision"@),
        ),
{
    let mut out = text_of(value, "message", "Repository reconciled.").concat(
        "\n  adopted release ",
    );
    out.append(oid_of_field(value, "local_master").as_str());
    out.append("\n  queue revision  ");
    out.append(show_field(value, "queue_revision").as_str());
    out
}

/// What is shown after a feature has been updated.
pub fn updated_text(value: &Document) -> (r: String)
    ensures
        r@ == text_at(value@, "message"@, "Feature updated."@) + "\n  old  "@ + oid_at(
            value@,
            "old_oid"@,
        ) + "\n  new  "@ + oid_at(value@, "new_oid"@),
{
    let mut out = text_of(value, "message", "Feature updated.").concat("\n  old  ");
    out.append(oid_of_field(value, "old_oid").as_str());
    out.append("\n  new  ");
    out.append(oid_of_field(value, "new_oid").as_str());
    out
}

/// What is shown after a worktree has been made.
pub fn worktree_created_text(value: &Document) -> (r: String)
    ensures
        r@ == text_at(value@, "message"@, "Worktree created."@) + "\n  path    "@ + text_at(
            value@,
            "path"@,
            "?"@,
        ) + "\n  branch  "@ + text_at(value@, "branch"@, "?"@),
{
    let mut out = text_of(value, "message", "Worktree created.").concat("\n  path    ");
    out.append(text_of(value, "path", "?").as_str());
    out.append("\n  branch  ");
    out.append(text_of(value, "branch", "?").as_str());
    out
}

/// What is shown after a worktree has been removed.
pub fn worktree_removed_text(value: &Document) -> (r: String)
    ensures
        r@ == text_at(value@, "message"@, "Worktree removed."@) + "\n  removed  "@ + text_at(
            value@,
            "path"@,
            "?"@,
        ),
{
    concat3(
        text_of(value, "message", "Worktree removed.").as_str(),
        "\n  removed  ",
        text_of(value, "path", "?").as_str(),
    )
}

/// What is shown after the environment has been read again.
pub fn environment_reloaded_text(value: &Document) -> (r: String)
    ensures
        r@ == "Environment reloaded for future buildsets.\n  snapshot     "@ + text_at(
            value@,
            "snapshot_id"@,
            "?"@,
        ) + "\n  fingerprint  "@ + text_at(value@, "fingerprint"@, "?"@),
{
    join4(
        "Environment reloaded for future buildsets.\n  snapshot     ",
        text_of(value, "snapshot_id", "?").as_str(),
        "\n  fingerprint  ",
        text_of(value, "fingerprint", "?").as_str(),
    )
}

/// What is shown of the environment.
pub fn environment_text(
    snapshot_id: &str,
    fingerprint: &str,
    variable_count: u64,
    path: &str,
) -> (r: String)
    ensures
        r@ == "Shell environment\n  snapshot     "@ + snapshot_id@ + "\n  fingerprint  "@
            + fingerprint@ + "\n  variables    "@ + decimal(variable_count as nat)
            + "\n  PATH         "@ + path@,
{
    let mut out = join4(
        "Shell environment\n  snapshot     ",
        snapshot_id,
        "\n  fingerprint  ",
        fingerprint,
    );
    out.append("\n  variables    ");
    out.append(decimal_string(variable_count).as_str());
    out.append("\n  PATH         ");
    out.append(path);
    out
}

/// The texts among the entries of a list.
pub open spec fn texts_among(items: Seq<Tree>) -> Seq<Seq<char>>
    decreases items.len(),
{
    if items.len() == 0 {
        Seq::empty()
    } else {
        let before = texts_among(items.drop_last());
        match items.last() {
            Tree::Text(text) => before.push(text),
            _ => before,
        }
    }
}

/// The words that a field lists.
pub open spec fn words_at(tree: Tree, name: Seq<char>) -> Seq<char> {
    match at(tree, name) {
        Tree::List(items) => join_texts(texts_among(items), " "@),
        _ => join_texts(Seq::empty(), " "@),
    }
}

fn words_of_field(value: &Document, name: &str) -> (r: String)
    ensures
        r@ == words_at(value@, name@),
{
    let mut words: Vec<String> = Vec::new();
    assert(texts(words@) =~= Seq::empty());
    if let Some(field) = value.get(name) {
        if let Document::List(items) = field {
            let ghost trees = field@->List_0;
            let mut i: usize = 0;
            assert(trees.take(0) =~= Seq::empty());
            while i < items.len()
                invariant
                    i <= items@.len(),
                    field == Document::List(*items),
                    trees == field@->List_0,
                    texts(words@) == texts_among(trees.take(i as int)),
                decreases items@.len() - i,
            {
                assert(trees[i as int] == items@[i as int]@);
                assert(trees.take(i + 1).drop_last() =~= trees.take(i as int));
                if let Document::Text(word) = &items[i] {
                    let ghost before = words@;
                    words.push(word.as_str().to_owned());
                    assert(texts(words@) =~= texts(before).push(word@));
                }
                i += 1;
            }
            assert(trees.take(i as int) =~= trees);
        }
    }
    join_strings(&words, " ")
}

/// What is shown of a configuration that holds.
pub fn configuration_text(value: &Document) -> (r: String)
    ensures
        r@ == "Configuration valid\n  digest  "@ + text_at(value@, "digest"@, "?"@)
            + "\n  graph   "@ + text_at(value@, "step_graph_digest"@, "?"@) + "\n  runner  "@
            + words_at(value@, "runner"@),
{
    let mut out = join4(
        "Configuration valid\n  digest  ",
        text_of(value, "digest", "?").as_str(),
        "\n  graph   ",
        text_of(value, "step_graph_digest", "?").as_str(),
    );
    out.append("\n  runner  ");
    out.append(words_of_field(value, "runner").as_str());
    out
}

/// What is shown of a step of a configuration.
pub fn step_text(step: &Document) -> (r: String)
    ensures
        r@ == "  step    "@ + pad_right(text_at(step@, "name"@, "?"@), 18) + " voting="@ + (if at(
            step@,
            "voting"@,
        ) == Tree::Bool(true) {
            "true"@
        } else {
            "false"@
        }) + " timeout="@ + decimal(number_at(step@, "timeout_ns"@) / 60_000_000_000) + "m"@,
{
    let mut out = "  step    ".to_owned().concat(
        padded_right(text_of(step, "name", "?").as_str(), 18).as_str(),
    );
    out.append(" voting=");
    let voting = match step.get("voting") {
        Some(Document::Bool(true)) => true,
        _ => false,
    };
    if voting {
        out.append("true");
    } else {
        out.append("false");
    }
    out.append(" timeout=");
    out.append(decimal_string(number_of_field(step, "timeout_ns") / 60_000_000_000).as_str());
    out.append("m");
    out
}

/// What is shown after a configuration has been applied.
pub fn configuration_applied_text(value: &Document) -> (r: String)
    ensures
        r@ == "Configuration applied.\n  digest  "@ + text_at(
            at(value@, "configuration"@),
            "digest"@,
            "?"@,
        ) + "\n  queue revision  "@ + decimal(number_at(at(value@, "state"@), "queue_revision"@)),
{
    let digest = match value.get("configuration") {
        Some(configuration) => text_of(configuration, "digest", "?"),
        None => text_of(&Document::Null, "digest", "?"),
    };
    let revision: u64 = match value.get("state") {
        Some(state) => number_of_field(state, "queue_revision"),
        None => number_of_field(&Document::Null, "queue_revision"),
    };
    join4(
        "Configuration applied.\n  digest  ",
        digest.as_str(),
        "\n  queue revision  ",
        decimal_string(revision).as_str(),
    )
}

/// What is shown after a configuration has been made anew.
pub fn configuration_regenerated_text(value: &Document) -> (r: String)
    ensures
        r@ == "Configuration regenerated and awaits explicit apply.\n  digest  "@ + text_at(
            value@,
            "digest"@,
            "?"@,
        ) + "\n  runner  "@ + words_at(value@, "runner"@),
{
    join4(
        "Configuration regenerated and awaits explicit apply.\n  digest  ",
        text_of(value, "digest", "?").as_str(),
        "\n  runner  ",
        words_of_field(value, "runner").as_str(),
    )
}

/// What is shown of a slot.
pub fn slot_text(id: SlotId, state: &str, checkout: &Option<GitOid>) -> (r: String)
    requires
        checkout matches Some(oid) ==> oid.wf(),
    ensures
        r@ == uuid_text(id.0) + "  "@ + pad_right(state@, 8) + "  "@ + match checkout {
            Some(oid) => oid@.hex().take(10),
            None => "—"@,
        },
{
    let mut out = id.to_text().concat("  ");
    out.append(padded_right(state, 8).as_str());
    out.append("  ");
    match checkout {
        Some(oid) => out.append(oid.short().as_str()),
        None => out.append("—"),
    }
    out
}

/// What is shown after a slot has been made anew.
pub fn slot_reset_text(value: &Document) -> (r: String)
    ensures
        r@ == "Slot "@ + text_at(value@, "id"@, "?"@)
            + " was quarantined and recreated cold.\n  checkout  "@ + oid_at(
            value@,
            "checkout_oid"@,
        ) + "\n  health    "@ + text_at(value@, "health"@, "?"@),
{
    let mut out = concat3(
        "Slot ",
        text_of(value, "id", "?").as_str(),
        " was quarantined and recreated cold.\n  checkout  ",
    );
    out.append(oid_of_field(value, "checkout_oid").as_str());
    out.append("\n  health    ");
    out.append(text_of(value, "health", "?").as_str());
    out
}

/// What is shown of the cache.
pub fn cache_text(slots: u64, configuration_digest: &str) -> (r: String)
    ensures
        r@ == "Cache\n  persistent slots  "@ + decimal(slots as nat)
            + "\n  policy            preserve ignored files\n  config digest     "@
            + configuration_digest@,
{
    join4(
        "Cache\n  persistent slots  ",
        decimal_string(slots).as_str(),
        "\n  policy            preserve ignored files\n  config digest     ",
        configuration_digest,
    )
}

/// What is shown after a seed of the cache has been published.
pub fn cache_snapshot_text(value: &Document) -> (r: String)
    requires
        at(value@, "logical_bytes"@).has_notation(),
    ensures
        r@ == text_at(value@, "message"@, "Cache seed published."@) + "\n  logical bytes  "@
            + shown(at(value@, "logical_bytes"@)),
{
    concat3(
        text_of(value, "message", "Cache seed published.").as_str(),
        "\n  logical bytes  ",
        show_field(value, "logical_bytes").as_str(),
    )
}

/// The message of an answer, or another.
pub fn message_text(value: &Document, fallback: &str) -> (r: String)
    ensures
        r@ == text_at(value@, "message"@, fallback@),
{
    text_of(value, "message", fallback)
}

/// What is shown of an artifact.
pub fn artifact_text(id: &str, retention_state: &str, size: u64, source_path: &str) -> (r: String)
    ensures
        r@ == id@ + "  "@ + pad_right(retention_state@, 8) + "  "@ + pad_left(
            decimal(size as nat),
            10,
        ) + "  "@ + source_path@,
{
    let mut out = id.to_owned().concat("  ");
    out.append(padded_right(retention_state, 8).as_str());
    out.append("  ");
    out.append(padded_left(decimal_string(size).as_str(), 10).as_str());
    out.append("  ");
    out.append(source_path);
    out
}

/// What is shown of a repository in a list.
pub fn repository_text(name: &str, id: RepositoryId, path: &str) -> (r: String)
    ensures
        r@ == pad_right(name@, 20) + " "@ + uuid_text(id.0) + "  "@ + path@,
{
    join4(
        padded_right(name, 20).as_str(),
        " ",
        id.to_text().as_str(),
        "  ",
    ).concat(path)
}

impl Actor {
    /// The name of the actor.
    pub open spec fn name(self) -> Seq<char> {
        match self {
            Actor::App => "App"@,
            Actor::Cli => "Cli"@,
            Actor::Ui => "Ui"@,
            Actor::Recovery => "Recovery"@,
        }
    }

    /// The name of the actor.
    pub fn as_str(self) -> (r: &'static str)
        ensures
            r@ == self.name(),
    {
        match self {
            Actor::App => "App",
            Actor::Cli => "Cli",
            Actor::Ui => "Ui",
            Actor::Recovery => "Recovery",
        }
    }
}

/// What is shown of an event.
pub fn event_text(sequence: u64, kind: &str, actor: Actor) -> (r: String)
    ensures
        r@ == "#"@ + pad_right(decimal(sequence as nat), 6) + " "@ + pad_right(kind@, 28) + " "@
            + actor.name(),
{
    let mut out = "#".to_owned().concat(
        padded_right(decimal_string(sequence).as_str(), 6).as_str(),
    );
    out.append(" ");
    out.append(padded_right(kind, 28).as_str());
    out.append(" ");
    out.append(actor.as_str());
    out
}

/// How many events are shown at most.
pub const HISTORY_SHOWN: usize = 100;

/// What is shown of a finding of the doctor.
pub open spec fn finding(tree: Tree) -> Seq<char> {
    let healthy = text_at(tree, "status"@, ""@) == "healthy"@;
    let line = "  "@ + (if healthy {
        "✓"@
    } else {
        "!"@
    }) + " "@ + pad_right(text_at(tree, "name"@, "check"@), 28) + " "@ + text_at(
        tree,
        "detail"@,
        ""@,
    );
    if !healthy && at(tree, "recovery_action"@) is Text {
        line + "\n      recovery: "@ + text_at(tree, "recovery_action"@, ""@)
    } else {
        line
    }
}

/// What is shown of a finding of the doctor.
pub fn finding_text(check: &Document) -> (r: String)
    ensures
        r@ == finding(check@),
{
    let healthy = str_equal(text_of(check, "status", "").as_str(), "healthy");
    let mark: &str = if healthy {
        "✓"
    } else {
        "!"
    };
    let mut out = concat3("  ", mark, " ");
    out.append(padded_right(text_of(check, "name", "check").as_str(), 28).as_str());
    out.append(" ");
    out.append(text_of(check, "detail", "").as_str());
    let has_action = match check.get("recovery_action") {
        Some(Document::Text(_)) => true,
        _ => false,
    };
    if !healthy && has_action {
        out.append("\n      recovery: ");
        out.append(text_of(check, "recovery_action", "").as_str());
    }
    out
}

impl QueueItemState {
    /// The name of the state in lower case.
    pub open spec fn display_name(self) -> Seq<char> {
        match self {
            QueueItemState::Constructing => "constructing"@,
            QueueItemState::Queued => "queued"@,
            QueueItemState::Preparing => "preparing"@,
            QueueItemState::Running => "running"@,
            QueueItemState::Ready => "ready"@,
            QueueItemState::Promoting => "promoting"@,
            QueueItemState::PromotedLocalPushPending => "promotedlocalpushpending"@,
            QueueItemState::Promoted => "promoted"@,
            QueueItemState::ExternallyIntegrated => "externallyintegrated"@,
            QueueItemState::Failed => "failed"@,
            QueueItemState::MergeConflict => "mergeconflict"@,
            QueueItemState::DependencyFailed => "dependencyfailed"@,
            QueueItemState::Canceled => "canceled"@,
            QueueItemState::Superseded => "superseded"@,
            QueueItemState::InfrastructureExhausted => "infrastructureexhausted"@,
            QueueItemState::CheckPassed => "checkpassed"@,
            QueueItemState::CheckFailed => "checkfailed"@,
        }
    }

    /// The name of the state in lower case.
    pub fn state_as_display(self) -> (r: &'static str)
        ensures
            r@ == self.display_name(),
    {
        match self {
            QueueItemState::Constructing => "constructing",
            QueueItemState::Queued => "queued",
            QueueItemState::Preparing => "preparing",
            QueueItemState::Running => "running",
            QueueItemState::Ready => "ready",
            QueueItemState::Promoting => "promoting",
            QueueItemState::PromotedLocalPushPending => "promotedlocalpushpending",
            QueueItemState::Promoted => "promoted",
            QueueItemState::ExternallyIntegrated => "externallyintegrated",
            QueueItemState::Failed => "failed",
            QueueItemState::MergeConflict => "mergeconflict",
            QueueItemState::DependencyFailed => "dependencyfailed",
            QueueItemState::Canceled => "canceled",
            QueueItemState::Superseded => "superseded",
            QueueItemState::InfrastructureExhausted => "infrastructureexhausted",
            QueueItemState::CheckPassed => "checkpassed",
            QueueItemState::CheckFailed => "checkfailed",
        }
    }
}

/// The text begins with so many ASCII characters, and can be cut behind them.
pub open spec fn begins_plainly(text: Seq<char>, count: int) -> bool {
    text.len() >= count && forall|i: int| 0 <= i < count ==> (#[trigger] text[i]) <= '\x7f'
}

/// What is shown of a repository that has been registered.
pub fn initialized_text(
    name: &str,
    id: RepositoryId,
    release: &GitOid,
    configuration_digest: &str,
    execution_state: RepositoryExecutionState,
    first_block: &Option<String>,
) -> (r: String)
    requires
        release.wf(),
        begins_plainly(configuration_digest@, 12),
    ensures
        r@ == "Initialized "@ + name@ + "\n  repository  "@ + uuid_text(id.0)
            + "\n  release     "@ + release@.hex().take(10) + "\n  config      "@
            + configuration_digest@.take(12) + (if execution_state
            == RepositoryExecutionState::Blocked {
            "\n\nGate needs attention: "@ + match first_block {
                Some(message) => message@,
                None => "blocked"@,
            }
        } else {
            ""@
        }),
{
    let mut out = join4("Initialized ", name, "\n  repository  ", id.to_text().as_str());
    out.append("\n  release     ");
    out.append(release.short().as_str());
    out.append("\n  config      ");
    out.append(beginning(configuration_digest, 12).as_str());
    if execution_state == RepositoryExecutionState::Blocked {
        let message: &str = match first_block {
            Some(message) => message.as_str(),
            None => "blocked",
        };
        out.append("\n\nGate needs attention: ".to_owned().concat(message).as_str());
    } else {
        out.append("");
    }
    out
}

/// A generation of an item, as far as it is shown.
#[derive(Clone, Debug, PartialEq, Eq)]
pub struct GenerationSummary {
    pub tested_oid: GitOid,
    pub expected_parent_oid: GitOid,
    pub identity_digest: String,
}

impl GenerationSummary {
    /// The generation can be shown.
    pub open spec fn wf(self) -> bool {
        self.tested_oid.wf() && self.expected_parent_oid.wf() && begins_plainly(
            self.identity_digest@,
            10,
        )
    }
}

/// An item, as far as it is shown.
#[derive(Clone, Debug, PartialEq, Eq)]
pub struct ItemSummary {
    pub id: QueueItemId,
    pub state: QueueItemState,
    pub promotion_authorized: bool,
    pub source_oid: GitOid,
    pub branch: Option<String>,
    pub subject: String,
    pub generation: Option<GenerationSummary>,
    pub certified: bool,
}

impl ItemSummary {
    /// The item can be shown.
    pub open spec fn wf(self) -> bool {
        self.source_oid.wf() && (self.generation matches Some(generation) ==> generation.wf())
    }
}

/// What is shown above a queue.
pub fn queue_heading(name: &str, queue_revision: u64, release: &GitOid) -> (r: String)
    requires
        release.wf(),
    ensures
        r@ == name@ + " · queue revision "@ + decimal(queue_revision as nat) + " · release "@
            + release@.hex().take(10),
{
    let mut out = concat3(name, " · queue revision ", decimal_string(queue_revision).as_str());
    out.append(" · release ");
    out.append(release.short().as_str());
    out
}

/// What is shown of an item in a queue, counted from one.
pub open spec fn queue_line(number: nat, item: ItemSummary) -> Seq<char> {
    let line = pad_left(decimal(number), 2) + "  "@ + pad_right(item.state.display_name(), 11)
        + "  "@ + pad_right(
        if item.promotion_authorized {
            "authorized"@
        } else {
            "candidate"@
        },
        10,
    ) + "  "@ + item.source_oid@.hex().take(10) + "  "@ + pad_right(
        match item.branch {
            Some(branch) => branch@,
            None => "detached"@,
        },
        10,
    ) + "  "@ + item.subject@;
    match item.generation {
        Some(generation) => line + "\n    tested "@ + generation.tested_oid@.hex().take(10)
            + "  parent "@ + generation.expected_parent_oid@.hex().take(10) + "  generation "@
            + generation.identity_digest@.take(10),
        None => line,
    }
}

/// What is shown of an item in a queue, counted from one.
pub fn queue_item_text(number: u64, item: &ItemSummary) -> (r: String)
    requires
        item.wf(),
    ensures
        r@ == queue_line(number as nat, *item),
{
    let mut out = padded_left(decimal_string(number).as_str(), 2).concat("  ");
    out.append(padded_right(item.state.state_as_display(), 11).as_str());
    out.append("  ");
    let authority: &str = if item.promotion_authorized {
        "authorized"
    } else {
        "candidate"
    };
    out.append(padded_right(authority, 10).as_str());
    out.append("  ");
    out.append(item.source_oid.short().as_str());
    out.append("  ");
    let branch: &str = match &item.branch {
        Some(branch) => branch.as_str(),
        None => "detached",
    };
    out.append(padded_right(branch, 10).as_str());
    out.append("  ");
    out.append(item.subject.as_str());
    if let Some(generation) = &item.generation {
        out.append("\n    tested ");
        out.append(generation.tested_oid.short().as_str());
        out.append("  parent ");
        out.append(generation.expected_parent_oid.short().as_str());
        out.append("  generation ");
        out.append(beginning(generation.identity_digest.as_str(), 10).as_str());
    }
    out
}

/// What is shown of one item.
pub open spec fn item_status(item: ItemSummary) -> Seq<char> {
    item.subject@ + "\n  state       "@ + item.state.name() + "\n  authority   "@ + (
    if item.promotion_authorized {
        "promotion authorized"@
    } else {
        "validation only"@
    }) + "\n  source      "@ + item.source_oid@.hex().take(10) + "\n  tested      "@ + (
    match item.generation {
        Some(generation) => generation.tested_oid@.hex().take(10),
        None => "—"@,
    }) + "\n  generation  "@ + (match item.generation {
        Some(generation) => generation.identity_digest@.take(10),
        None => "—"@,
    }) + "\n  evidence    "@ + (if item.certified {
        "promotion-grade certificate ready"@
    } else {
        "not complete"@
    })
}

/// What is shown of one item.
pub fn item_status_text(item: &ItemSummary) -> (r: String)
    requires
        item.wf(),
    ensures
        r@ == item_status(*item),
{
    let mut out = item.subject.as_str().to_owned().concat("\n  state       ");
    out.append(item.state.variant_name());
    out.append("\n  authority   ");
    if item.promotion_authorized {
        out.append("promotion authorized");
    } else {
        out.append("validation only");
    }
    out.append("\n  source      ");
    out.append(item.source_oid.short().as_str());
    out.append("\n  tested      ");
    match &item.generation {
        Some(generation) => out.append(generation.tested_oid.short().as_str()),
        None => out.append("—"),
    }
    out.append("\n  generation  ");
    match &item.generation {
        Some(generation) => out.append(
            beginning(generation.identity_digest.as_str(), 10).as_str(),
        ),
        None => out.append("—"),
    }
    out.append("\n  evidence    ");
    if item.certified {
        out.append("promotion-grade certificate ready");
    } else {
        out.append("not complete");
    }
    out
}

/// What is shown if there is no such item.
pub fn missing_item_text(id: QueueItemId) -> (r: String)
    ensures
        r@ == "Queue item "@ + uuid_text(id.0) + " was not found in the recent snapshot."@,
{
    concat3("Queue item ", id.to_text().as_str(), " was not found in the recent snapshot.")
}

/// A repository, as far as its status is shown.
#[derive(Clone, Debug, PartialEq, Eq)]
pub struct RepositorySummary {
    pub name: String,
    pub execution_state: RepositoryExecutionState,
    pub release: GitOid,
    pub queued_items: u64,
    pub queue_revision: u64,
    pub active_runs: u64,
    pub queued_runs: u64,
    pub configuration_digest: String,
}

/// What is shown of a repository.
pub fn repository_status_text(repository: &RepositorySummary) -> (r: String)
    requires
        repository.release.wf(),
        begins_plainly(repository.configuration_digest@, 12),
    ensures
        r@ == repository.name@ + "\n  execution  "@ + repository.execution_state.name()
            + "\n  release    "@ + repository.release@.hex().take(10) + "\n  queue      "@
            + decimal(repository.queued_items as nat) + " items · revision "@ + decimal(
            repository.queue_revision as nat,
        ) + "\n  runs       "@ + decimal(repository.active_runs as nat) + " active · "@ + decimal(
            repository.queued_runs as nat,
        ) + " waiting\n  config     "@ + repository.configuration_digest@.take(12),
{
    let mut out = repository.name.as_str().to_owned().concat("\n  execution  ");
    out.append(repository.execution_state.variant_name());
    out.append("\n  release    ");
    out.append(repository.release.short().as_str());
    out.append("\n  queue      ");
    out.append(decimal_string(repository.queued_items).as_str());
    out.append(" items · revision ");
    out.append(decimal_string(repository.queue_revision).as_str());
    out.append("\n  runs       ");
    out.append(decimal_string(repository.active_runs).as_str());
    out.append(" active · ");
    out.append(decimal_string(repository.queued_runs).as_str());
    out.append(" waiting\n  config     ");
    out.append(beginning(repository.configuration_digest.as_str(), 12).as_str());
    out
}

} // verus!
