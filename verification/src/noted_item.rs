//! The items of the queue as the store notes them down.

use crate::document::Document;
#[allow(unused_imports)]
use crate::document::{
    distinct_entries, entry_trees, lemma_table_writable, lemma_writable_deeper, names_of, record,
    text_trees, Tree,
};
#[allow(unused_imports)]
use crate::ids::QueueItemId;
use crate::log_frame::WallTime;
#[allow(unused_imports)]
use crate::log_frame::moment_of;
#[allow(unused_imports)]
use crate::outside::uuid_text;
use crate::state::QueueItemState;
use crate::text::contains_text;
#[allow(unused_imports)]
use crate::text::texts;
use crate::wire::{id_document, ids_document, oid_document, optional_id_document};
#[allow(unused_imports)]
use crate::wire::{id_tree, oid_tree, optional_id_tree};
use vstd::prelude::*;

verus! {

/// What a field of an item holds.
#[derive(Clone, Copy, Debug, PartialEq, Eq, Structural)]
pub enum FieldForm {
    Id,
    OptionalId,
    Ids,
    Text,
    OptionalText,
    Number,
    OptionalNumber,
    /// Yes or no; without it, no.
    Flag,
    Oid,
    Moment,
    OptionalMoment,
    /// What the item is meant for; without it, promotion.
    Kind,
    Signature,
    State,
    Remote,
    Cleanup,
    /// What is cleaned up; without it, everything.
    Policy,
}

/// A moment as it is written.
pub open spec fn moment_tree(n: Seq<int>) -> Tree {
    Tree::List(n.map_values(|n: int| Tree::Integer(n)))
}

impl FieldForm {
    /// The names that the field may hold, where it holds one of some.
    pub open spec fn variant_names(self) -> Seq<Seq<char>> {
        match self {
            FieldForm::Kind => seq!["gate"@, "independent-check"@],
            FieldForm::Signature => seq!["verified"@, "invalid"@, "unknown"@, "unsigned"@],
            FieldForm::Remote => seq!["disabled"@, "preflight-pending"@, "ready"@, "pushing"@, "push-blocked"@, "synchronized"@, "abandoned"@],
            FieldForm::Cleanup => seq!["not-eligible"@, "pending"@, "running"@, "completed"@, "needs-attention"@],
            FieldForm::Policy => seq!["automatic"@, "retain-worktree"@],
            FieldForm::State => seq![
                QueueItemState::Constructing.wire_name(),
                QueueItemState::Queued.wire_name(),
                QueueItemState::Preparing.wire_name(),
                QueueItemState::Running.wire_name(),
                QueueItemState::Ready.wire_name(),
                QueueItemState::Promoting.wire_name(),
                QueueItemState::PromotedLocalPushPending.wire_name(),
                QueueItemState::Promoted.wire_name(),
                QueueItemState::ExternallyIntegrated.wire_name(),
                QueueItemState::Failed.wire_name(),
                QueueItemState::MergeConflict.wire_name(),
                QueueItemState::DependencyFailed.wire_name(),
                QueueItemState::Canceled.wire_name(),
                QueueItemState::Superseded.wire_name(),
                QueueItemState::InfrastructureExhausted.wire_name(),
                QueueItemState::CheckPassed.wire_name(),
                QueueItemState::CheckFailed.wire_name(),
            ],
            _ => Seq::empty(),
        }
    }

    /// What stands for the field where it is missing.
    pub open spec fn absent(self) -> Option<Tree> {
        match self {
            FieldForm::OptionalId | FieldForm::OptionalText | FieldForm::OptionalNumber
            | FieldForm::OptionalMoment => Some(Tree::Null),
            FieldForm::Flag => Some(Tree::Bool(false)),
            FieldForm::Kind => Some(Tree::Text("gate"@)),
            FieldForm::Policy => Some(Tree::Text("automatic"@)),
            _ => None,
        }
    }

    /// The contents of the field, as they are written.
    pub open spec fn present(self, value: Tree) -> Option<Tree> {
        match self {
            FieldForm::Id => match value.as_id() {
                Some(id) => Some(id_tree(id)),
                None => None,
            },
            FieldForm::OptionalId => match value.as_optional_id() {
                Some(id) => Some(optional_id_tree(id)),
                None => None,
            },
            FieldForm::Ids => match value.as_ids() {
                Some(ids) => Some(text_trees(ids.map_values(|id: u128| uuid_text(id)))),
                None => None,
            },
            FieldForm::Text => match value.as_text() {
                Some(text) => Some(Tree::Text(text)),
                None => None,
            },
            FieldForm::OptionalText => if value == Tree::Null {
                Some(Tree::Null)
            } else {
                match value.as_text() {
                    Some(text) => Some(Tree::Text(text)),
                    None => None,
                }
            },
            FieldForm::Number => match value.as_number(u64::MAX as nat) {
                Some(number) => Some(Tree::Integer(number as int)),
                None => None,
            },
            FieldForm::OptionalNumber => if value == Tree::Null {
                Some(Tree::Null)
            } else {
                match value.as_number(u64::MAX as nat) {
                    Some(number) => Some(Tree::Integer(number as int)),
                    None => None,
                }
            },
            FieldForm::Flag => match value.as_bool() {
                Some(flag) => Some(Tree::Bool(flag)),
                None => None,
            },
            FieldForm::Oid => match value.as_oid() {
                Some(oid) => Some(oid_tree(oid)),
                None => None,
            },
            FieldForm::Moment => match moment_of(value) {
                Some(n) => Some(moment_tree(n)),
                None => None,
            },
            FieldForm::OptionalMoment => if value == Tree::Null {
                Some(Tree::Null)
            } else {
                match moment_of(value) {
                    Some(n) => Some(moment_tree(n)),
                    None => None,
                }
            },
            _ => match value.as_variant() {
                Some(name) => if self.variant_names().contains(name) {
                    Some(Tree::Text(name))
                } else {
                    None
                },
                None => None,
            },
        }
    }

    /// The field as it is written.
    pub open spec fn written(self, value: Option<Tree>) -> Option<Tree> {
        match value {
            Some(value) => self.present(value),
            None => self.absent(),
        }
    }

    fn variants(self) -> (r: Vec<String>)
        ensures
            texts(r@) == self.variant_names(),
    {
        let mut names: Vec<String> = Vec::new();
        match self {
            FieldForm::Kind => {
                names.push("gate".to_owned());
                names.push("independent-check".to_owned());
            },
            FieldForm::Signature => {
                names.push("verified".to_owned());
                names.push("invalid".to_owned());
                names.push("unknown".to_owned());
                names.push("unsigned".to_owned());
            },
            FieldForm::Remote => {
                names.push("disabled".to_owned());
                names.push("preflight-pending".to_owned());
                names.push("ready".to_owned());
                names.push("pushing".to_owned());
                names.push("push-blocked".to_owned());
                names.push("synchronized".to_owned());
                names.push("abandoned".to_owned());
            },
            FieldForm::Cleanup => {
                names.push("not-eligible".to_owned());
                names.push("pending".to_owned());
                names.push("running".to_owned());
                names.push("completed".to_owned());
                names.push("needs-attention".to_owned());
            },
            FieldForm::Policy => {
                names.push("automatic".to_owned());
                names.push("retain-worktree".to_owned());
            },
            FieldForm::State => {
                names.push(QueueItemState::Constructing.as_str().to_owned());
                names.push(QueueItemState::Queued.as_str().to_owned());
                names.push(QueueItemState::Preparing.as_str().to_owned());
                names.push(QueueItemState::Running.as_str().to_owned());
                names.push(QueueItemState::Ready.as_str().to_owned());
                names.push(QueueItemState::Promoting.as_str().to_owned());
                names.push(QueueItemState::PromotedLocalPushPending.as_str().to_owned());
                names.push(QueueItemState::Promoted.as_str().to_owned());
                names.push(QueueItemState::ExternallyIntegrated.as_str().to_owned());
                names.push(QueueItemState::Failed.as_str().to_owned());
                names.push(QueueItemState::MergeConflict.as_str().to_owned());
                names.push(QueueItemState::DependencyFailed.as_str().to_owned());
                names.push(QueueItemState::Canceled.as_str().to_owned());
                names.push(QueueItemState::Superseded.as_str().to_owned());
                names.push(QueueItemState::InfrastructureExhausted.as_str().to_owned());
                names.push(QueueItemState::CheckPassed.as_str().to_owned());
                names.push(QueueItemState::CheckFailed.as_str().to_owned());
            },
            _ => {},
        }
        assert(texts(names@) =~= self.variant_names());
        names
    }

    fn write_absent(self) -> (r: Option<Document>)
        ensures
            r is Some <==> self.absent() is Some,
            r matches Some(value) ==> self.absent() == Some(value@),
    {
        match self {
            FieldForm::OptionalId
            | FieldForm::OptionalText
            | FieldForm::OptionalNumber
            | FieldForm::OptionalMoment => Some(Document::Null),
            FieldForm::Flag => Some(Document::Bool(false)),
            FieldForm::Kind => Some(Document::Text("gate".to_owned())),
            FieldForm::Policy => Some(Document::Text("automatic".to_owned())),
            _ => None,
        }
    }

    fn write_moment(value: &Document) -> (r: Option<Document>)
        ensures
            r is Some <==> moment_of(value@) is Some,
            r matches Some(written) ==> moment_of(value@) is Some && written@ == moment_tree(
                moment_of(value@)->0,
            ),
    {
        match WallTime::read(value) {
            Some(time) => Some(time.to_document()),
            None => None,
        }
    }

    fn write_present(self, value: &Document) -> (r: Option<Document>)
        ensures
            r is Some <==> self.present(value@) is Some,
            r matches Some(written) ==> self.present(value@) == Some(written@),
    {
        match self {
            FieldForm::Id => match value.read_id() {
                Some(id) => Some(id_document(id)),
                None => None,
            },
            FieldForm::OptionalId => match value {
                Document::Null => Some(optional_id_document(None)),
                _ => match value.read_id() {
                    Some(id) => Some(optional_id_document(Some(id))),
                    None => None,
                },
            },
            FieldForm::Ids => match value.read_ids() {
                Some(ids) => {
                    let written = ids_document(&ids);
                    proof {
                        let plain = ids@.map_values(|id: QueueItemId| id.0);
                        assert(plain.map_values(|id: u128| uuid_text(id)) =~= ids@.map_values(
                            |id: QueueItemId| uuid_text(id.0),
                        ));
                    }
                    Some(written)
                },
                None => None,
            },
            FieldForm::Text => match value.read_text() {
                Some(text) => Some(Document::Text(text)),
                None => None,
            },
            FieldForm::OptionalText => match value {
                Document::Null => Some(Document::Null),
                _ => match value.read_text() {
                    Some(text) => Some(Document::Text(text)),
                    None => None,
                },
            },
            FieldForm::Number => match value.read_number(u64::MAX) {
                Some(number) => Some(Document::Integer(number as i128)),
                None => None,
            },
            FieldForm::OptionalNumber => match value {
                Document::Null => Some(Document::Null),
                _ => match value.read_number(u64::MAX) {
                    Some(number) => Some(Document::Integer(number as i128)),
                    None => None,
                },
            },
            FieldForm::Flag => match value.read_bool() {
                Some(flag) => Some(Document::Bool(flag)),
                None => None,
            },
            FieldForm::Oid => match value.read_oid() {
                Some(oid) => Some(oid_document(&oid)),
                None => None,
            },
            FieldForm::Moment => FieldForm::write_moment(value),
            FieldForm::OptionalMoment => match value {
                Document::Null => Some(Document::Null),
                _ => FieldForm::write_moment(value),
            },
            _ => match value.read_variant() {
                Some(name) => if contains_text(&self.variants(), name.as_str()) {
                    Some(Document::Text(name))
                } else {
                    None
                },
                None => None,
            },
        }
    }

    /// Writes the field of an item.
    pub fn write(self, value: Option<&Document>) -> (r: Option<Document>)
        ensures
            ({
                let given = match value {
                    Some(value) => Some(value@),
                    None => None,
                };
                &&& r is Some <==> self.written(given) is Some
                &&& r matches Some(written) ==> self.written(given) == Some(written@)
            }),
    {
        match value {
            Some(value) => self.write_present(value),
            None => self.write_absent(),
        }
    }
}

/// The fields of an item that stand before what is known of the commit.
pub open spec fn front_fields() -> Seq<(Seq<char>, FieldForm)> {
    seq![
        ("id"@, FieldForm::Id),
        ("repository_id"@, FieldForm::Id),
        ("kind"@, FieldForm::Kind),
        ("admission_sequence"@, FieldForm::OptionalNumber),
        ("enqueue_sequence"@, FieldForm::Number),
        ("source_oid"@, FieldForm::Oid),
        ("source_ref"@, FieldForm::Text),
    ]
}

/// What is known of a commit.
pub open spec fn metadata_fields() -> Seq<(Seq<char>, FieldForm)> {
    seq![
        ("subject"@, FieldForm::Text),
        ("message_hash"@, FieldForm::Text),
        ("author_name"@, FieldForm::Text),
        ("author_email"@, FieldForm::Text),
        ("branch"@, FieldForm::OptionalText),
        ("worktree_path"@, FieldForm::OptionalText),
        ("signature_state"@, FieldForm::Signature),
        ("approved_at"@, FieldForm::Moment),
        ("purpose"@, FieldForm::OptionalText),
    ]
}

/// The fields of an item that stand behind what is known of the commit.
pub open spec fn back_fields() -> Seq<(Seq<char>, FieldForm)> {
    seq![
        ("state"@, FieldForm::State),
        ("terminal_reason"@, FieldForm::OptionalText),
        ("remote_state"@, FieldForm::Remote),
        ("cleanup_state"@, FieldForm::Cleanup),
        ("cleanup_policy"@, FieldForm::Policy),
        ("dependencies"@, FieldForm::Ids),
        ("promotion_authorized"@, FieldForm::Flag),
        ("promotion_authorized_at"@, FieldForm::OptionalMoment),
        ("promotion_authorized_by"@, FieldForm::OptionalText),
        ("current_generation_id"@, FieldForm::OptionalId),
        ("buildset_id"@, FieldForm::OptionalId),
        ("certificate_id"@, FieldForm::OptionalId),
    ]
}

/// The names of the fields of an item, in order.
pub open spec fn item_names() -> Seq<Seq<char>> {
    seq![
        "id"@,
        "repository_id"@,
        "kind"@,
        "admission_sequence"@,
        "enqueue_sequence"@,
        "source_oid"@,
        "source_ref"@,
        "metadata"@,
        "state"@,
        "terminal_reason"@,
        "remote_state"@,
        "cleanup_state"@,
        "cleanup_policy"@,
        "dependencies"@,
        "promotion_authorized"@,
        "promotion_authorized_at"@,
        "promotion_authorized_by"@,
        "current_generation_id"@,
        "buildset_id"@,
        "certificate_id"@,
    ]
}

/// The names of what is known of a commit, in order.
pub open spec fn metadata_names() -> Seq<Seq<char>> {
    seq![
        "subject"@,
        "message_hash"@,
        "author_name"@,
        "author_email"@,
        "branch"@,
        "worktree_path"@,
        "signature_state"@,
        "approved_at"@,
        "purpose"@,
    ]
}

/// Fields of a record as they are written, unless one of them cannot be read.
pub open spec fn fields_written(t: Tree, fields: Seq<(Seq<char>, FieldForm)>) -> Option<
    Seq<(Seq<char>, Tree)>,
>
    decreases fields.len(),
{
    if fields.len() == 0 {
        Some(Seq::empty())
    } else {
        let (name, form) = fields.last();
        match (fields_written(t, fields.drop_last()), form.written(t.field(name))) {
            (Some(front), Some(value)) => Some(front.push((name, value))),
            _ => None,
        }
    }
}

/// What is known of a commit, as it is written.
pub open spec fn metadata_form(t: Tree) -> Option<Tree> {
    match fields_written(record(t, metadata_names(), 8, true), metadata_fields()) {
        Some(entries) => Some(Tree::Table(entries)),
        None => None,
    }
}

/// An item as it is written, if this is one: its fields in order, with what stands for
/// those that are missing, and without those that nobody knows.
pub open spec fn item_form(t: Tree) -> Option<Tree> {
    let t = record(t, item_names(), 20, true);
    let metadata = match t.field("metadata"@) {
        Some(metadata) => metadata_form(metadata),
        None => None,
    };
    match (fields_written(t, front_fields()), metadata, fields_written(t, back_fields())) {
        (Some(front), Some(metadata), Some(back)) => Some(
            Tree::Table(front.push(("metadata"@, metadata)) + back),
        ),
        _ => None,
    }
}

spec fn forms_of(fields: Seq<(&'static str, FieldForm)>) -> Seq<(Seq<char>, FieldForm)> {
    fields.map_values(|field: (&'static str, FieldForm)| (field.0@, field.1))
}

fn list_front() -> (r: Vec<(&'static str, FieldForm)>)
    ensures
        forms_of(r@) == front_fields(),
{
    let mut fields: Vec<(&'static str, FieldForm)> = Vec::new();
    fields.push(("id", FieldForm::Id));
    fields.push(("repository_id", FieldForm::Id));
    fields.push(("kind", FieldForm::Kind));
    fields.push(("admission_sequence", FieldForm::OptionalNumber));
    fields.push(("enqueue_sequence", FieldForm::Number));
    fields.push(("source_oid", FieldForm::Oid));
    fields.push(("source_ref", FieldForm::Text));
    assert(forms_of(fields@) =~= front_fields());
    fields
}

fn list_metadata() -> (r: Vec<(&'static str, FieldForm)>)
    ensures
        forms_of(r@) == metadata_fields(),
{
    let mut fields: Vec<(&'static str, FieldForm)> = Vec::new();
    fields.push(("subject", FieldForm::Text));
    fields.push(("message_hash", FieldForm::Text));
    fields.push(("author_name", FieldForm::Text));
    fields.push(("author_email", FieldForm::Text));
    fields.push(("branch", FieldForm::OptionalText));
    fields.push(("worktree_path", FieldForm::OptionalText));
    fields.push(("signature_state", FieldForm::Signature));
    fields.push(("approved_at", FieldForm::Moment));
    fields.push(("purpose", FieldForm::OptionalText));
    assert(forms_of(fields@) =~= metadata_fields());
    fields
}

fn list_back() -> (r: Vec<(&'static str, FieldForm)>)
    ensures
        forms_of(r@) == back_fields(),
{
    let mut fields: Vec<(&'static str, FieldForm)> = Vec::new();
    fields.push(("state", FieldForm::State));
    fields.push(("terminal_reason", FieldForm::OptionalText));
    fields.push(("remote_state", FieldForm::Remote));
    fields.push(("cleanup_state", FieldForm::Cleanup));
    fields.push(("cleanup_policy", FieldForm::Policy));
    fields.push(("dependencies", FieldForm::Ids));
    fields.push(("promotion_authorized", FieldForm::Flag));
    fields.push(("promotion_authorized_at", FieldForm::OptionalMoment));
    fields.push(("promotion_authorized_by", FieldForm::OptionalText));
    fields.push(("current_generation_id", FieldForm::OptionalId));
    fields.push(("buildset_id", FieldForm::OptionalId));
    fields.push(("certificate_id", FieldForm::OptionalId));
    assert(forms_of(fields@) =~= back_fields());
    fields
}

proof fn lemma_item_names()
    ensures
        item_names().no_duplicates(),
{
    reveal_strlit("id");
    reveal_strlit("repository_id");
    reveal_strlit("kind");
    reveal_strlit("admission_sequence");
    reveal_strlit("enqueue_sequence");
    reveal_strlit("source_oid");
    reveal_strlit("source_ref");
    reveal_strlit("metadata");
    reveal_strlit("state");
    reveal_strlit("terminal_reason");
    reveal_strlit("remote_state");
    reveal_strlit("cleanup_state");
    reveal_strlit("cleanup_policy");
    reveal_strlit("dependencies");
    reveal_strlit("promotion_authorized");
    reveal_strlit("promotion_authorized_at");
    reveal_strlit("promotion_authorized_by");
    reveal_strlit("current_generation_id");
    reveal_strlit("buildset_id");
    reveal_strlit("certificate_id");
    let names = item_names();
    assert(names[0].len() == 2);
    assert(names[1].len() == 13);
    assert(names[2].len() == 4);
    assert(names[3].len() == 18);
    assert(names[4].len() == 16);
    assert(names[5].len() == 10);
    assert(names[6].len() == 10);
    assert(names[7].len() == 8);
    assert(names[8].len() == 5);
    assert(names[9].len() == 15);
    assert(names[10].len() == 12);
    assert(names[11].len() == 13);
    assert(names[12].len() == 14);
    assert(names[13].len() == 12);
    assert(names[14].len() == 20);
    assert(names[15].len() == 23);
    assert(names[16].len() == 23);
    assert(names[17].len() == 21);
    assert(names[18].len() == 11);
    assert(names[19].len() == 14);
    assert(names[1][0] != names[11][0]);
    assert(names[5][7] != names[6][7]);
    assert(names[10][0] != names[13][0]);
    assert(names[12][1] != names[19][1]);
    assert(names[15][21] != names[16][21]);
}

proof fn lemma_metadata_names()
    ensures
        metadata_names().no_duplicates(),
{
    reveal_strlit("subject");
    reveal_strlit("message_hash");
    reveal_strlit("author_name");
    reveal_strlit("author_email");
    reveal_strlit("branch");
    reveal_strlit("worktree_path");
    reveal_strlit("signature_state");
    reveal_strlit("approved_at");
    reveal_strlit("purpose");
    let names = metadata_names();
    assert(names[0].len() == 7);
    assert(names[1].len() == 12);
    assert(names[2].len() == 11);
    assert(names[3].len() == 12);
    assert(names[4].len() == 6);
    assert(names[5].len() == 13);
    assert(names[6].len() == 15);
    assert(names[7].len() == 11);
    assert(names[8].len() == 7);
    assert(names[0][0] != names[8][0]);
    assert(names[1][0] != names[3][0]);
    assert(names[2][1] != names[7][1]);
}

proof fn lemma_written_names(t: Tree, fields: Seq<(Seq<char>, FieldForm)>)
    requires
        fields_written(t, fields) is Some,
    ensures
        ({
            let entries = fields_written(t, fields)->0;
            &&& entries.len() == fields.len()
            &&& forall|i: int|
                0 <= i < fields.len() ==> (#[trigger] entries[i]).0 == fields[i].0
                    && fields[i].1.written(t.field(fields[i].0)) == Some(entries[i].1)
        }),
    decreases fields.len(),
{
    if fields.len() > 0 {
        lemma_written_names(t, fields.drop_last());
    }
}

proof fn lemma_oid_writable(t: Tree)
    requires
        t.as_oid() is Some,
    ensures
        oid_tree(t.as_oid()->0).writable(1),
{
    reveal_strlit("format");
    reveal_strlit("bytes");
    let entries = oid_tree(t.as_oid()->0)->Table_0;
    assert(entries[0].0.len() != entries[1].0.len());
    assert(entries[0].1.writable(0) && entries[1].1.writable(0));
}

/// Every field has a notation.
proof fn lemma_field_writable(form: FieldForm, value: Option<Tree>)
    requires
        form.written(value) is Some,
    ensures
        form.written(value)->0.writable(1),
{
    let written = form.written(value)->0;
    if form == FieldForm::Oid {
        lemma_oid_writable(value->0);
    } else if form == FieldForm::Ids {
        let items = written->List_0;
        assert forall|i: int| 0 <= i < items.len() implies (#[trigger] items[i]).writable(0) by {
            assert(items[i] is Text);
        }
    } else if written is List {
        let items = written->List_0;
        let n = moment_of(value->0)->0;
        assert forall|i: int| 0 <= i < items.len() implies (#[trigger] items[i]).writable(0) by {
            assert(items[i] == Tree::Integer(n[i]));
            assert(-9999 <= n[i] <= 999_999_999);
        }
    }
}

/// What is known of a commit has a notation.
proof fn lemma_metadata_writable(t: Tree)
    requires
        metadata_form(t) is Some,
    ensures
        metadata_form(t)->0.writable(2),
{
    let table = record(t, metadata_names(), 8, true);
    let fields = metadata_fields();
    let entries = fields_written(table, fields)->0;
    lemma_written_names(table, fields);
    lemma_metadata_names();
    assert forall|i: int| 0 <= i < entries.len() implies (#[trigger] entries[i]).0
        == metadata_names()[i] && entries[i].1.writable(1) by {
        assert(fields[i].1.written(table.field(fields[i].0)) == Some(entries[i].1));
        lemma_field_writable(fields[i].1, table.field(fields[i].0));
    }
    assert(distinct_entries(entries));
}

/// An item that was read has a notation that reads back as itself.
pub proof fn law_items_are_written(t: Tree)
    requires
        item_form(t) is Some,
    ensures
        item_form(t)->0.writable(3),
        item_form(t)->0.has_notation(),
{
    let table = record(t, item_names(), 20, true);
    let front = fields_written(table, front_fields())->0;
    let back = fields_written(table, back_fields())->0;
    let metadata = metadata_form(table.field("metadata"@)->0)->0;
    let entries = item_form(t)->0->Table_0;
    lemma_written_names(table, front_fields());
    lemma_written_names(table, back_fields());
    lemma_metadata_writable(table.field("metadata"@)->0);
    lemma_item_names();
    assert forall|i: int| 0 <= i < entries.len() implies (#[trigger] entries[i]).0
        == item_names()[i] && entries[i].1.writable(2) by {
        if i < 7 {
            assert(entries[i] == front[i]);
            lemma_field_writable(front_fields()[i].1, table.field(front_fields()[i].0));
            lemma_writable_deeper(entries[i].1, 1, 2);
        } else if i > 7 {
            assert(entries[i] == back[i - 8]);
            lemma_field_writable(back_fields()[i - 8].1, table.field(back_fields()[i - 8].0));
            lemma_writable_deeper(entries[i].1, 1, 2);
        }
    }
    assert(distinct_entries(entries));
    lemma_table_writable(entries, 2);
    lemma_writable_deeper(item_form(t)->0, 3, 127);
}

fn write_fields(document: &Document, fields: &Vec<(&'static str, FieldForm)>) -> (r: Option<
    Vec<(String, Document)>,
>)
    ensures
        r is Some <==> fields_written(document@, forms_of(fields@)) is Some,
        r matches Some(entries) ==> fields_written(document@, forms_of(fields@)) == Some(
            entry_trees(entries@),
        ),
{
    let ghost all = forms_of(fields@);
    let mut out: Vec<(String, Document)> = Vec::new();
    let mut i: usize = 0;
    assert(entry_trees(out@) =~= Seq::empty());
    while i < fields.len()
        invariant
            i <= fields@.len(),
            all == forms_of(fields@),
            fields_written(document@, all.take(i as int)) == Some(entry_trees(out@)),
        decreases fields@.len() - i,
    {
        let (name, form) = fields[i];
        let ghost had = entry_trees(out@);
        proof {
            assert(all[i as int] == (name@, form));
            assert(all.take(i + 1).drop_last() =~= all.take(i as int));
            assert(all.take(i + 1).last() == (name@, form));
        }
        match form.write(document.get(name)) {
            Some(value) => {
                out.push((name.to_owned(), value));
                assert(entry_trees(out@) =~= had.push((name@, value@)));
            },
            None => {
                proof {
                    lemma_unwritten(document@, all, i + 1);
                }
                return None;
            },
        }
        i += 1;
    }
    assert(all.take(i as int) =~= all);
    Some(out)
}

proof fn lemma_unwritten(t: Tree, fields: Seq<(Seq<char>, FieldForm)>, n: int)
    requires
        0 <= n <= fields.len(),
        fields_written(t, fields.take(n)) is None,
    ensures
        fields_written(t, fields) is None,
    decreases fields.len(),
{
    if n < fields.len() {
        assert(fields.drop_last().take(n) =~= fields.take(n));
        lemma_unwritten(t, fields.drop_last(), n);
    } else {
        assert(fields.take(n) =~= fields);
    }
}

fn write_metadata(document: &Document) -> (r: Option<Document>)
    ensures
        r is Some <==> metadata_form(document@) is Some,
        r matches Some(written) ==> metadata_form(document@) == Some(written@),
{
    let names = [
        "subject",
        "message_hash",
        "author_name",
        "author_email",
        "branch",
        "worktree_path",
        "signature_state",
        "approved_at",
        "purpose",
    ];
    assert(names_of(names@) =~= metadata_names());
    let table = document.as_record(&names, 8, true);
    let document = match &table {
        Some(table) => table,
        None => document,
    };
    match write_fields(document, &list_metadata()) {
        Some(entries) => {
            let r = Document::Table(entries);
            assert(r@->Table_0 =~= entry_trees(entries@));
            Some(r)
        },
        None => None,
    }
}

/// Writes an item, if this is one.
pub fn write_item(document: &Document) -> (r: Option<Document>)
    ensures
        r is Some <==> item_form(document@) is Some,
        r matches Some(written) ==> item_form(document@) == Some(written@),
{
    let names = [
        "id",
        "repository_id",
        "kind",
        "admission_sequence",
        "enqueue_sequence",
        "source_oid",
        "source_ref",
        "metadata",
        "state",
        "terminal_reason",
        "remote_state",
        "cleanup_state",
        "cleanup_policy",
        "dependencies",
        "promotion_authorized",
        "promotion_authorized_at",
        "promotion_authorized_by",
        "current_generation_id",
        "buildset_id",
        "certificate_id",
    ];
    assert(names_of(names@) =~= item_names());
    let table = document.as_record(&names, 20, true);
    let document = match &table {
        Some(table) => table,
        None => document,
    };
    let mut entries = match write_fields(document, &list_front()) {
        Some(entries) => entries,
        None => {
            return None;
        },
    };
    let metadata = match document.get("metadata") {
        Some(metadata) => match write_metadata(metadata) {
            Some(metadata) => metadata,
            None => {
                return None;
            },
        },
        None => {
            return None;
        },
    };
    let mut back = match write_fields(document, &list_back()) {
        Some(back) => back,
        None => {
            return None;
        },
    };
    let ghost before = entry_trees(entries@);
    let ghost behind = entry_trees(back@);
    let ghost middle = metadata@;
    entries.push(("metadata".to_owned(), metadata));
    entries.append(&mut back);
    let r = Document::Table(entries);
    assert(r@->Table_0 =~= before.push(("metadata"@, middle)) + behind);
    Some(r)
}

} // verus!
