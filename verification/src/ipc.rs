//! What the app and its clients say to each other besides commands.

use crate::document::{text_list, Document, Fields};
#[allow(unused_imports)]
use crate::document::{
    distinct_entries, lemma_lookup_finds, lemma_lookup_misses, lemma_table_writable,
    lemma_text_trees, lemma_writable_deeper, names_of, record, text_trees, Tree,
};
use crate::frame::FrameKind;
use crate::ids::ClientInstanceId;
use crate::outside::{json_value, write_json};
#[allow(unused_imports)]
use crate::outside::{json_parsed, json_written};
use crate::text::str_equal;
#[allow(unused_imports)]
use crate::text::texts;
use crate::wire::id_document;
#[allow(unused_imports)]
use crate::wire::id_tree;
use vstd::prelude::*;

verus! {

impl FrameKind {
    /// The name of the kind in a handshake.
    pub open spec fn name(self) -> Seq<char> {
        match self {
            FrameKind::Handshake => "Handshake"@,
            FrameKind::HandshakeAck => "HandshakeAck"@,
            FrameKind::Request => "Request"@,
            FrameKind::Response => "Response"@,
            FrameKind::Event => "Event"@,
            FrameKind::Log => "Log"@,
            FrameKind::Gap => "Gap"@,
            FrameKind::Ping => "Ping"@,
            FrameKind::Pong => "Pong"@,
        }
    }

    /// The name of the kind in a handshake.
    pub fn as_str(self) -> (r: &'static str)
        ensures
            r@ == self.name(),
    {
        match self {
            FrameKind::Handshake => "Handshake",
            FrameKind::HandshakeAck => "HandshakeAck",
            FrameKind::Request => "Request",
            FrameKind::Response => "Response",
            FrameKind::Event => "Event",
            FrameKind::Log => "Log",
            FrameKind::Gap => "Gap",
            FrameKind::Ping => "Ping",
            FrameKind::Pong => "Pong",
        }
    }

    /// The kind that has a name.
    pub open spec fn named(name: Seq<char>) -> Option<FrameKind> {
        if name == "Handshake"@ {
            Some(FrameKind::Handshake)
        } else if name == "HandshakeAck"@ {
            Some(FrameKind::HandshakeAck)
        } else if name == "Request"@ {
            Some(FrameKind::Request)
        } else if name == "Response"@ {
            Some(FrameKind::Response)
        } else if name == "Event"@ {
            Some(FrameKind::Event)
        } else if name == "Log"@ {
            Some(FrameKind::Log)
        } else if name == "Gap"@ {
            Some(FrameKind::Gap)
        } else if name == "Ping"@ {
            Some(FrameKind::Ping)
        } else if name == "Pong"@ {
            Some(FrameKind::Pong)
        } else {
            None
        }
    }

    /// The kind that has a name.
    pub fn from_name(name: &str) -> (r: Option<FrameKind>)
        ensures
            r == FrameKind::named(name@),
    {
        if str_equal(name, "Handshake") {
            Some(FrameKind::Handshake)
        } else if str_equal(name, "HandshakeAck") {
            Some(FrameKind::HandshakeAck)
        } else if str_equal(name, "Request") {
            Some(FrameKind::Request)
        } else if str_equal(name, "Response") {
            Some(FrameKind::Response)
        } else if str_equal(name, "Event") {
            Some(FrameKind::Event)
        } else if str_equal(name, "Log") {
            Some(FrameKind::Log)
        } else if str_equal(name, "Gap") {
            Some(FrameKind::Gap)
        } else if str_equal(name, "Ping") {
            Some(FrameKind::Ping)
        } else if str_equal(name, "Pong") {
            Some(FrameKind::Pong)
        } else {
            None
        }
    }

    proof fn lemma_named(self)
        ensures
            FrameKind::named(self.name()) == Some(self),
    {
        reveal_strlit("Handshake");
        reveal_strlit("HandshakeAck");
        reveal_strlit("Request");
        reveal_strlit("Response");
        reveal_strlit("Event");
        reveal_strlit("Log");
        reveal_strlit("Gap");
        reveal_strlit("Ping");
        reveal_strlit("Pong");
        assert("Ping"@[1] == 'i' && "Pong"@[1] == 'o');
        assert("Log"@[0] == 'L' && "Gap"@[0] == 'G');
        assert("Handshake"@.len() == 9 && "HandshakeAck"@.len() == 12 && "Request"@.len() == 7);
        assert("Response"@.len() == 8 && "Event"@.len() == 5 && "Log"@.len() == 3);
        assert("Gap"@.len() == 3 && "Ping"@.len() == 4 && "Pong"@.len() == 4);
    }
}

/// The names of the kinds.
pub open spec fn kind_names(kinds: Seq<FrameKind>) -> Seq<Seq<char>> {
    kinds.map_values(|kind: FrameKind| kind.name())
}

fn kind_list(kinds: &Vec<FrameKind>) -> (r: Document)
    ensures
        r@ == text_trees(kind_names(kinds@)),
{
    let mut names: Vec<String> = Vec::new();
    let mut i: usize = 0;
    while i < kinds.len()
        invariant
            i <= kinds@.len(),
            names@.len() == i,
            forall|j: int| 0 <= j < i ==> (#[trigger] names@[j])@ == kinds@[j].name(),
        decreases kinds@.len() - i,
    {
        names.push(kinds[i].as_str().to_owned());
        i += 1;
    }
    assert(texts(names@) =~= kind_names(kinds@));
    text_list(&names)
}

/// The kinds that the names stand for, if every name stands for one.
pub open spec fn kinds_named(names: Seq<Seq<char>>) -> Option<Seq<FrameKind>> {
    if forall|i: int|
        0 <= i < names.len() ==> FrameKind::named(#[trigger] names[i]) is Some {
        Some(names.map_values(|name: Seq<char>| FrameKind::named(name)->0))
    } else {
        None
    }
}

fn read_kinds(names: &Vec<String>) -> (r: Option<Vec<FrameKind>>)
    ensures
        match r {
            Some(kinds) => kinds_named(texts(names@)) == Some(kinds@),
            None => kinds_named(texts(names@)) is None,
        },
{
    let ghost all = texts(names@);
    let mut kinds: Vec<FrameKind> = Vec::new();
    let mut i: usize = 0;
    while i < names.len()
        invariant
            i <= names@.len(),
            all == texts(names@),
            kinds@.len() == i,
            forall|j: int|
                0 <= j < i ==> FrameKind::named(#[trigger] all[j]) == Some(kinds@[j]),
        decreases names@.len() - i,
    {
        assert(all[i as int] == names@[i as int]@);
        match FrameKind::from_name(names[i].as_str()) {
            Some(kind) => kinds.push(kind),
            None => {
                return None;
            },
        }
        i += 1;
    }
    assert(kinds@ =~= all.map_values(|name: Seq<char>| FrameKind::named(name)->0));
    Some(kinds)
}

proof fn lemma_kind_names(kinds: Seq<FrameKind>)
    ensures
        kinds_named(kind_names(kinds)) == Some(kinds),
{
    let names = kind_names(kinds);
    assert forall|i: int| 0 <= i < names.len() implies FrameKind::named(#[trigger] names[i])
        == Some(kinds[i]) by {
        kinds[i].lemma_named();
    }
    assert(names.map_values(|name: Seq<char>| FrameKind::named(name)->0) =~= kinds);
}

proof fn lemma_names_writable(names: Seq<Seq<char>>)
    ensures
        text_trees(names).writable(7),
{
    let items = text_trees(names)->List_0;
    assert forall|i: int| 0 <= i < items.len() implies (#[trigger] items[i]).writable(6) by {
        assert(items[i] == Tree::Text(names[i]));
    }
}

/// A field that lists kinds.
pub open spec fn kinds_field(tree: Tree, name: Seq<char>) -> Option<Seq<FrameKind>> {
    match tree.texts_field(name, true) {
        Some(names) => kinds_named(names),
        None => None,
    }
}

fn read_kinds_field(document: &Document, name: &str) -> (r: Option<Vec<FrameKind>>)
    ensures
        match r {
            Some(kinds) => kinds_field(document@, name@) == Some(kinds@),
            None => kinds_field(document@, name@) is None,
        },
{
    match document.texts_field(name, true) {
        Some(names) => read_kinds(&names),
        None => None,
    }
}

/// What a client says first.
#[derive(Clone, Debug, PartialEq, Eq)]
pub struct Handshake {
    pub client_instance_id: ClientInstanceId,
    pub client_version: String,
    pub protocol_min: u16,
    pub protocol_max: u16,
    pub schema_version: u16,
    pub max_control_payload: u32,
    pub max_log_payload: u32,
    pub supported_frame_kinds: Vec<FrameKind>,
}

/// What a handshake says.
#[verifier::ext_equal]
pub struct HandshakeView {
    pub client_instance_id: ClientInstanceId,
    pub client_version: Seq<char>,
    pub protocol_min: u16,
    pub protocol_max: u16,
    pub schema_version: u16,
    pub max_control_payload: u32,
    pub max_log_payload: u32,
    pub supported_frame_kinds: Seq<FrameKind>,
}

impl View for Handshake {
    type V = HandshakeView;

    open spec fn view(&self) -> HandshakeView {
        HandshakeView {
            client_instance_id: self.client_instance_id,
            client_version: self.client_version@,
            protocol_min: self.protocol_min,
            protocol_max: self.protocol_max,
            schema_version: self.schema_version,
            max_control_payload: self.max_control_payload,
            max_log_payload: self.max_log_payload,
            supported_frame_kinds: self.supported_frame_kinds@,
        }
    }
}

proof fn lemma_handshake_names()
    ensures
        "client_instance_id"@ != "client_version"@,
        "client_instance_id"@ != "protocol_min"@,
        "client_instance_id"@ != "protocol_max"@,
        "client_instance_id"@ != "schema_version"@,
        "client_instance_id"@ != "max_control_payload"@,
        "client_instance_id"@ != "max_log_payload"@,
        "client_instance_id"@ != "supported_frame_kinds"@,
        "client_version"@ != "protocol_min"@,
        "client_version"@ != "protocol_max"@,
        "client_version"@ != "schema_version"@,
        "client_version"@ != "max_control_payload"@,
        "client_version"@ != "max_log_payload"@,
        "client_version"@ != "supported_frame_kinds"@,
        "protocol_min"@ != "protocol_max"@,
        "protocol_min"@ != "schema_version"@,
        "protocol_min"@ != "max_control_payload"@,
        "protocol_min"@ != "max_log_payload"@,
        "protocol_min"@ != "supported_frame_kinds"@,
        "protocol_max"@ != "schema_version"@,
        "protocol_max"@ != "max_control_payload"@,
        "protocol_max"@ != "max_log_payload"@,
        "protocol_max"@ != "supported_frame_kinds"@,
        "schema_version"@ != "max_control_payload"@,
        "schema_version"@ != "max_log_payload"@,
        "schema_version"@ != "supported_frame_kinds"@,
        "max_control_payload"@ != "max_log_payload"@,
        "max_control_payload"@ != "supported_frame_kinds"@,
        "max_log_payload"@ != "supported_frame_kinds"@,
{
    reveal_strlit("client_instance_id");
    reveal_strlit("client_version");
    reveal_strlit("protocol_min");
    reveal_strlit("protocol_max");
    reveal_strlit("schema_version");
    reveal_strlit("max_control_payload");
    reveal_strlit("max_log_payload");
    reveal_strlit("supported_frame_kinds");
    assert("client_instance_id"@.len() != "client_version"@.len());
    assert("client_instance_id"@.len() != "protocol_min"@.len());
    assert("client_instance_id"@.len() != "protocol_max"@.len());
    assert("client_instance_id"@.len() != "schema_version"@.len());
    assert("client_instance_id"@.len() != "max_control_payload"@.len());
    assert("client_instance_id"@.len() != "max_log_payload"@.len());
    assert("client_instance_id"@.len() != "supported_frame_kinds"@.len());
    assert("client_version"@.len() != "protocol_min"@.len());
    assert("client_version"@.len() != "protocol_max"@.len());
    assert("client_version"@[0] != "schema_version"@[0]);
    assert("client_version"@.len() != "max_control_payload"@.len());
    assert("client_version"@.len() != "max_log_payload"@.len());
    assert("client_version"@.len() != "supported_frame_kinds"@.len());
    assert("protocol_min"@[10] != "protocol_max"@[10]);
    assert("protocol_min"@.len() != "schema_version"@.len());
    assert("protocol_min"@.len() != "max_control_payload"@.len());
    assert("protocol_min"@.len() != "max_log_payload"@.len());
    assert("protocol_min"@.len() != "supported_frame_kinds"@.len());
    assert("protocol_max"@.len() != "schema_version"@.len());
    assert("protocol_max"@.len() != "max_control_payload"@.len());
    assert("protocol_max"@.len() != "max_log_payload"@.len());
    assert("protocol_max"@.len() != "supported_frame_kinds"@.len());
    assert("schema_version"@.len() != "max_control_payload"@.len());
    assert("schema_version"@.len() != "max_log_payload"@.len());
    assert("schema_version"@.len() != "supported_frame_kinds"@.len());
    assert("max_control_payload"@.len() != "max_log_payload"@.len());
    assert("max_control_payload"@.len() != "supported_frame_kinds"@.len());
    assert("max_log_payload"@.len() != "supported_frame_kinds"@.len());
}

impl HandshakeView {
    /// The entries of the notation.
    pub open spec fn entries(self) -> Seq<(Seq<char>, Tree)> {
        seq![
            ("client_instance_id"@, id_tree(self.client_instance_id.0)),
            ("client_version"@, Tree::Text(self.client_version)),
            ("protocol_min"@, Tree::Integer(self.protocol_min as int)),
            ("protocol_max"@, Tree::Integer(self.protocol_max as int)),
            ("schema_version"@, Tree::Integer(self.schema_version as int)),
            ("max_control_payload"@, Tree::Integer(self.max_control_payload as int)),
            ("max_log_payload"@, Tree::Integer(self.max_log_payload as int)),
            ("supported_frame_kinds"@, text_trees(kind_names(self.supported_frame_kinds))),
        ]
    }

    /// The notation of the handshake.
    pub open spec fn tree(self) -> Tree {
        Tree::Table(self.entries())
    }

    proof fn lemma_reads(self)
        requires
            id_tree(self.client_instance_id.0).as_id() == Some(self.client_instance_id.0),
        ensures
            self.tree().writable(8),
            forall|default: ClientInstanceId|
                handshake_of(self.tree(), default) == Some(self),
    {
        let entries = self.entries();
        lemma_handshake_names();
        assert(entries[0].0 == "client_instance_id"@);
        assert(entries[1].0 == "client_version"@);
        assert(entries[2].0 == "protocol_min"@);
        assert(entries[3].0 == "protocol_max"@);
        assert(entries[4].0 == "schema_version"@);
        assert(entries[5].0 == "max_control_payload"@);
        assert(entries[6].0 == "max_log_payload"@);
        assert(entries[7].0 == "supported_frame_kinds"@);
        assert(distinct_entries(entries));
        lemma_lookup_finds(entries, 0);
        lemma_lookup_finds(entries, 1);
        lemma_lookup_finds(entries, 2);
        lemma_lookup_finds(entries, 3);
        lemma_lookup_finds(entries, 4);
        lemma_lookup_finds(entries, 5);
        lemma_lookup_finds(entries, 6);
        lemma_lookup_finds(entries, 7);
        lemma_kind_names(self.supported_frame_kinds);
        lemma_text_trees(kind_names(self.supported_frame_kinds));
        lemma_names_writable(kind_names(self.supported_frame_kinds));
        lemma_table_writable(entries, 7);
        assert forall|default: ClientInstanceId|
            handshake_of(self.tree(), default) == Some(self) by {
            assert(handshake_of(self.tree(), default)->0 =~= self);
        }
    }
}

/// The client that a handshake names; without one the default stands.
pub open spec fn client_of(tree: Tree, default: ClientInstanceId) -> Option<ClientInstanceId> {
    match tree.field("client_instance_id"@) {
        None => Some(default),
        Some(value) => match value.as_id() {
            Some(id) => Some(ClientInstanceId(id)),
            None => None,
        },
    }
}

/// The fields of a handshake, in order.
pub open spec fn handshake_order() -> Seq<Seq<char>> {
    seq![
        "client_instance_id"@,
        "client_version"@,
        "protocol_min"@,
        "protocol_max"@,
        "schema_version"@,
        "max_control_payload"@,
        "max_log_payload"@,
        "supported_frame_kinds"@,
    ]
}

/// The handshake that the notation stands for. A client that it does not name is the
/// default one.
pub open spec fn handshake_of(tree: Tree, default: ClientInstanceId) -> Option<HandshakeView> {
    let tree = record(tree, handshake_order(), 8, true);
    let client = client_of(tree, default);
    let version = tree.text_field("client_version"@, None);
    let least = tree.number_field("protocol_min"@, None, u16::MAX as nat);
    let most = tree.number_field("protocol_max"@, None, u16::MAX as nat);
    let schema = tree.number_field("schema_version"@, None, u16::MAX as nat);
    let control = tree.number_field("max_control_payload"@, None, u32::MAX as nat);
    let log = tree.number_field("max_log_payload"@, None, u32::MAX as nat);
    let kinds = kinds_field(tree, "supported_frame_kinds"@);
    if client is Some && version is Some && least is Some && most is Some && schema is Some
        && control is Some && log is Some && kinds is Some {
        Some(
            HandshakeView {
                client_instance_id: client->0,
                client_version: version->0,
                protocol_min: least->0 as u16,
                protocol_max: most->0 as u16,
                schema_version: schema->0 as u16,
                max_control_payload: control->0 as u32,
                max_log_payload: log->0 as u32,
                supported_frame_kinds: kinds->0,
            },
        )
    } else {
        None
    }
}

impl Handshake {
    /// The notation of the handshake.
    pub fn to_document(&self) -> (r: Document)
        ensures
            r@ == self@.tree(),
            r@.writable(8),
            forall|default: ClientInstanceId| handshake_of(r@, default) == Some(self@),
    {
        let mut fields = Fields::new();
        fields.put("client_instance_id", id_document(self.client_instance_id.0));
        fields.put("client_version", Document::Text(self.client_version.as_str().to_owned()));
        fields.put("protocol_min", Document::Integer(self.protocol_min as i128));
        fields.put("protocol_max", Document::Integer(self.protocol_max as i128));
        fields.put("schema_version", Document::Integer(self.schema_version as i128));
        fields.put("max_control_payload", Document::Integer(self.max_control_payload as i128));
        fields.put("max_log_payload", Document::Integer(self.max_log_payload as i128));
        fields.put("supported_frame_kinds", kind_list(&self.supported_frame_kinds));
        proof {
            let entries = fields@;
            assert(entries =~= self@.entries());
            self@.lemma_reads();
        }
        fields.build()
    }

    /// Writes the handshake as JSON.
    pub fn to_json(&self) -> (r: Vec<u8>)
        ensures
            r@ == json_written(self@.tree()),
            json_parsed(r@) == Some(self@.tree()),
    {
        let document = self.to_document();
        proof {
            lemma_writable_deeper(document@, 8, 127);
        }
        write_json(&json_value(&document))
    }

    /// Reads a handshake. Fields that nobody knows are passed over.
    pub fn read(document: &Document, default: ClientInstanceId) -> (r: Option<Handshake>)
        ensures
            match r {
                Some(handshake) => handshake_of(document@, default) == Some(handshake@),
                None => handshake_of(document@, default) is None,
            },
    {
        let names = [
            "client_instance_id",
            "client_version",
            "protocol_min",
            "protocol_max",
            "schema_version",
            "max_control_payload",
            "max_log_payload",
            "supported_frame_kinds",
        ];
        assert(names_of(names@) =~= handshake_order());
        let table = document.as_record(&names, 8, true);
        let document = match &table {
            Some(table) => table,
            None => document,
        };
        let client_instance_id = match document.get("client_instance_id") {
            None => default,
            Some(value) => match value.read_id() {
                Some(id) => ClientInstanceId(id),
                None => {
                    return None;
                },
            },
        };
        let client_version = document.text_field("client_version", None);
        let least = document.number_field("protocol_min", None, 0xffff);
        let most = document.number_field("protocol_max", None, 0xffff);
        let schema = document.number_field("schema_version", None, 0xffff);
        let control = document.number_field("max_control_payload", None, 0xffff_ffff);
        let log = document.number_field("max_log_payload", None, 0xffff_ffff);
        let kinds = read_kinds_field(document, "supported_frame_kinds");
        match (client_version, least, most, schema, control, log, kinds) {
            (
                Some(client_version),
                Some(least),
                Some(most),
                Some(schema),
                Some(control),
                Some(log),
                Some(supported_frame_kinds),
            ) => Some(
                Handshake {
                    client_instance_id,
                    client_version,
                    protocol_min: least as u16,
                    protocol_max: most as u16,
                    schema_version: schema as u16,
                    max_control_payload: control as u32,
                    max_log_payload: log as u32,
                    supported_frame_kinds,
                },
            ),
            _ => None,
        }
    }
}

/// What the app answers to a handshake.
#[derive(Clone, Debug, PartialEq, Eq)]
pub struct HandshakeAck {
    pub app_version: String,
    pub selected_protocol: u16,
    pub schema_version: u16,
    pub max_control_payload: u32,
    pub max_log_payload: u32,
    pub supported_frame_kinds: Vec<FrameKind>,
}

/// What an answer to a handshake says.
#[verifier::ext_equal]
pub struct AckView {
    pub app_version: Seq<char>,
    pub selected_protocol: u16,
    pub schema_version: u16,
    pub max_control_payload: u32,
    pub max_log_payload: u32,
    pub supported_frame_kinds: Seq<FrameKind>,
}

impl View for HandshakeAck {
    type V = AckView;

    open spec fn view(&self) -> AckView {
        AckView {
            app_version: self.app_version@,
            selected_protocol: self.selected_protocol,
            schema_version: self.schema_version,
            max_control_payload: self.max_control_payload,
            max_log_payload: self.max_log_payload,
            supported_frame_kinds: self.supported_frame_kinds@,
        }
    }
}

proof fn lemma_ack_names()
    ensures
        "app_version"@ != "selected_protocol"@,
        "app_version"@ != "schema_version"@,
        "app_version"@ != "max_control_payload"@,
        "app_version"@ != "max_log_payload"@,
        "app_version"@ != "supported_frame_kinds"@,
        "selected_protocol"@ != "schema_version"@,
        "selected_protocol"@ != "max_control_payload"@,
        "selected_protocol"@ != "max_log_payload"@,
        "selected_protocol"@ != "supported_frame_kinds"@,
        "schema_version"@ != "max_control_payload"@,
        "schema_version"@ != "max_log_payload"@,
        "schema_version"@ != "supported_frame_kinds"@,
        "max_control_payload"@ != "max_log_payload"@,
        "max_control_payload"@ != "supported_frame_kinds"@,
        "max_log_payload"@ != "supported_frame_kinds"@,
{
    reveal_strlit("app_version");
    reveal_strlit("selected_protocol");
    reveal_strlit("schema_version");
    reveal_strlit("max_control_payload");
    reveal_strlit("max_log_payload");
    reveal_strlit("supported_frame_kinds");
    assert("app_version"@.len() != "selected_protocol"@.len());
    assert("app_version"@.len() != "schema_version"@.len());
    assert("app_version"@.len() != "max_control_payload"@.len());
    assert("app_version"@.len() != "max_log_payload"@.len());
    assert("app_version"@.len() != "supported_frame_kinds"@.len());
    assert("selected_protocol"@.len() != "schema_version"@.len());
    assert("selected_protocol"@.len() != "max_control_payload"@.len());
    assert("selected_protocol"@.len() != "max_log_payload"@.len());
    assert("selected_protocol"@.len() != "supported_frame_kinds"@.len());
    assert("schema_version"@.len() != "max_control_payload"@.len());
    assert("schema_version"@.len() != "max_log_payload"@.len());
    assert("schema_version"@.len() != "supported_frame_kinds"@.len());
    assert("max_control_payload"@.len() != "max_log_payload"@.len());
    assert("max_control_payload"@.len() != "supported_frame_kinds"@.len());
    assert("max_log_payload"@.len() != "supported_frame_kinds"@.len());
}

impl AckView {
    /// The entries of the notation.
    pub open spec fn entries(self) -> Seq<(Seq<char>, Tree)> {
        seq![
            ("app_version"@, Tree::Text(self.app_version)),
            ("selected_protocol"@, Tree::Integer(self.selected_protocol as int)),
            ("schema_version"@, Tree::Integer(self.schema_version as int)),
            ("max_control_payload"@, Tree::Integer(self.max_control_payload as int)),
            ("max_log_payload"@, Tree::Integer(self.max_log_payload as int)),
            ("supported_frame_kinds"@, text_trees(kind_names(self.supported_frame_kinds))),
        ]
    }

    /// The notation of the answer.
    pub open spec fn tree(self) -> Tree {
        Tree::Table(self.entries())
    }

    proof fn lemma_reads(self)
        ensures
            self.tree().writable(8),
            ack_of(self.tree()) == Some(self),
    {
        let entries = self.entries();
        lemma_ack_names();
        assert(entries[0].0 == "app_version"@);
        assert(entries[1].0 == "selected_protocol"@);
        assert(entries[2].0 == "schema_version"@);
        assert(entries[3].0 == "max_control_payload"@);
        assert(entries[4].0 == "max_log_payload"@);
        assert(entries[5].0 == "supported_frame_kinds"@);
        assert(distinct_entries(entries));
        lemma_lookup_finds(entries, 0);
        lemma_lookup_finds(entries, 1);
        lemma_lookup_finds(entries, 2);
        lemma_lookup_finds(entries, 3);
        lemma_lookup_finds(entries, 4);
        lemma_lookup_finds(entries, 5);
        lemma_kind_names(self.supported_frame_kinds);
        lemma_text_trees(kind_names(self.supported_frame_kinds));
        lemma_names_writable(kind_names(self.supported_frame_kinds));
        lemma_table_writable(entries, 7);
        assert(ack_of(self.tree())->0 =~= self);
    }
}

/// The fields of the answer to a handshake, in order.
pub open spec fn ack_order() -> Seq<Seq<char>> {
    seq![
        "app_version"@,
        "selected_protocol"@,
        "schema_version"@,
        "max_control_payload"@,
        "max_log_payload"@,
        "supported_frame_kinds"@,
    ]
}

/// The answer that the notation stands for.
pub open spec fn ack_of(tree: Tree) -> Option<AckView> {
    let tree = record(tree, ack_order(), 6, true);
    let version = tree.text_field("app_version"@, None);
    let selected = tree.number_field("selected_protocol"@, None, u16::MAX as nat);
    let schema = tree.number_field("schema_version"@, None, u16::MAX as nat);
    let control = tree.number_field("max_control_payload"@, None, u32::MAX as nat);
    let log = tree.number_field("max_log_payload"@, None, u32::MAX as nat);
    let kinds = kinds_field(tree, "supported_frame_kinds"@);
    if version is Some && selected is Some && schema is Some && control is Some && log is Some
        && kinds is Some {
        Some(
            AckView {
                app_version: version->0,
                selected_protocol: selected->0 as u16,
                schema_version: schema->0 as u16,
                max_control_payload: control->0 as u32,
                max_log_payload: log->0 as u32,
                supported_frame_kinds: kinds->0,
            },
        )
    } else {
        None
    }
}

impl HandshakeAck {
    /// The notation of the answer.
    pub fn to_document(&self) -> (r: Document)
        ensures
            r@ == self@.tree(),
            r@.writable(8),
            ack_of(r@) == Some(self@),
    {
        let mut fields = Fields::new();
        fields.put("app_version", Document::Text(self.app_version.as_str().to_owned()));
        fields.put("selected_protocol", Document::Integer(self.selected_protocol as i128));
        fields.put("schema_version", Document::Integer(self.schema_version as i128));
        fields.put("max_control_payload", Document::Integer(self.max_control_payload as i128));
        fields.put("max_log_payload", Document::Integer(self.max_log_payload as i128));
        fields.put("supported_frame_kinds", kind_list(&self.supported_frame_kinds));
        proof {
            assert(fields@ =~= self@.entries());
            self@.lemma_reads();
        }
        fields.build()
    }

    /// Writes the answer as JSON.
    pub fn to_json(&self) -> (r: Vec<u8>)
        ensures
            r@ == json_written(self@.tree()),
            json_parsed(r@) == Some(self@.tree()),
    {
        let document = self.to_document();
        proof {
            lemma_writable_deeper(document@, 8, 127);
        }
        write_json(&json_value(&document))
    }

    /// Reads an answer. Fields that nobody knows are passed over.
    pub fn read(document: &Document) -> (r: Option<HandshakeAck>)
        ensures
            match r {
                Some(ack) => ack_of(document@) == Some(ack@),
                None => ack_of(document@) is None,
            },
    {
        let names = [
            "app_version",
            "selected_protocol",
            "schema_version",
            "max_control_payload",
            "max_log_payload",
            "supported_frame_kinds",
        ];
        assert(names_of(names@) =~= ack_order());
        let table = document.as_record(&names, 6, true);
        let document = match &table {
            Some(table) => table,
            None => document,
        };
        let app_version = document.text_field("app_version", None);
        let selected = document.number_field("selected_protocol", None, 0xffff);
        let schema = document.number_field("schema_version", None, 0xffff);
        let control = document.number_field("max_control_payload", None, 0xffff_ffff);
        let log = document.number_field("max_log_payload", None, 0xffff_ffff);
        let kinds = read_kinds_field(document, "supported_frame_kinds");
        match (app_version, selected, schema, control, log, kinds) {
            (
                Some(app_version),
                Some(selected),
                Some(schema),
                Some(control),
                Some(log),
                Some(supported_frame_kinds),
            ) => Some(
                HandshakeAck {
                    app_version,
                    selected_protocol: selected as u16,
                    schema_version: schema as u16,
                    max_control_payload: control as u32,
                    max_log_payload: log as u32,
                    supported_frame_kinds,
                },
            ),
            _ => None,
        }
    }
}

/// An error that the app reports to a client.
#[derive(Debug, PartialEq, Eq)]
pub struct StructuredError {
    pub code: String,
    pub message: String,
    pub retryable: bool,
    pub details: Option<Document>,
}

/// What an error says. Details that are null are none.
#[verifier::ext_equal]
pub struct ErrorView {
    pub code: Seq<char>,
    pub message: Seq<char>,
    pub retryable: bool,
    pub details: Option<Tree>,
}

/// What an optional document holds.
pub open spec fn optional_tree(document: Option<Document>) -> Option<Tree> {
    match document {
        Some(document) => Some(document@),
        None => None,
    }
}

impl View for StructuredError {
    type V = ErrorView;

    open spec fn view(&self) -> ErrorView {
        ErrorView {
            code: self.code@,
            message: self.message@,
            retryable: self.retryable,
            details: optional_tree(self.details),
        }
    }
}

/// A field that holds anything but null, if there is one.
pub open spec fn filled_field(tree: Tree, name: Seq<char>) -> Option<Tree> {
    match tree.field(name) {
        None | Some(Tree::Null) => None,
        Some(value) => Some(value),
    }
}

fn read_filled(document: &Document, name: &str) -> (r: Option<Document>)
    ensures
        optional_tree(r) == filled_field(document@, name@),
{
    match document.get(name) {
        None => None,
        Some(Document::Null) => None,
        Some(value) => Some(value.duplicate()),
    }
}

proof fn lemma_error_names()
    ensures
        "code"@ != "message"@,
        "code"@ != "retryable"@,
        "code"@ != "details"@,
        "message"@ != "retryable"@,
        "message"@ != "details"@,
        "retryable"@ != "details"@,
{
    reveal_strlit("code");
    reveal_strlit("message");
    reveal_strlit("retryable");
    reveal_strlit("details");
    assert("code"@.len() != "message"@.len());
    assert("code"@.len() != "retryable"@.len());
    assert("code"@.len() != "details"@.len());
    assert("message"@.len() != "retryable"@.len());
    assert("message"@[0] != "details"@[0]);
    assert("retryable"@.len() != "details"@.len());
}

impl ErrorView {
    /// The entries of the notation.
    pub open spec fn entries(self) -> Seq<(Seq<char>, Tree)> {
        let always = seq![
            ("code"@, Tree::Text(self.code)),
            ("message"@, Tree::Text(self.message)),
            ("retryable"@, Tree::Bool(self.retryable)),
        ];
        match self.details {
            Some(details) => always.push(("details"@, details)),
            None => always,
        }
    }

    /// The notation of the error.
    pub open spec fn tree(self) -> Tree {
        Tree::Table(self.entries())
    }

    /// The error reads back as itself if it nests no deeper than this.
    pub open spec fn wf(self) -> bool {
        self.details matches Some(details) ==> details.writable(125) && !(details is Null)
    }

    /// The notation of an error reads back as the error.
    pub proof fn lemma_reads(self)
        requires
            self.wf(),
        ensures
            self.tree().writable(126),
            error_of(self.tree()) == Some(self),
    {
        let entries = self.entries();
        lemma_error_names();
        assert(entries[0].0 == "code"@);
        assert(entries[1].0 == "message"@);
        assert(entries[2].0 == "retryable"@);
        if self.details is Some {
            assert(entries[3].0 == "details"@);
            assert(distinct_entries(entries));
            lemma_lookup_finds(entries, 3);
        } else {
            assert(distinct_entries(entries));
            lemma_lookup_misses(entries, "details"@);
        }
        lemma_lookup_finds(entries, 0);
        lemma_lookup_finds(entries, 1);
        lemma_lookup_finds(entries, 2);
        lemma_table_writable(entries, 125);
        assert(error_of(self.tree())->0 =~= self);
    }
}

/// The fields of an error, in order.
pub open spec fn error_order() -> Seq<Seq<char>> {
    seq![
        "code"@,
        "message"@,
        "retryable"@,
        "details"@,
    ]
}

/// The error that the notation stands for.
pub open spec fn error_of(tree: Tree) -> Option<ErrorView> {
    let tree = record(tree, error_order(), 3, true);
    let code = tree.text_field("code"@, None);
    let message = tree.text_field("message"@, None);
    let retryable = tree.bool_field("retryable"@, None);
    if code is Some && message is Some && retryable is Some {
        Some(
            ErrorView {
                code: code->0,
                message: message->0,
                retryable: retryable->0,
                details: filled_field(tree, "details"@),
            },
        )
    } else {
        None
    }
}

impl StructuredError {
    /// The notation of the error.
    pub fn to_document(&self) -> (r: Document)
        ensures
            r@ == self@.tree(),
    {
        let mut fields = Fields::new();
        fields.put("code", Document::Text(self.code.as_str().to_owned()));
        fields.put("message", Document::Text(self.message.as_str().to_owned()));
        fields.put("retryable", Document::Bool(self.retryable));
        if let Some(details) = &self.details {
            fields.put("details", details.duplicate());
        }
        assert(fields@ =~= self@.entries());
        fields.build()
    }

    /// Reads an error. Fields that nobody knows are passed over.
    pub fn read(document: &Document) -> (r: Option<StructuredError>)
        ensures
            match r {
                Some(error) => error_of(document@) == Some(error@),
                None => error_of(document@) is None,
            },
    {
        let names = [
            "code",
            "message",
            "retryable",
            "details",
        ];
        assert(names_of(names@) =~= error_order());
        let table = document.as_record(&names, 3, true);
        let document = match &table {
            Some(table) => table,
            None => document,
        };
        let code = document.text_field("code", None);
        let message = document.text_field("message", None);
        let retryable = document.bool_field("retryable", None);
        let details = read_filled(document, "details");
        match (code, message, retryable) {
            (Some(code), Some(message), Some(retryable)) => Some(
                StructuredError { code, message, retryable, details },
            ),
            _ => None,
        }
    }
}

/// What the app answers to a command.
#[derive(Debug, PartialEq, Eq)]
pub struct IpcResponse {
    pub ok: bool,
    pub result: Option<Document>,
    pub error: Option<StructuredError>,
}

/// What an answer says. A result that is null is none.
#[verifier::ext_equal]
pub struct ResponseView {
    pub ok: bool,
    pub result: Option<Tree>,
    pub error: Option<ErrorView>,
}

impl View for IpcResponse {
    type V = ResponseView;

    open spec fn view(&self) -> ResponseView {
        ResponseView {
            ok: self.ok,
            result: optional_tree(self.result),
            error: match self.error {
                Some(error) => Some(error@),
                None => None,
            },
        }
    }
}

proof fn lemma_response_names()
    ensures
        "ok"@ != "result"@,
        "ok"@ != "error"@,
        "result"@ != "error"@,
{
    reveal_strlit("ok");
    reveal_strlit("result");
    reveal_strlit("error");
    assert("ok"@.len() != "result"@.len());
    assert("ok"@.len() != "error"@.len());
    assert("result"@.len() != "error"@.len());
}

impl ResponseView {
    /// The entries of the notation.
    pub open spec fn entries(self) -> Seq<(Seq<char>, Tree)> {
        seq![
            ("ok"@, Tree::Bool(self.ok)),
            (
                "result"@,
                match self.result {
                    Some(result) => result,
                    None => Tree::Null,
                },
            ),
            (
                "error"@,
                match self.error {
                    Some(error) => error.tree(),
                    None => Tree::Null,
                },
            ),
        ]
    }

    /// The notation of the answer.
    pub open spec fn tree(self) -> Tree {
        Tree::Table(self.entries())
    }

    /// The answer has a notation.
    pub open spec fn writable(self) -> bool {
        self.tree().has_notation()
    }

    /// The answer without a result or details that are null.
    pub open spec fn plain(self) -> bool {
        &&& self.result matches Some(result) ==> !(result is Null)
        &&& self.error matches Some(error) ==> error.wf()
    }
}

/// The error of an answer, if it has one.
pub open spec fn response_error(tree: Tree) -> Option<Option<ErrorView>> {
    match filled_field(tree, "error"@) {
        None => Some(None),
        Some(value) => match error_of(value) {
            Some(error) => Some(Some(error)),
            None => None,
        },
    }
}

/// The fields of an answer, in order.
pub open spec fn response_order() -> Seq<Seq<char>> {
    seq![
        "ok"@,
        "result"@,
        "error"@,
    ]
}

/// The answer that the notation stands for.
pub open spec fn response_of(tree: Tree) -> Option<ResponseView> {
    let tree = record(tree, response_order(), 3, true);
    let ok = tree.bool_field("ok"@, None);
    let error = response_error(tree);
    if ok is Some && error is Some {
        Some(
            ResponseView {
                ok: ok->0,
                result: filled_field(tree, "result"@),
                error: error->0,
            },
        )
    } else {
        None
    }
}

/// An answer reads back as itself.
pub proof fn law_responses_survive_the_wire(response: ResponseView)
    requires
        response.plain(),
    ensures
        response_of(response.tree()) == Some(response),
{
    let entries = response.entries();
    lemma_response_names();
    assert(entries[0].0 == "ok"@);
    assert(entries[1].0 == "result"@);
    assert(entries[2].0 == "error"@);
    assert(distinct_entries(entries));
    lemma_lookup_finds(entries, 0);
    lemma_lookup_finds(entries, 1);
    lemma_lookup_finds(entries, 2);
    if let Some(error) = response.error {
        error.lemma_reads();
    }
    assert(response_of(response.tree())->0 =~= response);
}

impl IpcResponse {
    /// The notation of the answer.
    pub fn to_document(&self) -> (r: Document)
        ensures
            r@ == self@.tree(),
    {
        let mut fields = Fields::new();
        fields.put("ok", Document::Bool(self.ok));
        let result = match &self.result {
            Some(result) => result.duplicate(),
            None => Document::Null,
        };
        fields.put("result", result);
        let error = match &self.error {
            Some(error) => error.to_document(),
            None => Document::Null,
        };
        fields.put("error", error);
        assert(fields@ =~= self@.entries());
        fields.build()
    }

    /// Writes the answer as JSON, if it has a notation.
    pub fn to_json(&self) -> (r: Option<Vec<u8>>)
        ensures
            r is Some <==> self@.writable(),
            r matches Some(bytes) ==> bytes@ == json_written(self@.tree()) && (
            self@.tree().writable(127) ==> json_parsed(bytes@) == Some(self@.tree())),
    {
        let document = self.to_document();
        if !document.can_write() {
            return None;
        }
        Some(write_json(&json_value(&document)))
    }

    /// Reads an answer. Fields that nobody knows are passed over.
    pub fn read(document: &Document) -> (r: Option<IpcResponse>)
        ensures
            match r {
                Some(response) => response_of(document@) == Some(response@),
                None => response_of(document@) is None,
            },
    {
        let names = [
            "ok",
            "result",
            "error",
        ];
        assert(names_of(names@) =~= response_order());
        let table = document.as_record(&names, 3, true);
        let document = match &table {
            Some(table) => table,
            None => document,
        };
        let ok = match document.bool_field("ok", None) {
            Some(ok) => ok,
            None => {
                return None;
            },
        };
        let error = match document.get("error") {
            None => None,
            Some(Document::Null) => None,
            Some(value) => match StructuredError::read(value) {
                Some(error) => Some(error),
                None => {
                    return None;
                },
            },
        };
        let result = read_filled(document, "result");
        Some(IpcResponse { ok, result, error })
    }
}

} // verus!
