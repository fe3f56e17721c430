//! How values are written into documents and read back.

use crate::document::{Document, Fields};
#[allow(unused_imports)]
use crate::document::{
    distinct_entries, lemma_lookup_finds, lemma_table_writable, names_of, record, text_trees, Tree,
};
use crate::ids::QueueItemId;
use crate::oid::{GitOid, ObjectFormat};
#[allow(unused_imports)]
use crate::oid::{lemma_hex_notation, GitOidView};
use crate::outside::{encode_hex, format_uuid, parse_uuid};
#[allow(unused_imports)]
use crate::outside::{hex_bytes, hex_text, is_hex_text, uuid_text, uuid_value};
use crate::text::str_equal;
#[allow(unused_imports)]
use crate::text::texts;
use crate::text_map::TextMap;
use vstd::prelude::*;

verus! {

/// What an identifier is written as.
pub open spec fn id_tree(id: u128) -> Tree {
    Tree::Text(uuid_text(id))
}

/// Writes an identifier.
pub fn id_document(id: u128) -> (r: Document)
    ensures
        r@ == id_tree(id),
        r@.as_id() == Some(id),
{
    Document::Text(format_uuid(id))
}

pub open spec fn optional_id_tree(id: Option<u128>) -> Tree {
    match id {
        Some(id) => id_tree(id),
        None => Tree::Null,
    }
}

pub fn optional_id_document(id: Option<u128>) -> (r: Document)
    ensures
        r@ == optional_id_tree(id),
        r@.as_optional_id() == Some(id),
{
    match id {
        Some(id) => id_document(id),
        None => Document::Null,
    }
}

pub open spec fn optional_text_tree(text: Option<Seq<char>>) -> Tree {
    match text {
        Some(text) => Tree::Text(text),
        None => Tree::Null,
    }
}

pub fn optional_text_document(text: &Option<String>) -> (r: Document)
    ensures
        r@ == optional_text_tree(match text { Some(text) => Some(text@), None => None }),
{
    match text {
        Some(text) => Document::Text(text.as_str().to_owned()),
        None => Document::Null,
    }
}

pub open spec fn optional_number_tree(number: Option<u64>) -> Tree {
    match number {
        Some(number) => Tree::Integer(number as int),
        None => Tree::Null,
    }
}

pub fn optional_number_document(number: Option<u64>) -> (r: Document)
    ensures
        r@ == optional_number_tree(number),
{
    match number {
        Some(number) => Document::Integer(number as i128),
        None => Document::Null,
    }
}

/// What a list of identifiers is written as.
pub open spec fn ids_tree(ids: Seq<QueueItemId>) -> Tree {
    text_trees(ids.map_values(|id: QueueItemId| uuid_text(id.0)))
}

/// Writes a list of identifiers.
pub fn ids_document(ids: &Vec<QueueItemId>) -> (r: Document)
    ensures
        r@ == ids_tree(ids@),
        r@.as_ids() == Some(ids@.map_values(|id: QueueItemId| id.0)),
{
    let mut out: Vec<String> = Vec::new();
    let mut i: usize = 0;
    while i < ids.len()
        invariant
            i <= ids@.len(),
            out@.len() == i,
            forall|j: int|
                0 <= j < i ==> (#[trigger] out@[j])@ == uuid_text(ids@[j].0) && uuid_value(
                    out@[j]@,
                ) == Some(ids@[j].0),
        decreases ids@.len() - i,
    {
        out.push(format_uuid(ids[i].0));
        i += 1;
    }
    assert(texts(out@) =~= ids@.map_values(|id: QueueItemId| uuid_text(id.0)));
    let r = crate::document::text_list(&out);
    proof {
        let written = texts(out@);
        assert(r@.as_texts() == Some(written)) by {
            assert(r@->List_0.map_values(|item: Tree| item->Text_0) =~= written);
        }
        assert forall|j: int| 0 <= j < written.len() implies uuid_value(
            #[trigger] written[j],
        ) is Some by {
            assert(written[j] == out@[j]@);
        }
        assert(written.map_values(|text: Seq<char>| uuid_value(text)->0) =~= ids@.map_values(
            |id: QueueItemId| id.0,
        )) by {
            assert forall|j: int| 0 <= j < written.len() implies uuid_value(#[trigger] written[j])
                == Some(ids@[j].0) by {
                assert(written[j] == out@[j]@);
            }
        }
    }
    r
}

impl ObjectFormat {
    /// The format as it is written.
    pub open spec fn wire_name(self) -> Seq<char> {
        match self {
            ObjectFormat::Sha1 => "sha1"@,
            ObjectFormat::Sha256 => "sha256"@,
        }
    }

    /// The format as it is written.
    pub fn as_str(self) -> (r: &'static str)
        ensures
            r@ == self.wire_name(),
    {
        match self {
            ObjectFormat::Sha1 => "sha1",
            ObjectFormat::Sha256 => "sha256",
        }
    }
}

/// What an object identifier is written as.
pub open spec fn oid_tree(oid: GitOidView) -> Tree {
    Tree::Table(
        seq![
            ("format"@, Tree::Text(oid.format.wire_name())),
            ("bytes"@, Tree::Text(hex_text(oid.bytes))),
        ],
    )
}

/// Writes an object identifier.
pub fn oid_document(oid: &GitOid) -> (r: Document)
    ensures
        r@ == oid_tree(oid@),
        r@.as_oid() == Some(oid@),
        r@.writable(2),
{
    let mut fields = Fields::new();
    fields.put("format", Document::Text(oid.object_format().as_str().to_owned()));
    fields.put("bytes", Document::Text(encode_hex(oid.as_bytes())));
    let r = fields.build();
    proof {
        let entries = r@->Table_0;
        assert(entries =~= oid_tree(oid@)->Table_0);
        reveal_strlit("format");
        reveal_strlit("bytes");
        reveal_strlit("sha1");
        reveal_strlit("sha256");
        assert("format"@.len() != "bytes"@.len());
        assert("sha1"@.len() != "sha256"@.len());
        lemma_lookup_finds(entries, 0);
        lemma_lookup_finds(entries, 1);
        assert(entries[0].0 == "format"@ && entries[1].0 == "bytes"@);
        lemma_hex_notation(oid@.bytes);
        assert(r@.as_oid()->0 =~= oid@);
        assert(entries[0].1.writable(1) && entries[1].1.writable(1));
        crate::document::lemma_table_writable(entries, 1);
    }
    r
}

pub open spec fn optional_oid_tree(oid: Option<GitOidView>) -> Tree {
    match oid {
        Some(oid) => oid_tree(oid),
        None => Tree::Null,
    }
}

pub fn optional_oid_document(oid: &Option<GitOid>) -> (r: Document)
    ensures
        r@ == optional_oid_tree(match oid { Some(oid) => Some(oid@), None => None }),
        r@.as_optional_oid() == Some(match oid { Some(oid) => Some(oid@), None => None }),
        r@.writable(2),
{
    match oid {
        Some(oid) => oid_document(oid),
        None => Document::Null,
    }
}

impl Tree {
    /// An identifier.
    pub open spec fn as_id(self) -> Option<u128> {
        match self.as_text() {
            Some(text) => uuid_value(text),
            None => None,
        }
    }

    pub open spec fn id_field(self, name: Seq<char>) -> Option<u128> {
        match self.field(name) {
            Some(value) => value.as_id(),
            None => None,
        }
    }

    /// An identifier, or nothing.
    pub open spec fn as_optional_id(self) -> Option<Option<u128>> {
        match self {
            Tree::Null => Some(None),
            value => match value.as_id() {
                Some(id) => Some(Some(id)),
                None => None,
            },
        }
    }

    pub open spec fn optional_id(self, name: Seq<char>) -> Option<Option<u128>> {
        match self.field(name) {
            None => Some(None),
            Some(value) => value.as_optional_id(),
        }
    }

    /// A list of identifiers.
    pub open spec fn as_ids(self) -> Option<Seq<u128>> {
        match self.as_texts() {
            Some(items) => if all_ids(items) {
                Some(items.map_values(|text: Seq<char>| uuid_value(text)->0))
            } else {
                None
            },
            None => None,
        }
    }

    pub open spec fn ids_field(self, name: Seq<char>) -> Option<Seq<u128>> {
        match self.field(name) {
            Some(value) => value.as_ids(),
            None => None,
        }
    }

    /// An object identifier: its format and its bytes, however many these are.
    pub open spec fn as_oid(self) -> Option<GitOidView> {
        let table = record(self, seq!["format"@, "bytes"@], 2, true);
        match (table.variant_field("format"@, None), table.text_field("bytes"@, None)) {
            (Some(format), Some(bytes)) => if !is_hex_text(bytes) {
                None
            } else if format == "sha1"@ {
                Some(GitOidView { format: ObjectFormat::Sha1, bytes: hex_bytes(bytes) })
            } else if format == "sha256"@ {
                Some(GitOidView { format: ObjectFormat::Sha256, bytes: hex_bytes(bytes) })
            } else {
                None
            },
            _ => None,
        }
    }

    /// An object identifier, or nothing.
    pub open spec fn as_optional_oid(self) -> Option<Option<GitOidView>> {
        match self {
            Tree::Null => Some(None),
            value => match value.as_oid() {
                Some(oid) => Some(Some(oid)),
                None => None,
            },
        }
    }

    pub open spec fn optional_oid(self, name: Seq<char>) -> Option<Option<GitOidView>> {
        match self.field(name) {
            None => Some(None),
            Some(value) => value.as_optional_oid(),
        }
    }
}

/// Every one of the texts is an identifier.
pub open spec fn all_ids(items: Seq<Seq<char>>) -> bool {
    forall|i: int| 0 <= i < items.len() ==> uuid_value(#[trigger] items[i]) is Some
}

impl Document {
    pub fn read_id(&self) -> (r: Option<u128>)
        ensures
            r == self@.as_id(),
    {
        match self.read_text() {
            Some(text) => parse_uuid(text.as_str()),
            None => None,
        }
    }

    pub fn id_field(&self, name: &str) -> (r: Option<u128>)
        ensures
            r == self@.id_field(name@),
    {
        match self.get(name) {
            Some(value) => value.read_id(),
            None => None,
        }
    }

    pub fn optional_id(&self, name: &str) -> (r: Option<Option<u128>>)
        ensures
            r == self@.optional_id(name@),
    {
        match self.get(name) {
            None => Some(None),
            Some(Document::Null) => Some(None),
            Some(value) => match value.read_id() {
                Some(id) => Some(Some(id)),
                None => None,
            },
        }
    }

    /// A list of identifiers.
    pub fn read_ids(&self) -> (r: Option<Vec<QueueItemId>>)
        ensures
            r is Some <==> self@.as_ids() is Some,
            r matches Some(ids) ==> self@.as_ids() == Some(
                ids@.map_values(|id: QueueItemId| id.0),
            ),
    {
        let items = match self.read_texts() {
            Some(items) => items,
            None => {
                return None;
            },
        };
        let ghost all = texts(items@);
        let mut out: Vec<QueueItemId> = Vec::new();
        let mut i: usize = 0;
        while i < items.len()
            invariant
                i <= items@.len(),
                all == texts(items@),
                self@.as_texts() == Some(all),
                out@.len() == i,
                forall|j: int| 0 <= j < i ==> uuid_value(#[trigger] all[j]) == Some(out@[j].0),
            decreases items@.len() - i,
        {
            assert(all[i as int] == items@[i as int]@);
            match parse_uuid(items[i].as_str()) {
                Some(id) => out.push(QueueItemId(id)),
                None => {
                    assert(!all_ids(all));
                    return None;
                },
            }
            i += 1;
        }
        assert(all.map_values(|text: Seq<char>| uuid_value(text)->0) =~= out@.map_values(
            |id: QueueItemId| id.0,
        ));
        Some(out)
    }

    pub fn ids_field(&self, name: &str) -> (r: Option<Vec<QueueItemId>>)
        ensures
            r is Some <==> self@.ids_field(name@) is Some,
            r matches Some(ids) ==> self@.ids_field(name@) == Some(
                ids@.map_values(|id: QueueItemId| id.0),
            ),
    {
        match self.get(name) {
            Some(value) => value.read_ids(),
            None => None,
        }
    }

    pub fn read_oid(&self) -> (r: Option<GitOid>)
        ensures
            r is Some <==> self@.as_oid() is Some,
            r matches Some(oid) ==> self@.as_oid() == Some(oid@),
    {
        let names = ["format", "bytes"];
        assert(names_of(names@) =~= seq!["format"@, "bytes"@]);
        let table = self.as_record(&names, 2, true);
        let table = match &table {
            Some(table) => table,
            None => self,
        };
        let format = match table.variant_field("format", None) {
            Some(format) => format,
            None => {
                return None;
            },
        };
        let notation = match table.text_field("bytes", None) {
            Some(notation) => notation,
            None => {
                return None;
            },
        };
        let bytes = match crate::outside::decode_hex(notation.as_str()) {
            Some(bytes) => bytes,
            None => {
                return None;
            },
        };
        let format = if str_equal(format.as_str(), "sha1") {
            ObjectFormat::Sha1
        } else if str_equal(format.as_str(), "sha256") {
            ObjectFormat::Sha256
        } else {
            return None;
        };
        proof {
            reveal_strlit("sha1");
            reveal_strlit("sha256");
            assert("sha1"@.len() != "sha256"@.len());
        }
        Some(GitOid::from_parts(format, bytes))
    }

    pub fn optional_oid(&self, name: &str) -> (r: Option<Option<GitOid>>)
        ensures
            r is Some <==> self@.optional_oid(name@) is Some,
            r matches Some(None) ==> self@.optional_oid(name@) == Some(None::<GitOidView>),
            r matches Some(Some(oid)) ==> self@.optional_oid(name@) == Some(Some(oid@)),
    {
        match self.get(name) {
            None => Some(None),
            Some(Document::Null) => Some(None),
            Some(value) => match value.read_oid() {
                Some(oid) => Some(Some(oid)),
                None => None,
            },
        }
    }
}

impl Tree {
    /// A whole number within 32 bits, with a sign.
    pub open spec fn as_i32(self) -> Option<i32> {
        match self {
            Tree::Integer(value) => if i32::MIN <= value <= i32::MAX {
                Some(value as i32)
            } else {
                None
            },
            _ => None,
        }
    }

    /// Such a number, or nothing.
    pub open spec fn as_optional_i32(self) -> Option<Option<i32>> {
        match self {
            Tree::Null => Some(None),
            value => match value.as_i32() {
                Some(number) => Some(Some(number)),
                None => None,
            },
        }
    }

    pub open spec fn optional_i32(self, name: Seq<char>) -> Option<Option<i32>> {
        match self.field(name) {
            None => Some(None),
            Some(value) => value.as_optional_i32(),
        }
    }

    /// The field is a table of texts.
    pub open spec fn has_text_table(self, name: Seq<char>) -> bool {
        self.field(name) matches Some(value) && value.is_text_table()
    }

    /// The field is a table of texts, with this contents.
    pub open spec fn text_table(self, name: Seq<char>, map: Map<Seq<char>, String>) -> bool {
        self.field(name) matches Some(value) && value.is_text_table() && value.maps_to(map)
    }
}

impl Document {
    pub fn optional_i32(&self, name: &str) -> (r: Option<Option<i32>>)
        ensures
            r == self@.optional_i32(name@),
    {
        match self.get(name) {
            None => Some(None),
            Some(Document::Null) => Some(None),
            Some(Document::Integer(value)) => {
                if i32::MIN as i128 <= *value && *value <= i32::MAX as i128 {
                    Some(Some(*value as i32))
                } else {
                    None
                }
            },
            Some(_) => None,
        }
    }

    pub fn text_table(&self, name: &str) -> (r: Option<TextMap<String>>)
        ensures
            r is Some <==> self@.has_text_table(name@),
            r matches Some(map) ==> self@.text_table(name@, map@),
    {
        match self.get(name) {
            Some(value) => value.read_text_map(),
            None => None,
        }
    }
}

pub open spec fn optional_i32_tree(number: Option<i32>) -> Tree {
    match number {
        Some(number) => Tree::Integer(number as int),
        None => Tree::Null,
    }
}

pub fn optional_i32_document(number: Option<i32>) -> (r: Document)
    ensures
        r@ == optional_i32_tree(number),
{
    match number {
        Some(number) => Document::Integer(number as i128),
        None => Document::Null,
    }
}

/// What a map of texts is written as: a table in the order of its keys.
pub open spec fn text_map_tree(keys: Seq<Seq<char>>, map: Map<Seq<char>, String>) -> Tree {
    Tree::Table(keys.map_values(|key: Seq<char>| (key, Tree::Text(map[key]@))))
}

proof fn lemma_map_written(
    entries: Seq<(Seq<char>, Tree)>,
    keys: Seq<Seq<char>>,
    map: Map<Seq<char>, String>,
)
    requires
        entries == keys.map_values(|key: Seq<char>| (key, Tree::Text(map[key]@))),
        distinct_entries(entries),
        map.dom() == keys.to_set(),
    ensures
        Tree::Table(entries).maps_to(map),
{
    let tree = Tree::Table(entries);
    assert forall|key: Seq<char>|
        {
            &&& #[trigger] map.dom().contains(key) <==> tree.field(key) is Some
            &&& map.dom().contains(key) ==> tree.field(key)->0.as_text() == Some(map[key]@)
        } by {
        if map.dom().contains(key) {
            assert(keys.to_set().contains(key));
            let i = choose|i: int| 0 <= i < keys.len() && keys[i] == key;
            assert(entries[i].0 == key);
            lemma_lookup_finds(entries, i);
        } else {
            assert forall|i: int| 0 <= i < entries.len() implies (#[trigger] entries[i]).0 != key by {
                if entries[i].0 == key {
                    assert(keys[i] == key);
                    assert(keys.to_set().contains(key));
                }
            }
            crate::document::lemma_lookup_misses(entries, key);
        }
    }
}

/// What a map of texts is written as has a notation, and reads back as the map.
pub proof fn lemma_text_map_tree(map: TextMap<String>)
    requires
        map.sound(),
    ensures
        text_map_tree(map.keys(), map@).is_text_table(),
        text_map_tree(map.keys(), map@).maps_to(map@),
        text_map_tree(map.keys(), map@).writable(1),
{
    let keys = map.keys();
    let entries = text_map_tree(keys, map@)->Table_0;
    assert forall|a: int, b: int| 0 <= a < b < entries.len() implies (#[trigger] entries[a]).0 != (
    #[trigger] entries[b]).0 by {
        assert(crate::text::text_before(keys[a], keys[b]));
        crate::text::lemma_bytes_before_irreflexive(vstd::utf8::encode_utf8(keys[a]));
    }
    assert forall|a: int| 0 <= a < entries.len() implies (#[trigger] entries[a]).1.writable(0) by {}
    lemma_table_writable(entries, 0);
    lemma_map_written(entries, keys, map@);
}

/// Maps that give the same texts to the same keys are written in one way, in whatever order
/// the entries were made.
pub proof fn law_the_order_of_entries_does_not_matter(a: TextMap<String>, b: TextMap<String>)
    requires
        a.sound(),
        b.sound(),
        a@.dom() == b@.dom(),
        forall|key: Seq<char>| #[trigger] a@.dom().contains(key) ==> a@[key]@ == b@[key]@,
    ensures
        text_map_tree(a.keys(), a@) == text_map_tree(b.keys(), b@),
{
    crate::text::lemma_ascending_unique(a.keys(), b.keys());
    let entries = text_map_tree(a.keys(), a@)->Table_0;
    let others = text_map_tree(b.keys(), b@)->Table_0;
    assert forall|i: int| 0 <= i < entries.len() implies entries[i] == others[i] by {
        assert(a.keys().to_set().contains(a.keys()[i]));
    }
    assert(entries =~= others);
}

/// Maps that are read from one table are written in one way.
pub proof fn lemma_one_table_one_notation(tree: Tree, a: TextMap<String>, b: TextMap<String>)
    requires
        a.sound(),
        b.sound(),
        tree.maps_to(a@),
        tree.maps_to(b@),
    ensures
        text_map_tree(a.keys(), a@) == text_map_tree(b.keys(), b@),
{
    assert forall|key: Seq<char>| a@.dom().contains(key) == b@.dom().contains(key) by {
        assert(a@.dom().contains(key) <==> tree.field(key) is Some);
        assert(b@.dom().contains(key) <==> tree.field(key) is Some);
    }
    assert(a@.dom() =~= b@.dom());
    assert forall|key: Seq<char>| #[trigger] a@.dom().contains(key) implies a@[key]@ == b@[key]@ by {
        assert(b@.dom().contains(key));
    }
    law_the_order_of_entries_does_not_matter(a, b);
}

/// Writes a map of texts.
pub fn text_map_document(map: &TextMap<String>) -> (r: Document)
    ensures
        r@ == text_map_tree(map.keys(), map@),
        r@.is_text_table(),
        r@.maps_to(map@),
        r@.writable(1),
        map.sound(),
{
    let count: usize = map.len();
    let ghost keys = map.keys();
    let mut fields = Fields::new();
    let mut i: usize = 0;
    while i < count
        invariant
            i <= count == keys.len(),
            keys == map.keys(),
            fields@.len() == i,
            forall|j: int|
                0 <= j < i ==> #[trigger] fields@[j] == (keys[j], Tree::Text(map@[keys[j]]@)),
        decreases count - i,
    {
        let key = map.key_at(i);
        let value = map.value_at(i);
        fields.put(key.as_str(), Document::Text(value.as_str().to_owned()));
        i += 1;
    }
    let r = fields.build();
    proof {
        assert(r@->Table_0 =~= text_map_tree(keys, map@)->Table_0);
        lemma_text_map_tree(*map);
    }
    r
}

} // verus!
