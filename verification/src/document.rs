//! Parsed documents: the common shape of TOML and JSON input.

#[allow(unused_imports)]
use crate::outside::number_text;
use crate::outside::{copy_number, write_number};
use crate::text::{chars_of, str_equal};
#[allow(unused_imports)]
use crate::text::texts;
use crate::text_map::TextMap;
use vstd::prelude::*;

verus! {

/// A parsed document. `Decimal` is a JSON number that is not kept as a whole one. `Other` stands for
/// what this crate has no use for: the floating point numbers and dates of TOML.
#[derive(Debug, PartialEq, Eq)]
pub enum Document {
    Null,
    Bool(bool),
    Integer(i128),
    Text(String),
    List(Vec<Document>),
    Table(Vec<(String, Document)>),
    Decimal(serde_json::Number),
    Other,
}

/// What a document denotes.
pub enum Tree {
    Null,
    Bool(bool),
    Integer(int),
    Text(Seq<char>),
    List(Seq<Tree>),
    Table(Seq<(Seq<char>, Tree)>),
    Decimal(Seq<char>),
    Other,
}

impl Document {
    /// What the document denotes.
    pub open spec fn tree(self) -> Tree
        decreases self,
    {
        match self {
            Document::Null => Tree::Null,
            Document::Bool(value) => Tree::Bool(value),
            Document::Integer(value) => Tree::Integer(value as int),
            Document::Text(value) => Tree::Text(value@),
            Document::List(items) => Tree::List(
                Seq::new(
                    items@.len(),
                    |i: int|
                        if 0 <= i < items@.len() {
                            items@[i].tree()
                        } else {
                            Tree::Null
                        },
                ),
            ),
            Document::Table(entries) => Tree::Table(
                Seq::new(
                    entries@.len(),
                    |i: int|
                        if 0 <= i < entries@.len() {
                            (entries@[i].0@, entries@[i].1.tree())
                        } else {
                            (Seq::empty(), Tree::Null)
                        },
                ),
            ),
            Document::Decimal(number) => Tree::Decimal(number_text(number)),
            Document::Other => Tree::Other,
        }
    }
}

impl View for Document {
    type V = Tree;

    open spec fn view(&self) -> Tree {
        self.tree()
    }
}

/// The value of the first entry with the given name.
pub open spec fn lookup(entries: Seq<(Seq<char>, Tree)>, name: Seq<char>) -> Option<Tree>
    decreases entries.len(),
{
    if entries.len() == 0 {
        None
    } else if entries[0].0 == name {
        Some(entries[0].1)
    } else {
        lookup(entries.drop_first(), name)
    }
}

/// The values of all entries are texts.
pub open spec fn all_texts(entries: Seq<(Seq<char>, Tree)>) -> bool {
    forall|i: int| 0 <= i < entries.len() ==> (#[trigger] entries[i]).1 is Text
}

/// The names of all entries are among those given.
pub open spec fn all_named(entries: Seq<(Seq<char>, Tree)>, names: Seq<Seq<char>>) -> bool {
    forall|i: int| 0 <= i < entries.len() ==> names.contains((#[trigger] entries[i]).0)
}

/// The first name that is not among those given.
pub open spec fn stranger(entries: Seq<(Seq<char>, Tree)>, names: Seq<Seq<char>>) -> Option<
    Seq<char>,
>
    decreases entries.len(),
{
    if entries.len() == 0 {
        None
    } else if !names.contains(entries[0].0) {
        Some(entries[0].0)
    } else {
        stranger(entries.drop_first(), names)
    }
}

/// No two entries have the same name.
pub open spec fn distinct_entries(entries: Seq<(Seq<char>, Tree)>) -> bool {
    forall|i: int, j: int|
        0 <= i < j < entries.len() ==> (#[trigger] entries[i]).0 != (#[trigger] entries[j]).0
}

/// The character only stands in the notation of a number that is not kept as a whole one.
pub open spec fn marks_fraction(c: char) -> bool {
    c == '.' || c == 'e' || c == 'E'
}

/// The notation is that of a number that is not kept as a whole one: it has a point or an
/// exponent.
pub open spec fn is_fractional(text: Seq<char>) -> bool {
    exists|i: int| 0 <= i < text.len() && marks_fraction(#[trigger] text[i])
}

fn fractional(text: &str) -> (r: bool)
    ensures
        r == is_fractional(text@),
{
    let chars = chars_of(text);
    let mut i: usize = 0;
    while i < chars.len()
        invariant
            i <= chars@.len(),
            chars@ == text@,
            forall|j: int| 0 <= j < i ==> !marks_fraction(#[trigger] text@[j]),
        decreases chars@.len() - i,
    {
        if chars[i] == '.' || chars[i] == 'e' || chars[i] == 'E' {
            assert(marks_fraction(text@[i as int]));
            return true;
        }
        i += 1;
    }
    false
}

/// A bound on the length of a list in JSON notation without its brackets.
pub open spec fn list_bound(items: Seq<Tree>) -> nat
    decreases items,
{
    if items.len() == 0 {
        0
    } else {
        list_bound(items.drop_last()) + items[items.len() - 1].size_bound() + 1
    }
}

/// A bound on the length of a table in JSON notation without its brackets.
pub open spec fn table_bound(entries: Seq<(Seq<char>, Tree)>) -> nat
    decreases entries,
{
    if entries.len() == 0 {
        0
    } else {
        let last = entries[entries.len() - 1];
        table_bound(entries.drop_last()) + 6 * last.0.len() + 4 + last.1.size_bound()
    }
}

impl Tree {
    /// A bound on the length of the JSON notation in bytes: no character takes more than
    /// six, and no whole number more than twenty.
    pub open spec fn size_bound(self) -> nat
        decreases self,
    {
        match self {
            Tree::Null => 4,
            Tree::Bool(_) => 5,
            Tree::Integer(_) => 20,
            Tree::Text(text) => 6 * text.len() + 2,
            Tree::List(items) => 2 + list_bound(items),
            Tree::Table(entries) => 2 + table_bound(entries),
            Tree::Decimal(text) => text.len(),
            Tree::Other => 0,
        }
    }

    /// The contents have a notation that reads back as themselves: they nest no deeper
    /// than `depth`, names occur once, and numbers fit into 64 bits.
    pub open spec fn writable(self, depth: nat) -> bool
        decreases self,
    {
        match self {
            Tree::Null | Tree::Bool(_) | Tree::Text(_) => true,
            Tree::Integer(value) => i64::MIN <= value <= u64::MAX,
            Tree::List(items) => depth > 0 && forall|i: int|
                0 <= i < items.len() ==> (#[trigger] items[i]).writable((depth - 1) as nat),
            Tree::Table(entries) => depth > 0 && distinct_entries(entries) && forall|i: int|
                0 <= i < entries.len() ==> (#[trigger] entries[i]).1.writable((depth - 1) as nat),
            Tree::Decimal(_) | Tree::Other => false,
        }
    }

    /// The contents have a notation: names occur once, whole numbers fit into 64 bits, and
    /// decimals are not whole numbers.
    pub open spec fn has_notation(self) -> bool
        decreases self,
    {
        match self {
            Tree::Null | Tree::Bool(_) | Tree::Text(_) => true,
            Tree::Decimal(text) => is_fractional(text),
            Tree::Integer(value) => i64::MIN <= value <= u64::MAX,
            Tree::List(items) => forall|i: int|
                0 <= i < items.len() ==> (#[trigger] items[i]).has_notation(),
            Tree::Table(entries) => distinct_entries(entries) && forall|i: int|
                0 <= i < entries.len() ==> (#[trigger] entries[i]).1.has_notation(),
            Tree::Other => false,
        }
    }

    /// The same contents, whatever the order of the fields of a table.
    pub open spec fn same_contents(self, other: Tree) -> bool
        decreases self,
    {
        match (self, other) {
            (Tree::List(items), Tree::List(others)) => items.len() == others.len() && forall|i: int|
                0 <= i < items.len() ==> (#[trigger] items[i]).same_contents(others[i]),
            (Tree::Table(entries), Tree::Table(others)) => entries.len() == others.len()
                && forall|i: int|
                0 <= i < entries.len() ==> (lookup(others, (#[trigger] entries[i]).0) is Some
                    && entries[i].1.same_contents(lookup(others, entries[i].0)->Some_0)),
            (Tree::List(_), _) => false,
            (Tree::Table(_), _) => false,
            (_, _) => self == other,
        }
    }

    /// The value of a field of a table.
    pub open spec fn field(self, name: Seq<char>) -> Option<Tree> {
        match self {
            Tree::Table(entries) => lookup(entries, name),
            _ => None,
        }
    }

    /// It is a table, and all of its fields are among those named.
    pub open spec fn only_fields(self, names: Seq<Seq<char>>) -> bool {
        match self {
            Tree::Table(entries) => all_named(entries, names),
            _ => false,
        }
    }

    pub open spec fn as_text(self) -> Option<Seq<char>> {
        match self {
            Tree::Text(value) => Some(value),
            _ => None,
        }
    }

    /// The name of a variant without contents: a text, or a table that has the name with
    /// nothing behind it.
    pub open spec fn as_variant(self) -> Option<Seq<char>> {
        match self {
            Tree::Text(value) => Some(value),
            Tree::Table(entries) => if entries.len() == 1 && entries[0].1 == Tree::Null {
                Some(entries[0].0)
            } else {
                None
            },
            _ => None,
        }
    }

    pub open spec fn as_bool(self) -> Option<bool> {
        match self {
            Tree::Bool(value) => Some(value),
            _ => None,
        }
    }

    /// A whole number from zero up to `max`.
    pub open spec fn as_number(self, max: nat) -> Option<nat> {
        match self {
            Tree::Integer(value) => if 0 <= value <= max {
                Some(value as nat)
            } else {
                None
            },
            _ => None,
        }
    }

    /// A list of texts.
    pub open spec fn as_texts(self) -> Option<Seq<Seq<char>>> {
        match self {
            Tree::List(items) => if forall|i: int|
                0 <= i < items.len() ==> #[trigger] items[i] is Text {
                Some(items.map_values(|item: Tree| item->Text_0))
            } else {
                None
            },
            _ => None,
        }
    }

    /// A table all of whose values are texts.
    pub open spec fn is_text_table(self) -> bool {
        match self {
            Tree::Table(entries) => all_texts(entries),
            _ => false,
        }
    }

    /// The map holds exactly the fields of the table, which are texts.
    pub open spec fn maps_to(self, map: Map<Seq<char>, String>) -> bool {
        forall|key: Seq<char>|
            {
                &&& #[trigger] map.dom().contains(key) <==> self.field(key) is Some
                &&& map.dom().contains(key) ==> self.field(key)->0.as_text() == Some(map[key]@)
            }
    }

    /// A text field; without one the default stands, if there is a default.
    pub open spec fn text_field(self, name: Seq<char>, default: Option<Seq<char>>) -> Option<
        Seq<char>,
    > {
        match self.field(name) {
            Some(value) => value.as_text(),
            None => default,
        }
    }

    /// A field that names a variant; without one the default stands, if there is a default.
    pub open spec fn variant_field(self, name: Seq<char>, default: Option<Seq<char>>) -> Option<
        Seq<char>,
    > {
        match self.field(name) {
            Some(value) => value.as_variant(),
            None => default,
        }
    }

    /// A text field that may be missing.
    pub open spec fn optional_text(self, name: Seq<char>) -> Option<Option<Seq<char>>> {
        match self.field(name) {
            None | Some(Tree::Null) => Some(None),
            Some(value) => match value.as_text() {
                Some(text) => Some(Some(text)),
                None => None,
            },
        }
    }

    /// A yes-or-no field; without one the default stands, if there is a default.
    pub open spec fn bool_field(self, name: Seq<char>, default: Option<bool>) -> Option<bool> {
        match self.field(name) {
            Some(value) => value.as_bool(),
            None => default,
        }
    }

    /// A number field; without one the default stands, if there is a default.
    pub open spec fn number_field(self, name: Seq<char>, default: Option<nat>, max: nat) -> Option<
        nat,
    > {
        match self.field(name) {
            Some(value) => value.as_number(max),
            None => default,
        }
    }

    /// A number field that may be missing.
    pub open spec fn optional_number(self, name: Seq<char>, max: nat) -> Option<Option<nat>> {
        match self.field(name) {
            None | Some(Tree::Null) => Some(None),
            Some(value) => match value.as_number(max) {
                Some(number) => Some(Some(number)),
                None => None,
            },
        }
    }

    /// A field that lists texts; without one the list is empty, unless it is required.
    pub open spec fn texts_field(self, name: Seq<char>, required: bool) -> Option<Seq<Seq<char>>> {
        match self.field(name) {
            Some(value) => value.as_texts(),
            None => if required {
                None
            } else {
                Some(Seq::empty())
            },
        }
    }

    /// A field that lists texts, or may be missing.
    pub open spec fn optional_texts(self, name: Seq<char>) -> Option<Option<Seq<Seq<char>>>> {
        match self.field(name) {
            None | Some(Tree::Null) => Some(None),
            Some(value) => match value.as_texts() {
                Some(items) => Some(Some(items)),
                None => None,
            },
        }
    }
}

/// A record that may be written as a table or as a list of its fields in order: the
/// table. The first `needed` fields may not be left out of a list. A `strict` list has no
/// more items than there are fields; what else there is in another one does not count.
pub open spec fn record(t: Tree, names: Seq<Seq<char>>, needed: nat, strict: bool) -> Tree {
    match t {
        Tree::List(items) => if needed <= items.len() && (items.len() <= names.len() || !strict) {
            Tree::Table(
                Seq::new(
                    if items.len() <= names.len() {
                        items.len()
                    } else {
                        names.len()
                    },
                    |i: int| (names[i], items[i]),
                ),
            )
        } else {
            t
        },
        _ => t,
    }
}

/// The text at the beginning of a list.
pub open spec fn first_text(t: Tree) -> Option<Seq<char>> {
    match t {
        Tree::List(items) => if items.len() > 0 {
            items[0].as_text()
        } else {
            None
        },
        _ => None,
    }
}

/// The contents of field names.
pub open spec fn names_of(names: Seq<&str>) -> Seq<Seq<char>> {
    names.map_values(|name: &str| name@)
}

proof fn lemma_lookup_step(entries: Seq<(Seq<char>, Tree)>, name: Seq<char>, i: int)
    requires
        0 <= i < entries.len(),
    ensures
        lookup(entries.skip(i), name) == if entries[i].0 == name {
            Some(entries[i].1)
        } else {
            lookup(entries.skip(i + 1), name)
        },
{
    assert(entries.skip(i).drop_first() =~= entries.skip(i + 1));
    assert(entries.skip(i)[0] == entries[i]);
}

impl Document {
    /// The value of a field of a table.
    pub fn get(&self, name: &str) -> (r: Option<&Document>)
        ensures
            r is Some <==> self@.field(name@) is Some,
            r matches Some(value) ==> self@.field(name@) == Some(value@),
    {
        match self {
            Document::Table(entries) => {
                let ghost all = self@->Table_0;
                let mut i: usize = 0;
                assert(all.skip(0) =~= all);
                while i < entries.len()
                    invariant
                        i <= entries@.len(),
                        all.len() == entries@.len(),
                        self@ == Tree::Table(all),
                        *self == Document::Table(*entries),
                        lookup(all, name@) == lookup(all.skip(i as int), name@),
                    decreases entries@.len() - i,
                {
                    proof {
                        lemma_lookup_step(all, name@, i as int);
                        assert(all[i as int] == (entries@[i as int].0@, entries@[i as int].1@));
                    }
                    if str_equal(entries[i].0.as_str(), name) {
                        return Some(&entries[i].1);
                    }
                    i += 1;
                }
                assert(all.skip(i as int).len() == 0);
                None
            },
            _ => None,
        }
    }

    /// The text at the beginning of a list.
    pub fn read_first_text(&self) -> (r: Option<String>)
        ensures
            match r {
                Some(text) => first_text(self@) == Some(text@),
                None => first_text(self@) is None,
            },
    {
        match self {
            Document::List(items) => if items.len() > 0 {
                assert(self@->List_0[0] == items@[0]@);
                items[0].read_text()
            } else {
                None
            },
            _ => None,
        }
    }

    /// The table of a record that is written as a list of its fields in order.
    pub fn as_record(&self, names: &[&str], needed: usize, strict: bool) -> (r: Option<Document>)
        ensures
            match r {
                Some(table) => table@ == record(self@, names_of(names@), needed as nat, strict),
                None => self@ == record(self@, names_of(names@), needed as nat, strict),
            },
    {
        match self {
            Document::List(items) => {
                if items.len() < needed || (strict && items.len() > names.len()) {
                    return None;
                }
                let mut entries: Vec<(String, Document)> = Vec::new();
                let mut i: usize = 0;
                while i < items.len() && i < names.len()
                    invariant
                        i <= items@.len(),
                        i <= names@.len(),
                        entries@.len() == i,
                        forall|j: int|
                            0 <= j < i ==> (#[trigger] entries@[j]).0@ == names@[j]@
                                && entries@[j].1@ == items@[j]@,
                    decreases items@.len() - i,
                {
                    entries.push((names[i].to_owned(), items[i].duplicate()));
                    i += 1;
                }
                let table = Document::Table(entries);
                proof {
                    let whole = record(self@, names_of(names@), needed as nat, strict);
                    assert(table@->Table_0 =~= whole->Table_0);
                }
                Some(table)
            },
            _ => None,
        }
    }

    /// The first field of a table that is not among those named.
    pub fn unknown_field(&self, names: &[&str]) -> (r: Option<String>)
        ensures
            r is Some <==> (self@ is Table && !self@.only_fields(names_of(names@))),
            r matches Some(name) ==> self@ is Table && stranger(
                self@->Table_0,
                names_of(names@),
            ) == Some(name@),
    {
        let ghost allowed = names_of(names@);
        match self {
            Document::Table(entries) => {
                let ghost all = self@->Table_0;
                let mut i: usize = 0;
                assert(all.skip(0) =~= all);
                while i < entries.len()
                    invariant
                        i <= entries@.len(),
                        all.len() == entries@.len(),
                        self@ == Tree::Table(all),
                        *self == Document::Table(*entries),
                        allowed == names_of(names@),
                        stranger(all, allowed) == stranger(all.skip(i as int), allowed),
                        forall|j: int| 0 <= j < i ==> allowed.contains((#[trigger] all[j]).0),
                    decreases entries@.len() - i,
                {
                    let mut known = false;
                    let mut k: usize = 0;
                    assert(all[i as int].0 == entries@[i as int].0@);
                    while k < names.len() && !known
                        invariant
                            i < entries@.len(),
                            k <= names@.len(),
                            allowed == names_of(names@),
                            known ==> allowed.contains(entries@[i as int].0@),
                            !known ==> forall|j: int|
                                0 <= j < k ==> allowed[j] != entries@[i as int].0@,
                        decreases names@.len() - k,
                    {
                        if str_equal(names[k], entries[i].0.as_str()) {
                            assert(allowed[k as int] == entries@[i as int].0@);
                            known = true;
                        }
                        k += 1;
                    }
                    assert(all.skip(i as int)[0] == all[i as int]);
                    if !known {
                        assert(!allowed.contains(all[i as int].0));
                        assert(!all_named(all, allowed));
                        return Some(entries[i].0.as_str().to_owned());
                    }
                    assert(all.skip(i as int).drop_first() =~= all.skip(i + 1));
                    i += 1;
                }
                None
            },
            _ => None,
        }
    }

    /// Whether this is a table all of whose fields are among those named.
    pub fn has_only(&self, names: &[&str]) -> (r: bool)
        ensures
            r == self@.only_fields(names_of(names@)),
    {
        match self {
            Document::Table(_) => self.unknown_field(names).is_none(),
            _ => false,
        }
    }

    pub fn read_text(&self) -> (r: Option<String>)
        ensures
            r is Some <==> self@.as_text() is Some,
            r matches Some(text) ==> self@.as_text() == Some(text@),
    {
        match self {
            Document::Text(value) => Some(value.clone()),
            _ => None,
        }
    }

    pub fn read_variant(&self) -> (r: Option<String>)
        ensures
            r is Some <==> self@.as_variant() is Some,
            r matches Some(text) ==> self@.as_variant() == Some(text@),
    {
        match self {
            Document::Text(value) => Some(value.as_str().to_owned()),
            Document::Table(entries) => {
                let ghost all = self@->Table_0;
                assert(all.len() == entries@.len());
                if entries.len() != 1 {
                    return None;
                }
                assert(all[0] == (entries@[0].0@, entries@[0].1.tree()));
                match &entries[0].1 {
                    Document::Null => Some(entries[0].0.as_str().to_owned()),
                    _ => None,
                }
            },
            _ => None,
        }
    }

    pub fn read_bool(&self) -> (r: Option<bool>)
        ensures
            r == self@.as_bool(),
    {
        match self {
            Document::Bool(value) => Some(*value),
            _ => None,
        }
    }

    /// A whole number from zero up to `max`.
    pub fn read_number(&self, max: u64) -> (r: Option<u64>)
        ensures
            r is Some <==> self@.as_number(max as nat) is Some,
            r matches Some(number) ==> self@.as_number(max as nat) == Some(number as nat),
    {
        match self {
            Document::Integer(value) => {
                if 0 <= *value && *value <= max as i128 {
                    Some(*value as u64)
                } else {
                    None
                }
            },
            _ => None,
        }
    }

    /// A list of texts.
    pub fn read_texts(&self) -> (r: Option<Vec<String>>)
        ensures
            r is Some <==> self@.as_texts() is Some,
            r matches Some(items) ==> self@.as_texts() == Some(crate::text::texts(items@)),
    {
        match self {
            Document::List(items) => {
                let ghost all = self@->List_0;
                let mut out: Vec<String> = Vec::new();
                let mut i: usize = 0;
                while i < items.len()
                    invariant
                        i <= items@.len(),
                        all.len() == items@.len(),
                        self@ == Tree::List(all),
                        *self == Document::List(*items),
                        out@.len() == i,
                        forall|j: int|
                            0 <= j < i ==> #[trigger] all[j] is Text && all[j]->Text_0 == out@[j]@,
                    decreases items@.len() - i,
                {
                    assert(all[i as int] == items@[i as int]@);
                    match items[i].read_text() {
                        Some(text) => out.push(text),
                        None => {
                            assert(!(all[i as int] is Text));
                            return None;
                        },
                    }
                    i += 1;
                }
                assert(crate::text::texts(out@) =~= all.map_values(|item: Tree| item->Text_0));
                Some(out)
            },
            _ => None,
        }
    }

    /// A table of texts, as a map.
    pub fn read_text_map(&self) -> (r: Option<TextMap<String>>)
        ensures
            r is Some <==> self@.is_text_table(),
            r matches Some(map) ==> self@.maps_to(map@),
    {
        match self {
            Document::Table(entries) => {
                let ghost all = self@->Table_0;
                let mut map: TextMap<String> = TextMap::new();
                let mut i: usize = entries.len();
                proof {
                    assert(all.skip(all.len() as int).len() == 0);
                }
                while i > 0
                    invariant
                        i <= entries@.len(),
                        all.len() == entries@.len(),
                        self@ == Tree::Table(all),
                        *self == Document::Table(*entries),
                        Tree::Table(all.skip(i as int)).maps_to(map@),
                        forall|j: int| i <= j < all.len() ==> (#[trigger] all[j]).1 is Text,
                    decreases i,
                {
                    i -= 1;
                    assert(all[i as int] == (entries@[i as int].0@, entries@[i as int].1@));
                    match entries[i].1.read_text() {
                        Some(text) => {
                            let ghost before = map@;
                            let ghost value = text;
                            map.insert(entries[i].0.clone(), text);
                            proof {
                                let now = Tree::Table(all.skip(i as int));
                                let later = Tree::Table(all.skip(i + 1));
                                assert forall|key: Seq<char>|
                                    {
                                        &&& #[trigger] map@.dom().contains(key) <==> now.field(
                                            key,
                                        ) is Some
                                        &&& map@.dom().contains(key) ==> now.field(
                                            key,
                                        )->0.as_text() == Some(map@[key]@)
                                    } by {
                                    lemma_lookup_step(all, key, i as int);
                                    assert(before.dom().contains(key) <==> later.field(key) is Some);
                                }
                            }
                        },
                        None => {
                            assert(!all_texts(all));
                            return None;
                        },
                    }
                }
                assert(all.skip(0) =~= all);
                Some(map)
            },
            _ => None,
        }
    }

    /// A text field; without one the default stands, if there is a default.
    pub fn text_field(&self, name: &str, default: Option<&str>) -> (r: Option<String>)
        ensures
            ({
                let fallback = match default {
                    Some(text) => Some(text@),
                    None => None,
                };
                &&& r is Some <==> self@.text_field(name@, fallback) is Some
                &&& r matches Some(text) ==> self@.text_field(name@, fallback) == Some(text@)
            }),
    {
        match self.get(name) {
            Some(value) => value.read_text(),
            None => match default {
                Some(text) => Some(text.to_owned()),
                None => None,
            },
        }
    }

    /// A field that names a variant; without one the default stands, if there is a default.
    pub fn variant_field(&self, name: &str, default: Option<&str>) -> (r: Option<String>)
        ensures
            ({
                let fallback = match default {
                    Some(text) => Some(text@),
                    None => None,
                };
                &&& r is Some <==> self@.variant_field(name@, fallback) is Some
                &&& r matches Some(text) ==> self@.variant_field(name@, fallback) == Some(text@)
            }),
    {
        match self.get(name) {
            Some(value) => value.read_variant(),
            None => match default {
                Some(text) => Some(text.to_owned()),
                None => None,
            },
        }
    }

    /// A text field that may be missing.
    pub fn optional_text(&self, name: &str) -> (r: Option<Option<String>>)
        ensures
            r is Some <==> self@.optional_text(name@) is Some,
            r matches Some(None) ==> self@.optional_text(name@) == Some(None::<Seq<char>>),
            r matches Some(Some(text)) ==> self@.optional_text(name@) == Some(Some(text@)),
    {
        match self.get(name) {
            None => Some(None),
            Some(Document::Null) => Some(None),
            Some(value) => match value.read_text() {
                Some(text) => Some(Some(text)),
                None => None,
            },
        }
    }

    /// A yes-or-no field; without one the default stands, if there is a default.
    pub fn bool_field(&self, name: &str, default: Option<bool>) -> (r: Option<bool>)
        ensures
            r == self@.bool_field(name@, default),
    {
        match self.get(name) {
            Some(value) => value.read_bool(),
            None => default,
        }
    }

    /// A number field; without one the default stands, if there is a default.
    pub fn number_field(&self, name: &str, default: Option<u64>, max: u64) -> (r: Option<u64>)
        ensures
            ({
                let fallback = match default {
                    Some(number) => Some(number as nat),
                    None => None,
                };
                &&& r is Some <==> self@.number_field(name@, fallback, max as nat) is Some
                &&& r matches Some(number) ==> self@.number_field(name@, fallback, max as nat)
                    == Some(number as nat)
            }),
    {
        match self.get(name) {
            Some(value) => value.read_number(max),
            None => default,
        }
    }

    /// A number field that may be missing.
    pub fn optional_number(&self, name: &str, max: u64) -> (r: Option<Option<u64>>)
        ensures
            r is Some <==> self@.optional_number(name@, max as nat) is Some,
            r matches Some(None) ==> self@.optional_number(name@, max as nat) == Some(None::<nat>),
            r matches Some(Some(number)) ==> self@.optional_number(name@, max as nat) == Some(
                Some(number as nat),
            ),
    {
        match self.get(name) {
            None => Some(None),
            Some(Document::Null) => Some(None),
            Some(value) => match value.read_number(max) {
                Some(number) => Some(Some(number)),
                None => None,
            },
        }
    }

    /// A field that lists texts; without one the list is empty, unless it is required.
    pub fn texts_field(&self, name: &str, required: bool) -> (r: Option<Vec<String>>)
        ensures
            r is Some <==> self@.texts_field(name@, required) is Some,
            r matches Some(items) ==> self@.texts_field(name@, required) == Some(
                crate::text::texts(items@),
            ),
    {
        match self.get(name) {
            Some(value) => value.read_texts(),
            None => if required {
                None
            } else {
                let items: Vec<String> = Vec::new();
                assert(crate::text::texts(items@) =~= Seq::<Seq<char>>::empty());
                Some(items)
            },
        }
    }

    /// A field that lists texts, or may be missing.
    pub fn optional_texts(&self, name: &str) -> (r: Option<Option<Vec<String>>>)
        ensures
            r is Some <==> self@.optional_texts(name@) is Some,
            r matches Some(None) ==> self@.optional_texts(name@) == Some(None::<Seq<Seq<char>>>),
            r matches Some(Some(items)) ==> self@.optional_texts(name@) == Some(
                Some(crate::text::texts(items@)),
            ),
    {
        match self.get(name) {
            None => Some(None),
            Some(Document::Null) => Some(None),
            Some(value) => match value.read_texts() {
                Some(items) => Some(Some(items)),
                None => None,
            },
        }
    }
}

/// What the entries of a table denote.
pub open spec fn entry_trees(entries: Seq<(String, Document)>) -> Seq<(Seq<char>, Tree)> {
    entries.map_values(|entry: (String, Document)| (entry.0@, entry.1@))
}

/// The entries of a table that is being written.
pub struct Fields {
    entries: Vec<(String, Document)>,
}

impl View for Fields {
    type V = Seq<(Seq<char>, Tree)>;

    closed spec fn view(&self) -> Seq<(Seq<char>, Tree)> {
        entry_trees(self.entries@)
    }
}

impl Fields {
    pub fn new() -> (r: Fields)
        ensures
            r@ == Seq::<(Seq<char>, Tree)>::empty(),
    {
        let r = Fields { entries: Vec::new() };
        assert(r@ =~= Seq::<(Seq<char>, Tree)>::empty());
        r
    }

    /// Adds an entry at the end.
    pub fn put(&mut self, name: &str, value: Document)
        ensures
            final(self)@ == old(self)@.push((name@, value@)),
    {
        self.entries.push((name.to_owned(), value));
        assert(self@ =~= old(self)@.push((name@, value@)));
    }

    /// The table with these entries.
    pub fn build(self) -> (r: Document)
        ensures
            r@ == Tree::Table(self@),
    {
        let r = Document::Table(self.entries);
        assert(r@->Table_0 =~= self@);
        r
    }
}

/// What can be written to some depth can be written to any greater depth.
pub proof fn lemma_writable_deeper(tree: Tree, depth: nat, deeper: nat)
    requires
        tree.writable(depth),
        depth <= deeper,
    ensures
        tree.writable(deeper),
        tree.has_notation(),
    decreases tree,
{
    match tree {
        Tree::List(items) => {
            assert forall|i: int| 0 <= i < items.len() implies (#[trigger] items[i]).writable(
                (deeper - 1) as nat,
            ) && items[i].has_notation() by {
                lemma_writable_deeper(items[i], (depth - 1) as nat, (deeper - 1) as nat);
            }
        },
        Tree::Table(entries) => {
            assert forall|i: int| 0 <= i < entries.len() implies (#[trigger] entries[i]).1.writable(
                (deeper - 1) as nat,
            ) && entries[i].1.has_notation() by {
                lemma_writable_deeper(entries[i].1, (depth - 1) as nat, (deeper - 1) as nat);
            }
        },
        _ => {},
    }
}

/// A table can be written if its names occur once and its values can be written.
pub proof fn lemma_table_writable(entries: Seq<(Seq<char>, Tree)>, depth: nat)
    requires
        distinct_entries(entries),
        forall|i: int| 0 <= i < entries.len() ==> (#[trigger] entries[i]).1.writable(depth),
    ensures
        Tree::Table(entries).writable(depth + 1),
{
    assert((depth + 1 - 1) as nat == depth);
}

/// The first entry with a name that occurs once is the entry with that name.
pub proof fn lemma_lookup_finds(entries: Seq<(Seq<char>, Tree)>, i: int)
    requires
        distinct_entries(entries),
        0 <= i < entries.len(),
    ensures
        lookup(entries, entries[i].0) == Some(entries[i].1),
    decreases entries.len(),
{
    if i > 0 {
        let rest = entries.drop_first();
        assert(entries[0].0 != entries[i].0);
        assert forall|a: int, b: int| 0 <= a < b < rest.len() implies (#[trigger] rest[a]).0 != (
        #[trigger] rest[b]).0 by {
            assert(entries[a + 1].0 != entries[b + 1].0);
        }
        assert(rest[i - 1] == entries[i]);
        lemma_lookup_finds(rest, i - 1);
    }
}

/// Where no entry has the name, none is found.
pub proof fn lemma_lookup_misses(entries: Seq<(Seq<char>, Tree)>, name: Seq<char>)
    requires
        forall|i: int| 0 <= i < entries.len() ==> (#[trigger] entries[i]).0 != name,
    ensures
        lookup(entries, name) is None,
    decreases entries.len(),
{
    if entries.len() > 0 {
        assert(entries[0].0 != name);
        let rest = entries.drop_first();
        assert forall|i: int| 0 <= i < rest.len() implies (#[trigger] rest[i]).0 != name by {
            assert(entries[i + 1].0 != name);
        }
        lemma_lookup_misses(rest, name);
    }
}

/// What a list of texts denotes.
pub open spec fn text_trees(items: Seq<Seq<char>>) -> Tree {
    Tree::List(items.map_values(|text: Seq<char>| Tree::Text(text)))
}

/// Read as texts, a list of texts gives the texts.
pub proof fn lemma_text_trees(items: Seq<Seq<char>>)
    ensures
        text_trees(items).as_texts() == Some(items),
{
    assert(text_trees(items)->List_0.map_values(|item: Tree| item->Text_0) =~= items);
}

/// A list of texts.
pub fn text_list(items: &Vec<String>) -> (r: Document)
    ensures
        r@ == text_trees(texts(items@)),
{
    let mut out: Vec<Document> = Vec::new();
    let mut i: usize = 0;
    while i < items.len()
        invariant
            i <= items@.len(),
            out@.len() == i,
            forall|j: int| 0 <= j < i ==> (#[trigger] out@[j]).tree() == Tree::Text(items@[j]@),
        decreases items@.len() - i,
    {
        out.push(Document::Text(items[i].as_str().to_owned()));
        i += 1;
    }
    let r = Document::List(out);
    assert(r@->List_0 =~= texts(items@).map_values(|text: Seq<char>| Tree::Text(text)));
    r
}

fn all_names_differ(entries: &Vec<(String, Document)>) -> (r: bool)
    ensures
        r == distinct_entries(entry_trees(entries@)),
{
    let ghost trees = entry_trees(entries@);
    let mut i: usize = 0;
    while i < entries.len()
        invariant
            i <= entries@.len(),
            trees == entry_trees(entries@),
            forall|a: int, b: int|
                0 <= a < b < i ==> (#[trigger] trees[a]).0 != (#[trigger] trees[b]).0,
        decreases entries@.len() - i,
    {
        let mut j: usize = 0;
        while j < i
            invariant
                j <= i < entries@.len(),
                trees == entry_trees(entries@),
                forall|a: int| 0 <= a < j ==> (#[trigger] trees[a]).0 != trees[i as int].0,
            decreases i - j,
        {
            if str_equal(entries[j].0.as_str(), entries[i].0.as_str()) {
                assert(trees[j as int].0 == trees[i as int].0);
                return false;
            }
            j += 1;
        }
        i += 1;
    }
    true
}

impl Document {
    /// Whether the document has a notation.
    pub fn can_write(&self) -> (r: bool)
        ensures
            r == self@.has_notation(),
        decreases self,
    {
        match self {
            Document::Null => true,
            Document::Bool(_) => true,
            Document::Text(_) => true,
            Document::Integer(value) => *value >= -9_223_372_036_854_775_808 && *value
                <= 18_446_744_073_709_551_615,
            Document::List(items) => {
                let ghost trees = self@->List_0;
                let mut i: usize = 0;
                while i < items.len()
                    invariant
                        i <= items@.len(),
                        self == Document::List(*items),
                        trees == self@->List_0,
                        forall|j: int|
                            0 <= j < i ==> (#[trigger] trees[j]).has_notation(),
                    decreases items@.len() - i,
                {
                    assert(trees[i as int] == items@[i as int]@);
                    if !items[i].can_write() {
                        return false;
                    }
                    i += 1;
                }
                true
            },
            Document::Table(entries) => {
                let ghost trees = self@->Table_0;
                assert(trees =~= entry_trees(entries@));
                if !all_names_differ(entries) {
                    return false;
                }
                let mut i: usize = 0;
                while i < entries.len()
                    invariant
                        i <= entries@.len(),
                        self == Document::Table(*entries),
                        trees == self@->Table_0,
                        distinct_entries(trees),
                        forall|j: int|
                            0 <= j < i ==> (#[trigger] trees[j]).1.has_notation(),
                    decreases entries@.len() - i,
                {
                    assert(trees[i as int].1 == entries@[i as int].1@);
                    if !entries[i].1.can_write() {
                        return false;
                    }
                    i += 1;
                }
                true
            },
            Document::Decimal(number) => fractional(write_number(number).as_str()),
            Document::Other => false,
        }
    }

    /// A copy of the document.
    pub fn duplicate(&self) -> (r: Document)
        ensures
            r@ == self@,
        decreases self,
    {
        match self {
            Document::Null => Document::Null,
            Document::Bool(value) => Document::Bool(*value),
            Document::Integer(value) => Document::Integer(*value),
            Document::Text(value) => Document::Text(value.as_str().to_owned()),
            Document::List(items) => {
                let mut out: Vec<Document> = Vec::new();
                let mut i: usize = 0;
                while i < items.len()
                    invariant
                        i <= items@.len(),
                        self == Document::List(*items),
                        out@.len() == i,
                        forall|j: int| 0 <= j < i ==> (#[trigger] out@[j])@ == items@[j]@,
                    decreases items@.len() - i,
                {
                    assert(decreases_to!(*self => self->List_0));
                    out.push(items[i].duplicate());
                    i += 1;
                }
                let r = Document::List(out);
                assert(r@->List_0 =~= self@->List_0);
                r
            },
            Document::Table(entries) => {
                let mut out: Vec<(String, Document)> = Vec::new();
                let mut i: usize = 0;
                while i < entries.len()
                    invariant
                        i <= entries@.len(),
                        self == Document::Table(*entries),
                        out@.len() == i,
                        forall|j: int|
                            0 <= j < i ==> (#[trigger] out@[j]).0@ == entries@[j].0@ && out@[j].1@
                                == entries@[j].1@,
                    decreases entries@.len() - i,
                {
                    assert(decreases_to!(*self => self->Table_0));
                    out.push((entries[i].0.as_str().to_owned(), entries[i].1.duplicate()));
                    i += 1;
                }
                let r = Document::Table(out);
                assert(r@->Table_0 =~= self@->Table_0);
                r
            },
            Document::Decimal(number) => Document::Decimal(copy_number(number)),
            Document::Other => Document::Other,
        }
    }

    /// Whether two documents have the same contents, whatever the order of the fields of
    /// their tables.
    pub fn matches_contents(&self, other: &Document) -> (r: bool)
        ensures
            r == self@.same_contents(other@),
        decreases self,
    {
        match (self, other) {
            (Document::Null, Document::Null) => true,
            (Document::Bool(a), Document::Bool(b)) => *a == *b,
            (Document::Integer(a), Document::Integer(b)) => *a == *b,
            (Document::Text(a), Document::Text(b)) => str_equal(a.as_str(), b.as_str()),
            (Document::List(items), Document::List(others)) => {
                if items.len() != others.len() {
                    return false;
                }
                let mut i: usize = 0;
                while i < items.len()
                    invariant
                        i <= items@.len(),
                        items@.len() == others@.len(),
                        self == Document::List(*items),
                        other == Document::List(*others),
                        forall|j: int|
                            0 <= j < i ==> (#[trigger] self@->List_0[j]).same_contents(
                                other@->List_0[j],
                            ),
                    decreases items@.len() - i,
                {
                    assert(decreases_to!(*self => self->List_0));
                    assert(self@->List_0[i as int] == items@[i as int]@);
                    assert(other@->List_0[i as int] == others@[i as int]@);
                    if !items[i].matches_contents(&others[i]) {
                        return false;
                    }
                    i += 1;
                }
                true
            },
            (Document::Table(entries), Document::Table(others)) => {
                if entries.len() != others.len() {
                    return false;
                }
                let mut i: usize = 0;
                while i < entries.len()
                    invariant
                        i <= entries@.len(),
                        entries@.len() == others@.len(),
                        self == Document::Table(*entries),
                        other == Document::Table(*others),
                        forall|j: int|
                            0 <= j < i ==> (lookup(
                                other@->Table_0,
                                (#[trigger] self@->Table_0[j]).0,
                            ) is Some && self@->Table_0[j].1.same_contents(
                                lookup(other@->Table_0, self@->Table_0[j].0)->Some_0,
                            )),
                    decreases entries@.len() - i,
                {
                    assert(decreases_to!(*self => self->Table_0));
                    assert(self@->Table_0[i as int] == (
                        entries@[i as int].0@,
                        entries@[i as int].1@,
                    ));
                    match other.get(entries[i].0.as_str()) {
                        Some(found) => {
                            if !entries[i].1.matches_contents(found) {
                                return false;
                            }
                        },
                        None => {
                            return false;
                        },
                    }
                    i += 1;
                }
                true
            },
            (Document::Decimal(a), Document::Decimal(b)) => str_equal(
                write_number(a).as_str(),
                write_number(b).as_str(),
            ),
            (Document::Other, Document::Other) => true,
            (_, _) => false,
        }
    }
}

} // verus!
