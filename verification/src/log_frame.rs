//! The headers in a step's log.

use crate::document::{Document, Fields};
#[allow(unused_imports)]
use crate::document::{
    distinct_entries, lemma_lookup_finds, lemma_table_writable, lemma_writable_deeper, list_bound,
    names_of, record, table_bound, Tree,
};
use crate::outside::{json_value, write_json};
#[allow(unused_imports)]
use crate::outside::{json_parsed, json_written};
use crate::runner::LogStream;
use vstd::prelude::*;

verus! {

/// A moment in the proleptic Gregorian calendar, with its offset from UTC.
#[derive(Clone, Copy, Debug, PartialEq, Eq, Structural)]
pub struct WallTime {
    pub year: i32,
    pub ordinal: u16,
    pub hour: u8,
    pub minute: u8,
    pub second: u8,
    pub nanosecond: u32,
    pub offset_hours: i8,
    pub offset_minutes: i8,
    pub offset_seconds: i8,
}

/// The year has a 29th of February.
pub open spec fn is_leap_year(year: int) -> bool {
    year % 4 == 0 && (year % 100 != 0 || year % 400 == 0)
}

pub open spec fn days_in_year(year: int) -> int {
    if is_leap_year(year) {
        366
    } else {
        365
    }
}

/// The numbers of a moment, in the order in which they are written.
pub open spec fn is_moment(n: Seq<int>) -> bool {
    &&& n.len() == 9
    &&& -9999 <= n[0] <= 9999
    &&& 1 <= n[1] <= days_in_year(n[0])
    &&& 0 <= n[2] <= 23
    &&& 0 <= n[3] <= 59
    &&& 0 <= n[4] <= 59
    &&& 0 <= n[5] <= 999_999_999
    &&& -25 <= n[6] <= 25
    &&& -59 <= n[7] <= 59
    &&& -59 <= n[8] <= 59
}

/// The numbers of a moment with the minutes and the seconds of its offset on the same side
/// of UTC as what stands before them.
pub open spec fn aligned(n: Seq<int>) -> Seq<int> {
    let minutes = if (n[6] > 0 && n[7] < 0) || (n[6] < 0 && n[7] > 0) {
        -n[7]
    } else {
        n[7]
    };
    let seconds = if (n[6] > 0 && n[8] < 0) || (n[6] < 0 && n[8] > 0) || (minutes > 0 && n[8]
        < 0) || (minutes < 0 && n[8] > 0) {
        -n[8]
    } else {
        n[8]
    };
    n.update(7, minutes).update(8, seconds)
}

/// The moment that a list of numbers stands for.
pub open spec fn moment_of(t: Tree) -> Option<Seq<int>> {
    match numbers_of(t) {
        Some(n) => if is_moment(n) {
            Some(aligned(n))
        } else {
            None
        },
        None => None,
    }
}

impl WallTime {
    /// The numbers of the moment: year, day of the year, hour, minute, second,
    /// nanosecond, and the hours, minutes and seconds of the offset.
    pub open spec fn numbers(self) -> Seq<int> {
        seq![
            self.year as int,
            self.ordinal as int,
            self.hour as int,
            self.minute as int,
            self.second as int,
            self.nanosecond as int,
            self.offset_hours as int,
            self.offset_minutes as int,
            self.offset_seconds as int,
        ]
    }

    /// There is such a moment, and all of its offset is on one side of UTC.
    pub open spec fn wf(self) -> bool {
        is_moment(self.numbers()) && aligned(self.numbers()) == self.numbers()
    }

    /// What the moment is written as.
    pub open spec fn tree(self) -> Tree {
        Tree::List(self.numbers().map_values(|n: int| Tree::Integer(n)))
    }

    pub fn to_document(&self) -> (r: Document)
        ensures
            r@ == self.tree(),
    {
        let mut items: Vec<Document> = Vec::new();
        items.push(Document::Integer(self.year as i128));
        items.push(Document::Integer(self.ordinal as i128));
        items.push(Document::Integer(self.hour as i128));
        items.push(Document::Integer(self.minute as i128));
        items.push(Document::Integer(self.second as i128));
        items.push(Document::Integer(self.nanosecond as i128));
        items.push(Document::Integer(self.offset_hours as i128));
        items.push(Document::Integer(self.offset_minutes as i128));
        items.push(Document::Integer(self.offset_seconds as i128));
        let ghost n = self.numbers();
        proof {
            assert(items@.len() == 9 && n.len() == 9);
            assert(items@[0].tree() == Tree::Integer(n[0]));
            assert(items@[1].tree() == Tree::Integer(n[1]));
            assert(items@[2].tree() == Tree::Integer(n[2]));
            assert(items@[3].tree() == Tree::Integer(n[3]));
            assert(items@[4].tree() == Tree::Integer(n[4]));
            assert(items@[5].tree() == Tree::Integer(n[5]));
            assert(items@[6].tree() == Tree::Integer(n[6]));
            assert(items@[7].tree() == Tree::Integer(n[7]));
            assert(items@[8].tree() == Tree::Integer(n[8]));
        }
        let r = Document::List(items);
        assert(r@->List_0 =~= self.tree()->List_0);
        r
    }

    /// Reads a moment.
    pub fn read(document: &Document) -> (r: Option<WallTime>)
        ensures
            r is Some <==> moment_of(document@) is Some,
            r matches Some(time) ==> time.wf() && moment_of(document@) == Some(time.numbers()),
    {
        let items = match document {
            Document::List(items) => items,
            _ => {
                return None;
            },
        };
        let ghost trees = document@->List_0;
        let mut numbers: Vec<i128> = Vec::new();
        let mut i: usize = 0;
        while i < items.len()
            invariant
                i <= items@.len() == trees.len(),
                trees == document@->List_0,
                document@ is List,
                forall|j: int| 0 <= j < items@.len() ==> #[trigger] trees[j] == items@[j].tree(),
                numbers@.len() == i,
                forall|j: int| 0 <= j < i ==> #[trigger] trees[j] == Tree::Integer(
                    numbers@[j] as int,
                ),
            decreases items@.len() - i,
        {
            assert(trees[i as int] == items@[i as int].tree());
            match &items[i] {
                Document::Integer(number) => numbers.push(*number),
                _ => {
                    assert(!(trees[i as int] is Integer));
                    return None;
                },
            }
            i += 1;
        }
        let ghost found = trees.map_values(|item: Tree| item->Integer_0);
        proof {
            assert(numbers_of(document@) == Some(found));
            assert(found.len() == numbers@.len());
            assert forall|j: int| 0 <= j < found.len() implies #[trigger] found[j]
                == numbers@[j] as int by {
                assert(trees[j] == Tree::Integer(numbers@[j] as int));
            }
        }
        if numbers.len() != 9 {
            return None;
        }
        let year: i128 = numbers[0];
        if year < -9999 || year > 9999 {
            return None;
        }
        let shifted: u32 = (year + 10_000) as u32;
        proof {
            assert(shifted as int % 4 == year as int % 4);
            assert(shifted as int % 100 == year as int % 100);
            assert(shifted as int % 400 == year as int % 400);
        }
        let leap = shifted % 4 == 0 && (shifted % 100 != 0 || shifted % 400 == 0);
        let days: i128 = if leap {
            366
        } else {
            365
        };
        if numbers[1] < 1 || numbers[1] > days || numbers[2] < 0 || numbers[2] > 23 || numbers[3]
            < 0 || numbers[3] > 59 || numbers[4] < 0 || numbers[4] > 59 || numbers[5] < 0
            || numbers[5] > 999_999_999 || numbers[6] < -25 || numbers[6] > 25 || numbers[7] < -59
            || numbers[7] > 59 || numbers[8] < -59 || numbers[8] > 59 {
            return None;
        }
        let hours: i128 = numbers[6];
        let minutes: i128 = if (hours > 0 && numbers[7] < 0) || (hours < 0 && numbers[7] > 0) {
            -numbers[7]
        } else {
            numbers[7]
        };
        let seconds: i128 = if (hours > 0 && numbers[8] < 0) || (hours < 0 && numbers[8] > 0) || (
        minutes > 0 && numbers[8] < 0) || (minutes < 0 && numbers[8] > 0) {
            -numbers[8]
        } else {
            numbers[8]
        };
        let time = WallTime {
            year: year as i32,
            ordinal: numbers[1] as u16,
            hour: numbers[2] as u8,
            minute: numbers[3] as u8,
            second: numbers[4] as u8,
            nanosecond: numbers[5] as u32,
            offset_hours: hours as i8,
            offset_minutes: minutes as i8,
            offset_seconds: seconds as i8,
        };
        assert(time.numbers() =~= aligned(found));
        assert(aligned(time.numbers()) =~= time.numbers());
        Some(time)
    }
}

/// The whole numbers in a list of nothing else.
pub open spec fn numbers_of(t: Tree) -> Option<Seq<int>> {
    match t {
        Tree::List(items) => if all_integers(items) {
            Some(items.map_values(|item: Tree| item->Integer_0))
        } else {
            None
        },
        _ => None,
    }
}

pub open spec fn all_integers(items: Seq<Tree>) -> bool {
    forall|i: int| 0 <= i < items.len() ==> #[trigger] items[i] is Integer
}

/// The header of a piece of output in a log.
#[derive(Clone, Copy, Debug, PartialEq, Eq, Structural)]
pub struct LogFrame {
    pub stream: LogStream,
    pub stream_offset: u64,
    pub broker_sequence: u64,
    pub monotonic_ns: u64,
    pub wall_time: WallTime,
    pub payload_len: u32,
}

/// The moment in a header.
pub open spec fn moment_field(t: Tree) -> Option<Seq<int>> {
    match t.field("wall_time"@) {
        Some(value) => moment_of(value),
        None => None,
    }
}

/// The stream in a header.
pub open spec fn stream_field(t: Tree) -> Option<LogStream> {
    match t.variant_field("stream"@, None) {
        Some(text) => LogStream::named(text),
        None => None,
    }
}

/// The fields of a header, in order.
pub open spec fn frame_order() -> Seq<Seq<char>> {
    seq![
        "stream"@,
        "stream_offset"@,
        "broker_sequence"@,
        "monotonic_ns"@,
        "wall_time"@,
        "payload_len"@,
    ]
}

/// The document can be read as a header.
pub open spec fn frame_readable(t: Tree) -> bool {
    let t = record(t, frame_order(), 6, true);
    &&& stream_field(t) is Some
    &&& t.number_field("stream_offset"@, None::<nat>, u64::MAX as nat) is Some
    &&& t.number_field("broker_sequence"@, None::<nat>, u64::MAX as nat) is Some
    &&& t.number_field("monotonic_ns"@, None::<nat>, u64::MAX as nat) is Some
    &&& moment_field(t) is Some
    &&& t.number_field("payload_len"@, None::<nat>, u32::MAX as nat) is Some
}

/// Read as a header, the document gives this one.
pub open spec fn frame_reads(t: Tree, frame: LogFrame) -> bool {
    let t = record(t, frame_order(), 6, true);
    &&& stream_field(t) == Some(frame.stream)
    &&& t.number_field("stream_offset"@, None::<nat>, u64::MAX as nat) == Some(
        frame.stream_offset as nat,
    )
    &&& t.number_field("broker_sequence"@, None::<nat>, u64::MAX as nat) == Some(
        frame.broker_sequence as nat,
    )
    &&& t.number_field("monotonic_ns"@, None::<nat>, u64::MAX as nat) == Some(
        frame.monotonic_ns as nat,
    )
    &&& moment_field(t) == Some(frame.wall_time.numbers())
    &&& t.number_field("payload_len"@, None::<nat>, u32::MAX as nat) == Some(
        frame.payload_len as nat,
    )
}

/// A document is read as one header only.
pub proof fn lemma_frame_unique(t: Tree, a: LogFrame, b: LogFrame)
    requires
        frame_reads(t, a),
        frame_reads(t, b),
    ensures
        a == b,
{
    let x = a.wall_time.numbers();
    let y = b.wall_time.numbers();
    assert(x == y);
    assert(x[0] == y[0] && x[1] == y[1] && x[2] == y[2] && x[3] == y[3] && x[4] == y[4] && x[5]
        == y[5] && x[6] == y[6] && x[7] == y[7] && x[8] == y[8]);
}

proof fn lemma_header_names()
    ensures
        "stream"@.len() == 6,
        "stream_offset"@.len() == 13,
        "broker_sequence"@.len() == 15,
        "monotonic_ns"@.len() == 12,
        "wall_time"@.len() == 9,
        "payload_len"@.len() == 11,
        "stdout"@.len() == 6,
        "stderr"@.len() == 6,
        "stdout"@ != "stderr"@,
{
    reveal_strlit("stream");
    reveal_strlit("stream_offset");
    reveal_strlit("broker_sequence");
    reveal_strlit("monotonic_ns");
    reveal_strlit("wall_time");
    reveal_strlit("payload_len");
    reveal_strlit("stdout");
    reveal_strlit("stderr");
    assert("stdout"@[3] != "stderr"@[3]);
}

impl LogFrame {
    /// The entries of the header, in order.
    pub open spec fn entries(self) -> Seq<(Seq<char>, Tree)> {
        seq![
            ("stream"@, Tree::Text(self.stream.wire_name())),
            ("stream_offset"@, Tree::Integer(self.stream_offset as int)),
            ("broker_sequence"@, Tree::Integer(self.broker_sequence as int)),
            ("monotonic_ns"@, Tree::Integer(self.monotonic_ns as int)),
            ("wall_time"@, self.wall_time.tree()),
            ("payload_len"@, Tree::Integer(self.payload_len as int)),
        ]
    }

    /// What the header is written as.
    pub open spec fn tree(self) -> Tree {
        Tree::Table(self.entries())
    }

    /// Writes the header as JSON. What is written reads back as the header.
    pub fn to_json(&self) -> (r: Vec<u8>)
        requires
            self.wall_time.wf(),
        ensures
            r@ == json_written(self.tree()),
            json_parsed(r@) == Some(self.tree()),
            frame_reads(self.tree(), *self),
            r@.len() <= 4096,
    {
        let mut fields = Fields::new();
        fields.put("stream", Document::Text(self.stream.as_str().to_owned()));
        fields.put("stream_offset", Document::Integer(self.stream_offset as i128));
        fields.put("broker_sequence", Document::Integer(self.broker_sequence as i128));
        fields.put("monotonic_ns", Document::Integer(self.monotonic_ns as i128));
        fields.put("wall_time", self.wall_time.to_document());
        fields.put("payload_len", Document::Integer(self.payload_len as i128));
        proof {
            let entries = fields@;
            assert(entries =~= self.entries());
            lemma_header_names();
            assert(distinct_entries(entries));
            lemma_lookup_finds(entries, 0);
            lemma_lookup_finds(entries, 1);
            lemma_lookup_finds(entries, 2);
            lemma_lookup_finds(entries, 3);
            lemma_lookup_finds(entries, 4);
            lemma_lookup_finds(entries, 5);
            let moment = self.wall_time.tree();
            let items = moment->List_0;
            let n = self.wall_time.numbers();
            assert(items.map_values(|item: Tree| item->Integer_0) =~= n);
            assert(all_integers(items));
            assert forall|i: int| 0 <= i < items.len() implies (#[trigger] items[i]).writable(6) by {
                assert(items[i] == Tree::Integer(n[i]));
            }
            assert(moment.writable(7));
            assert(entries[0].1.writable(7));
            assert(entries[1].1.writable(7));
            assert(entries[2].1.writable(7));
            assert(entries[3].1.writable(7));
            assert(entries[4].1.writable(7));
            assert(entries[5].1.writable(7));
            lemma_table_writable(entries, 7);
            lemma_writable_deeper(self.tree(), 8, 127);
            lemma_list_of_numbers(items);
            reveal_with_fuel(table_bound, 7);
            assert(entries.drop_last().len() == 5);
            assert(entries[5].1.size_bound() == 20);
            assert(moment.size_bound() == 2 + list_bound(items));
            lemma_small_table(entries);
        }
        let document = fields.build();
        write_json(&json_value(&document))
    }

    /// Reads a header. Fields that nobody knows are passed over.
    pub fn read(document: &Document) -> (r: Option<LogFrame>)
        ensures
            r is Some <==> frame_readable(document@),
            r matches Some(frame) ==> frame_reads(document@, frame),
    {
        let names = [
            "stream",
            "stream_offset",
            "broker_sequence",
            "monotonic_ns",
            "wall_time",
            "payload_len",
        ];
        assert(names_of(names@) =~= frame_order());
        let table = document.as_record(&names, 6, true);
        let document = match &table {
            Some(table) => table,
            None => document,
        };
        let stream = match document.variant_field("stream", None) {
            Some(text) => match LogStream::parse(text.as_str()) {
                Some(stream) => stream,
                None => {
                    return None;
                },
            },
            None => {
                return None;
            },
        };
        let stream_offset: u64 = match document.number_field("stream_offset", None, u64::MAX) {
            Some(value) => value,
            None => {
                return None;
            },
        };
        let broker_sequence: u64 = match document.number_field("broker_sequence", None, u64::MAX) {
            Some(value) => value,
            None => {
                return None;
            },
        };
        let monotonic_ns: u64 = match document.number_field("monotonic_ns", None, u64::MAX) {
            Some(value) => value,
            None => {
                return None;
            },
        };
        let wall_time = match document.get("wall_time") {
            Some(value) => match WallTime::read(value) {
                Some(time) => time,
                None => {
                    return None;
                },
            },
            None => {
                return None;
            },
        };
        let payload_len: u64 = match document.number_field("payload_len", None, u32::MAX as u64) {
            Some(value) => value,
            None => {
                return None;
            },
        };
        Some(
            LogFrame {
                stream,
                stream_offset,
                broker_sequence,
                monotonic_ns,
                wall_time,
                payload_len: payload_len as u32,
            },
        )
    }
}

proof fn lemma_list_of_numbers(items: Seq<Tree>)
    requires
        all_integers(items),
    ensures
        list_bound(items) == 21 * items.len(),
    decreases items.len(),
{
    if items.len() > 0 {
        let rest = items.drop_last();
        assert forall|i: int| 0 <= i < rest.len() implies #[trigger] rest[i] is Integer by {
            assert(rest[i] == items[i]);
        }
        lemma_list_of_numbers(rest);
        assert(items[items.len() - 1] is Integer);
        assert(items[items.len() - 1].size_bound() == 20);
        assert(list_bound(items) == list_bound(rest) + items[items.len() - 1].size_bound() + 1);
    }
}

proof fn lemma_small_table(entries: Seq<(Seq<char>, Tree)>)
    requires
        entries.len() <= 6,
        forall|i: int|
            0 <= i < entries.len() ==> (#[trigger] entries[i]).0.len() <= 15
                && entries[i].1.size_bound() <= 191,
    ensures
        table_bound(entries) <= 285 * entries.len(),
    decreases entries.len(),
{
    if entries.len() > 0 {
        let rest = entries.drop_last();
        assert forall|i: int| 0 <= i < rest.len() implies (#[trigger] rest[i]).0.len() <= 15
            && rest[i].1.size_bound() <= 191 by {
            assert(rest[i] == entries[i]);
        }
        lemma_small_table(rest);
    }
}

} // verus!
