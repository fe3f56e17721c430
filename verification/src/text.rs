//! Text and byte helpers shared by the whole crate: equality, ordering by UTF-8
//! bytes, decimal rendering, and sorted sets of strings.

use vstd::prelude::*;
use vstd::utf8::encode_utf8;

verus! {

/// The contents of each string of a sequence.
pub open spec fn texts(items: Seq<String>) -> Seq<Seq<char>> {
    items.map_values(|item: String| item@)
}

/// Whether the byte sequence `a` comes strictly before `b` in lexicographic order.
pub open spec fn bytes_before(a: Seq<u8>, b: Seq<u8>) -> bool {
    exists|k: int| #[trigger] first_difference(a, b, k)
}

/// Position `k` is the first one at which `a` is exhausted or smaller than `b`.
pub open spec fn first_difference(a: Seq<u8>, b: Seq<u8>, k: int) -> bool {
    &&& 0 <= k <= a.len()
    &&& k < b.len()
    &&& forall|i: int| 0 <= i < k ==> a[i] == b[i]
    &&& k == a.len() || a[k] < b[k]
}

/// Text ordering: the order of the UTF-8 encodings.
pub open spec fn text_before(a: Seq<char>, b: Seq<char>) -> bool {
    bytes_before(encode_utf8(a), encode_utf8(b))
}

/// No text comes before itself.
pub proof fn lemma_bytes_before_irreflexive(a: Seq<u8>)
    ensures
        !bytes_before(a, a),
{
}

/// The order on byte sequences is transitive.
pub proof fn lemma_bytes_before_transitive(a: Seq<u8>, b: Seq<u8>, c: Seq<u8>)
    requires
        bytes_before(a, b),
        bytes_before(b, c),
    ensures
        bytes_before(a, c),
{
    let k = choose|k: int| first_difference(a, b, k);
    let l = choose|l: int| first_difference(b, c, l);
    if k < l {
        assert(first_difference(a, c, k));
    } else {
        assert(first_difference(a, c, l));
    }
}

/// Equal UTF-8 encodings come from equal texts.
pub proof fn lemma_utf8_injective(a: Seq<char>, b: Seq<char>)
    requires
        encode_utf8(a) == encode_utf8(b),
    ensures
        a == b,
{
    vstd::utf8::encode_utf8_decode_utf8(a);
    vstd::utf8::encode_utf8_decode_utf8(b);
}

/// Compares two byte slices.
pub fn bytes_equal(a: &[u8], b: &[u8]) -> (r: bool)
    ensures
        r == (a@ == b@),
{
    if a.len() != b.len() {
        return false;
    }
    let mut i: usize = 0;
    while i < a.len()
        invariant
            i <= a.len(),
            a.len() == b.len(),
            forall|j: int| 0 <= j < i ==> a@[j] == b@[j],
        decreases a.len() - i,
    {
        if a[i] != b[i] {
            return false;
        }
        i += 1;
    }
    assert(a@ =~= b@);
    true
}

/// Compares two texts.
pub fn str_equal(a: &str, b: &str) -> (r: bool)
    ensures
        r == (a@ == b@),
{
    let r = bytes_equal(a.as_bytes(), b.as_bytes());
    proof {
        if encode_utf8(a@) == encode_utf8(b@) {
            lemma_utf8_injective(a@, b@);
        }
    }
    r
}

/// How two texts relate in the order of their UTF-8 bytes.
#[derive(Clone, Copy, Debug, PartialEq, Eq, Structural)]
pub enum TextOrder {
    Before,
    Same,
    After,
}

/// Orders two byte slices.
pub fn order_bytes(a: &[u8], b: &[u8]) -> (r: TextOrder)
    ensures
        r == TextOrder::Same <==> a@ == b@,
        r == TextOrder::Before <==> bytes_before(a@, b@),
        r == TextOrder::After <==> bytes_before(b@, a@),
{
    let mut i: usize = 0;
    while i < a.len() && i < b.len()
        invariant
            i <= a.len(),
            i <= b.len(),
            forall|j: int| 0 <= j < i ==> a@[j] == b@[j],
        decreases a.len() - i,
    {
        if a[i] < b[i] {
            assert(first_difference(a@, b@, i as int));
            return TextOrder::Before;
        }
        if a[i] > b[i] {
            assert(first_difference(b@, a@, i as int));
            return TextOrder::After;
        }
        i += 1;
    }
    if a.len() < b.len() {
        assert(first_difference(a@, b@, i as int));
        TextOrder::Before
    } else if b.len() < a.len() {
        assert(first_difference(b@, a@, i as int));
        TextOrder::After
    } else {
        assert(a@ =~= b@);
        TextOrder::Same
    }
}

/// Orders two texts by their UTF-8 bytes.
pub fn order_str(a: &str, b: &str) -> (r: TextOrder)
    ensures
        r == TextOrder::Same <==> a@ == b@,
        r == TextOrder::Before <==> text_before(a@, b@),
        r == TextOrder::After <==> text_before(b@, a@),
{
    let r = order_bytes(a.as_bytes(), b.as_bytes());
    proof {
        if encode_utf8(a@) == encode_utf8(b@) {
            lemma_utf8_injective(a@, b@);
        }
    }
    r
}

/// Whether the text occurs in the list.
pub fn contains_text(items: &Vec<String>, text: &str) -> (r: bool)
    ensures
        r == texts(items@).contains(text@),
{
    let mut i: usize = 0;
    while i < items.len()
        invariant
            i <= items.len(),
            forall|j: int| 0 <= j < i ==> items@[j]@ != text@,
        decreases items.len() - i,
    {
        if str_equal(items[i].as_str(), text) {
            assert(texts(items@)[i as int] == text@);
            return true;
        }
        i += 1;
    }
    assert(forall|j: int| 0 <= j < items@.len() ==> #[trigger] texts(items@)[j] == items@[j]@);
    false
}

/// Strictly ascending in text order, and so without duplicates.
pub open spec fn ascending(items: Seq<Seq<char>>) -> bool {
    forall|i: int, j: int| 0 <= i < j < items.len() ==> #[trigger] text_before(items[i], items[j])
}

/// Two lists that ascend and hold the same texts end alike.
proof fn lemma_same_last(a: Seq<Seq<char>>, b: Seq<Seq<char>>)
    requires
        ascending(a),
        ascending(b),
        a.len() > 0,
        b.len() > 0,
        a.to_set() == b.to_set(),
    ensures
        a.last() == b.last(),
{
    assert(a.to_set().contains(a.last()));
    assert(b.to_set().contains(b.last()));
    let j = choose|j: int| 0 <= j < b.len() && b[j] == a.last();
    let i = choose|i: int| 0 <= i < a.len() && a[i] == b.last();
    if a.last() != b.last() {
        assert(text_before(b[j], b[b.len() - 1]));
        assert(text_before(a[i], a[a.len() - 1]));
        lemma_bytes_before_transitive(
            encode_utf8(a.last()),
            encode_utf8(b.last()),
            encode_utf8(a.last()),
        );
        lemma_bytes_before_irreflexive(encode_utf8(a.last()));
    }
}

/// The texts before the last one of a list that ascends are all but the last one.
proof fn lemma_drop_last_set(a: Seq<Seq<char>>)
    requires
        ascending(a),
        a.len() > 0,
    ensures
        ascending(a.drop_last()),
        a.drop_last().to_set() == a.to_set().remove(a.last()),
{
    assert forall|i: int, j: int| 0 <= i < j < a.drop_last().len() implies #[trigger] text_before(
        a.drop_last()[i],
        a.drop_last()[j],
    ) by {
        assert(text_before(a[i], a[j]));
    }
    assert forall|text: Seq<char>| a.drop_last().to_set().contains(text) == a.to_set().remove(
        a.last(),
    ).contains(text) by {
        if a.drop_last().contains(text) {
            let i = choose|i: int| 0 <= i < a.drop_last().len() && a.drop_last()[i] == text;
            assert(a[i] == text);
            assert(text_before(a[i], a[a.len() - 1]));
            lemma_bytes_before_irreflexive(encode_utf8(text));
        }
        if a.contains(text) && text != a.last() {
            let i = choose|i: int| 0 <= i < a.len() && a[i] == text;
            assert(a.drop_last()[i] == text);
        }
    }
    assert(a.drop_last().to_set() =~= a.to_set().remove(a.last()));
}

/// There is one way only to list texts so that they ascend.
pub proof fn lemma_ascending_unique(a: Seq<Seq<char>>, b: Seq<Seq<char>>)
    requires
        ascending(a),
        ascending(b),
        a.to_set() == b.to_set(),
    ensures
        a == b,
    decreases a.len(),
{
    if a.len() == 0 {
        if b.len() > 0 {
            assert(b.to_set().contains(b[0]));
            assert(a.contains(b[0]));
        }
        assert(a =~= b);
    } else if b.len() == 0 {
        assert(a.to_set().contains(a[0]));
        assert(b.contains(a[0]));
    } else {
        lemma_same_last(a, b);
        lemma_drop_last_set(a);
        lemma_drop_last_set(b);
        lemma_ascending_unique(a.drop_last(), b.drop_last());
        assert(a =~= a.drop_last().push(a.last()));
        assert(b =~= b.drop_last().push(b.last()));
    }
}

/// Copies a list of strings.
pub fn clone_texts(items: &Vec<String>) -> (r: Vec<String>)
    ensures
        r@ == items@,
{
    let mut out: Vec<String> = Vec::new();
    let mut i: usize = 0;
    while i < items.len()
        invariant
            i <= items.len(),
            out@ == items@.take(i as int),
        decreases items.len() - i,
    {
        out.push(items[i].clone());
        i += 1;
        assert(items@.take(i as int) =~= items@.take(i - 1).push(items@[i - 1]));
    }
    assert(items@.take(items@.len() as int) =~= items@);
    out
}

/// Inserts a text into an ascending list, keeping it ascending and free of duplicates.
pub fn insert_text(items: &mut Vec<String>, text: &str)
    requires
        ascending(texts(old(items)@)),
    ensures
        ascending(texts(final(items)@)),
        texts(final(items)@).to_set() == texts(old(items)@).to_set().insert(text@),
{
    let ghost before = texts(items@);
    let mut at: usize = 0;
    while at < items.len()
        invariant
            at <= items.len(),
            before == texts(items@),
            items@ == old(items)@,
            ascending(before),
            forall|j: int| 0 <= j < at ==> text_before(#[trigger] before[j], text@),
        ensures
            at < items.len() ==> text_before(text@, before[at as int]),
        decreases items.len() - at,
    {
        match order_str(items[at].as_str(), text) {
            TextOrder::Before => {
                assert(before[at as int] == items@[at as int]@);
            },
            TextOrder::Same => {
                proof {
                    assert(before[at as int] == text@);
                    assert(before.to_set().contains(text@));
                    assert(before.to_set().insert(text@) =~= before.to_set());
                }
                return;
            },
            TextOrder::After => {
                assert(before[at as int] == items@[at as int]@);
                break;
            },
        }
        at += 1;
    }
    let owned = text.to_owned();
    let ghost here = at as int;
    items.insert(at, owned);
    proof {
        let after = texts(items@);
        assert(after =~= before.insert(here, text@));
        assert forall|i: int, j: int| 0 <= i < j < after.len() implies #[trigger] text_before(
            after[i],
            after[j],
        ) by {
            if j > here {
                assert(after[j] == before[j - 1]);
                if i == here {
                    if here < j - 1 {
                        assert(text_before(before[here], before[j - 1]));
                        lemma_bytes_before_transitive(
                            encode_utf8(text@),
                            encode_utf8(before[here]),
                            encode_utf8(before[j - 1]),
                        );
                    }
                } else if i < here {
                    assert(after[i] == before[i]);
                    assert(text_before(before[i], before[j - 1]));
                } else {
                    assert(after[i] == before[i - 1]);
                    assert(text_before(before[i - 1], before[j - 1]));
                }
            } else {
                assert(after[i] == before[i]);
                if j == here {
                    assert(after[j] == text@);
                } else {
                    assert(after[j] == before[j]);
                    assert(text_before(before[i], before[j]));
                }
            }
        }
        assert forall|t: Seq<char>| after.contains(t) implies before.contains(t) || t == text@ by {
            let i = choose|i: int| 0 <= i < after.len() && after[i] == t;
            if i < here {
                assert(before[i] == t);
            } else if i > here {
                assert(before[i - 1] == t);
            }
        }
        assert forall|t: Seq<char>| before.contains(t) || t == text@ implies after.contains(t) by {
            if t == text@ {
                assert(after[here] == t);
            } else {
                let i = choose|i: int| 0 <= i < before.len() && before[i] == t;
                if i < here {
                    assert(after[i] == t);
                } else {
                    assert(after[i + 1] == t);
                }
            }
        }
        assert(after.to_set() =~= before.to_set().insert(text@));
    }
}

/// The texts of `values`, each once, in ascending order.
pub open spec fn is_sorted_set(values: Seq<Seq<char>>, sorted: Seq<Seq<char>>) -> bool {
    &&& ascending(sorted)
    &&& sorted.to_set() == values.to_set()
}

/// Puts texts in order, each once.
pub fn sort_texts(items: &Vec<String>) -> (r: Vec<String>)
    ensures
        is_sorted_set(texts(items@), texts(r@)),
{
    let ghost all = texts(items@);
    let mut sorted: Vec<String> = Vec::new();
    let mut i: usize = 0;
    assert(texts(sorted@).to_set() =~= all.take(0).to_set());
    while i < items.len()
        invariant
            i <= items@.len(),
            all == texts(items@),
            ascending(texts(sorted@)),
            texts(sorted@).to_set() == all.take(i as int).to_set(),
        decreases items@.len() - i,
    {
        insert_text(&mut sorted, items[i].as_str());
        i += 1;
        proof {
            assert(all[i - 1] == items@[i - 1]@);
            assert(all.take(i as int) =~= all.take(i - 1).push(all[i - 1]));
            all.take(i - 1).lemma_push_to_set_commute(all[i - 1]);
        }
    }
    assert(all.take(i as int) =~= all);
    sorted
}

/// What an optional text holds.
pub open spec fn optional_text(text: Option<String>) -> Option<Seq<char>> {
    match text {
        Some(text) => Some(text@),
        None => None,
    }
}

/// The decimal digit `n`.
pub open spec fn digit(n: nat) -> char {
    ('0' as u32 + n) as char
}

/// The decimal notation of `n`.
pub open spec fn decimal(n: nat) -> Seq<char>
    decreases n,
{
    if n < 10 {
        seq![digit(n)]
    } else {
        decimal(n / 10).push(digit(n % 10))
    }
}

fn digit_str(n: u64) -> (r: &'static str)
    requires
        n < 10,
    ensures
        r@ == seq![digit(n as nat)],
{
    proof {
        reveal_strlit("0");
        reveal_strlit("1");
        reveal_strlit("2");
        reveal_strlit("3");
        reveal_strlit("4");
        reveal_strlit("5");
        reveal_strlit("6");
        reveal_strlit("7");
        reveal_strlit("8");
        reveal_strlit("9");
    }
    match n {
        0 => "0",
        1 => "1",
        2 => "2",
        3 => "3",
        4 => "4",
        5 => "5",
        6 => "6",
        7 => "7",
        8 => "8",
        _ => "9",
    }
}

/// Renders a number in decimal notation.
pub fn decimal_string(n: u64) -> (r: String)
    ensures
        r@ == decimal(n as nat),
    decreases n,
{
    if n < 10 {
        digit_str(n).to_owned()
    } else {
        let mut out = decimal_string(n / 10);
        out.append(digit_str(n % 10));
        assert(out@ =~= decimal((n / 10) as nat).push(digit((n % 10) as nat)));
        out
    }
}

/// A whole number in decimal notation, with a sign where it is negative.
pub open spec fn signed_decimal(n: int) -> Seq<char> {
    if n < 0 {
        "-"@ + decimal((-n) as nat)
    } else {
        decimal(n as nat)
    }
}

/// Writes a whole number in decimal notation.
pub fn signed_string(n: i32) -> (r: String)
    ensures
        r@ == signed_decimal(n as int),
{
    let wide: i64 = n as i64;
    if wide < 0 {
        let magnitude: i64 = -wide;
        "-".to_owned().concat(decimal_string(magnitude as u64).as_str())
    } else {
        decimal_string(wide as u64)
    }
}

/// Appends a slice of bytes.
pub fn push_bytes(out: &mut Vec<u8>, bytes: &[u8])
    ensures
        final(out)@ == old(out)@ + bytes@,
{
    let mut i: usize = 0;
    while i < bytes.len()
        invariant
            i <= bytes.len(),
            out@ == old(out)@ + bytes@.take(i as int),
        decreases bytes.len() - i,
    {
        out.push(bytes[i]);
        i += 1;
        assert(bytes@.take(i as int) =~= bytes@.take(i - 1).push(bytes@[i - 1]));
        assert(out@ =~= old(out)@ + bytes@.take(i as int));
    }
    assert(bytes@.take(bytes@.len() as int) =~= bytes@);
}

/// Copies the bytes from `start` up to `end`.
pub fn copy_range(bytes: &[u8], start: usize, end: usize) -> (r: Vec<u8>)
    requires
        start <= end <= bytes@.len(),
    ensures
        r@ == bytes@.subrange(start as int, end as int),
{
    let mut out: Vec<u8> = Vec::new();
    let mut i: usize = start;
    while i < end
        invariant
            start <= i <= end <= bytes@.len(),
            out@ == bytes@.subrange(start as int, i as int),
        decreases end - i,
    {
        out.push(bytes[i]);
        i += 1;
        assert(bytes@.subrange(start as int, i as int) =~= bytes@.subrange(
            start as int,
            i - 1,
        ).push(bytes@[i - 1]));
    }
    out
}

/// The characters of a text.
pub fn chars_of(text: &str) -> (r: Vec<char>)
    ensures
        r@ == text@,
{
    let mut out: Vec<char> = Vec::new();
    for c in it: text.chars()
        invariant
            it.seq() == text@,
            out@ == text@.take(it.index() as int),
    {
        out.push(c);
        assert(text@.take(it.index() + 1) =~= text@.take(it.index() as int).push(c));
    }
    assert(text@.take(text@.len() as int) =~= text@);
    out
}

/// The characters from `from` up to `to`, as a text of their own.
pub fn slice_text(text: &str, from: usize, to: usize) -> (r: String)
    requires
        from <= to <= text@.len(),
    ensures
        r@ == text@.subrange(from as int, to as int),
{
    text.substring_char(from, to).to_owned()
}

/// The pieces of a text between occurrences of a separator.
pub open spec fn split_text(text: Seq<char>, separator: char) -> Seq<Seq<char>>
    decreases text.len(),
{
    if text.len() == 0 {
        seq![Seq::<char>::empty()]
    } else {
        let pieces = split_text(text.drop_last(), separator);
        if text.last() == separator {
            pieces.push(Seq::empty())
        } else {
            pieces.update(pieces.len() - 1, pieces.last().push(text.last()))
        }
    }
}

/// Splitting gives at least one piece.
pub proof fn lemma_split_nonempty(text: Seq<char>, separator: char)
    ensures
        split_text(text, separator).len() >= 1,
    decreases text.len(),
{
    if text.len() > 0 {
        lemma_split_nonempty(text.drop_last(), separator);
    }
}

/// Splits a text at each occurrence of a separator.
pub fn split_str(text: &str, separator: char) -> (r: Vec<String>)
    ensures
        texts(r@) == split_text(text@, separator),
{
    let chars = chars_of(text);
    let mut out: Vec<String> = Vec::new();
    let mut start: usize = 0;
    let mut i: usize = 0;
    proof {
        assert(text@.subrange(0, 0) =~= Seq::<char>::empty());
        assert(split_text(text@.take(0), separator) =~= texts(out@).push(text@.subrange(0, 0)));
    }
    while i < chars.len()
        invariant
            chars@ == text@,
            start <= i <= chars@.len(),
            split_text(text@.take(i as int), separator) == texts(out@).push(
                text@.subrange(start as int, i as int),
            ),
        decreases chars@.len() - i,
    {
        let ghost part = text@.take(i as int);
        proof {
            assert(text@.take(i + 1).drop_last() =~= part);
            assert(text@.take(i + 1).last() == text@[i as int]);
        }
        if chars[i] == separator {
            let piece = slice_text(text, start, i);
            let ghost before = out@;
            out.push(piece);
            start = i + 1;
            proof {
                assert(texts(out@) =~= texts(before).push(piece@));
                assert(text@.subrange(start as int, i + 1) =~= Seq::<char>::empty());
                assert(split_text(text@.take(i + 1), separator) =~= texts(out@).push(
                    text@.subrange(start as int, i + 1),
                ));
            }
        } else {
            proof {
                let pieces = split_text(part, separator);
                assert(pieces.last() == text@.subrange(start as int, i as int));
                assert(text@.subrange(start as int, i as int).push(text@[i as int])
                    =~= text@.subrange(start as int, i + 1));
                assert(split_text(text@.take(i + 1), separator) =~= texts(out@).push(
                    text@.subrange(start as int, i + 1),
                ));
            }
        }
        i += 1;
    }
    let ghost before = out@;
    let piece = slice_text(text, start, i);
    out.push(piece);
    proof {
        assert(text@.take(i as int) =~= text@);
        assert(texts(out@) =~= texts(before).push(piece@));
    }
    out
}

/// The texts one after the other, with a separator between them.
pub open spec fn join_texts(pieces: Seq<Seq<char>>, separator: Seq<char>) -> Seq<char>
    decreases pieces.len(),
{
    if pieces.len() == 0 {
        Seq::empty()
    } else if pieces.len() == 1 {
        pieces[0]
    } else {
        join_texts(pieces.drop_last(), separator) + separator + pieces.last()
    }
}

/// Joins texts with a separator between them.
pub fn join_strings(pieces: &Vec<String>, separator: &str) -> (r: String)
    ensures
        r@ == join_texts(texts(pieces@), separator@),
{
    let mut out = String::new();
    let mut i: usize = 0;
    while i < pieces.len()
        invariant
            i <= pieces@.len(),
            out@ == join_texts(texts(pieces@.take(i as int)), separator@),
        decreases pieces@.len() - i,
    {
        if i > 0 {
            out.append(separator);
        }
        out.append(pieces[i].as_str());
        i += 1;
        proof {
            let now = texts(pieces@.take(i as int));
            let before = texts(pieces@.take(i - 1));
            assert(now.drop_last() =~= before);
            assert(now.last() == pieces@[i - 1]@);
            assert(out@ =~= join_texts(now, separator@));
        }
    }
    assert(pieces@.take(i as int) =~= pieces@);
    out
}

/// Whether the character occurs in the text.
pub fn contains_char(text: &str, wanted: char) -> (r: bool)
    ensures
        r == text@.contains(wanted),
{
    let chars = chars_of(text);
    let mut i: usize = 0;
    while i < chars.len()
        invariant
            i <= chars@.len(),
            chars@ == text@,
            forall|j: int| 0 <= j < i ==> text@[j] != wanted,
        decreases chars@.len() - i,
    {
        if chars[i] == wanted {
            return true;
        }
        i += 1;
    }
    false
}

/// Three texts one after the other.
pub fn concat3(a: &str, b: &str, c: &str) -> (r: String)
    ensures
        r@ == a@ + b@ + c@,
{
    a.to_owned().concat(b).concat(c)
}

} // verus!
