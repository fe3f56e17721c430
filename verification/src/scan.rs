//! Searching, trimming and cutting up text and bytes.

use crate::config_rules::{digit_char, read_digits};
#[allow(unused_imports)]
use crate::config_rules::{digits_value, is_digit};
use crate::text::{copy_range, slice_text, split_str};
#[allow(unused_imports)]
use crate::text::{lemma_split_nonempty, split_text, texts};
use vstd::prelude::*;

verus! {

/// A character with the Unicode property `White_Space`.
pub open spec fn is_space(c: char) -> bool {
    ||| '\u{9}' <= c <= '\u{d}'
    ||| c == ' '
    ||| c == '\u{85}'
    ||| c == '\u{a0}'
    ||| c == '\u{1680}'
    ||| '\u{2000}' <= c <= '\u{200a}'
    ||| c == '\u{2028}'
    ||| c == '\u{2029}'
    ||| c == '\u{202f}'
    ||| c == '\u{205f}'
    ||| c == '\u{3000}'
}

/// Whether a character is white space.
pub fn space(c: char) -> (r: bool)
    ensures
        r == is_space(c),
{
    ('\u{9}' <= c && c <= '\u{d}') || c == ' ' || c == '\u{85}' || c == '\u{a0}' || c == '\u{1680}'
        || ('\u{2000}' <= c && c <= '\u{200a}') || c == '\u{2028}' || c == '\u{2029}'
        || c == '\u{202f}' || c == '\u{205f}' || c == '\u{3000}'
}

/// The text without the white space at its start.
pub open spec fn trim_start(text: Seq<char>) -> Seq<char>
    decreases text.len(),
{
    if text.len() > 0 && is_space(text[0]) {
        trim_start(text.drop_first())
    } else {
        text
    }
}

/// The text without the white space at its end.
pub open spec fn trim_end(text: Seq<char>) -> Seq<char>
    decreases text.len(),
{
    if text.len() > 0 && is_space(text.last()) {
        trim_end(text.drop_last())
    } else {
        text
    }
}

/// The text without the white space at either end.
pub open spec fn trimmed(text: Seq<char>) -> Seq<char> {
    trim_end(trim_start(text))
}

/// Takes the white space off both ends of a text.
pub fn trim_str(text: &str) -> (r: String)
    ensures
        r@ == trimmed(text@),
{
    let chars = crate::text::chars_of(text);
    let mut start: usize = 0;
    let mut end: usize = chars.len();
    assert(text@.subrange(0, chars@.len() as int) =~= text@);
    while start < end && space(chars[start])
        invariant
            chars@ == text@,
            start <= end == chars@.len(),
            trim_start(text@) == trim_start(text@.subrange(start as int, end as int)),
        decreases end - start,
    {
        assert(text@.subrange(start as int, end as int).drop_first() =~= text@.subrange(
            start + 1,
            end as int,
        ));
        start += 1;
    }
    assert(trim_start(text@) == text@.subrange(start as int, end as int));
    while start < end && space(chars[end - 1])
        invariant
            chars@ == text@,
            start <= end <= chars@.len(),
            trim_end(trim_start(text@)) == trim_end(text@.subrange(start as int, end as int)),
        decreases end - start,
    {
        assert(text@.subrange(start as int, end as int).drop_last() =~= text@.subrange(
            start as int,
            end - 1,
        ));
        end -= 1;
    }
    slice_text(text, start, end)
}

/// The line without the carriage return that may end it.
pub open spec fn without_return(line: Seq<char>) -> Seq<char> {
    if line.len() > 0 && line.last() == '\r' {
        line.drop_last()
    } else {
        line
    }
}

/// The lines of a text, which line feeds end. A line feed at the very end opens no
/// line of its own.
pub open spec fn lines_of(text: Seq<char>) -> Seq<Seq<char>> {
    let pieces = split_text(text, '\n');
    let kept = if pieces.last().len() == 0 {
        pieces.drop_last()
    } else {
        pieces
    };
    kept.map_values(|line: Seq<char>| without_return(line))
}

/// Cuts a text into its lines.
pub fn lines_str(text: &str) -> (r: Vec<String>)
    ensures
        texts(r@) == lines_of(text@),
{
    let pieces = split_str(text, '\n');
    proof {
        lemma_split_nonempty(text@, '\n');
        assert(texts(pieces@).len() == pieces@.len());
    }
    let ghost all = split_text(text@, '\n');
    let mut count: usize = pieces.len();
    let last = &pieces[count - 1];
    assert(last@ == all.last());
    if last.as_str().as_bytes().len() == 0 {
        proof {
            crate::text::lemma_utf8_injective(last@, Seq::empty());
            assert(vstd::utf8::encode_utf8(Seq::<char>::empty()) =~= Seq::empty());
        }
        count -= 1;
    } else {
        assert(all.last().len() != 0) by {
            if all.last().len() == 0 {
                assert(last@ =~= Seq::empty());
                assert(vstd::utf8::encode_utf8(Seq::<char>::empty()) =~= Seq::empty());
            }
        }
    }
    let ghost kept = all.take(count as int);
    assert(all.last().len() == 0 ==> kept =~= all.drop_last());
    assert(all.last().len() != 0 ==> kept =~= all);
    let mut out: Vec<String> = Vec::new();
    let mut i: usize = 0;
    while i < count
        invariant
            i <= count <= pieces@.len(),
            texts(pieces@) == all,
            kept == all.take(count as int),
            out@.len() == i,
            forall|j: int| 0 <= j < i ==> (#[trigger] out@[j])@ == without_return(kept[j]),
        decreases count - i,
    {
        assert(texts(pieces@)[i as int] == pieces@[i as int]@);
        let chars = crate::text::chars_of(pieces[i].as_str());
        let n: usize = chars.len();
        if n > 0 && chars[n - 1] == '\r' {
            let line = slice_text(pieces[i].as_str(), 0, n - 1);
            assert(line@ =~= pieces@[i as int]@.drop_last());
            out.push(line);
        } else {
            out.push(pieces[i].as_str().to_owned());
        }
        i += 1;
    }
    assert(texts(out@) =~= lines_of(text@));
    out
}

/// The needle stands in the haystack, beginning at position `i`.
pub open spec fn occurs_at<A>(haystack: Seq<A>, needle: Seq<A>, i: int) -> bool {
    &&& 0 <= i
    &&& i + needle.len() <= haystack.len()
    &&& haystack.subrange(i, i + needle.len()) == needle
}

/// The needle stands somewhere in the haystack.
pub open spec fn contains_part<A>(haystack: Seq<A>, needle: Seq<A>) -> bool {
    exists|i: int| #[trigger] occurs_at(haystack, needle, i)
}

fn chars_match(haystack: &Vec<char>, needle: &Vec<char>, at: usize) -> (r: bool)
    requires
        at + needle@.len() <= haystack@.len(),
    ensures
        r == occurs_at(haystack@, needle@, at as int),
{
    let total: usize = haystack.len();
    let mut k: usize = 0;
    while k < needle.len()
        invariant
            k <= needle@.len(),
            total == haystack@.len(),
            at + needle@.len() <= haystack@.len(),
            forall|j: int| 0 <= j < k ==> haystack@[at + j] == #[trigger] needle@[j],
        decreases needle@.len() - k,
    {
        if haystack[at + k] != needle[k] {
            assert(haystack@.subrange(at as int, at + needle@.len())[k as int] != needle@[k as int]);
            return false;
        }
        k += 1;
    }
    assert(haystack@.subrange(at as int, at + needle@.len()) =~= needle@);
    true
}

/// Whether a text holds another.
pub fn contains_str(haystack: &str, needle: &str) -> (r: bool)
    ensures
        r == contains_part(haystack@, needle@),
{
    let hay = crate::text::chars_of(haystack);
    let sought = crate::text::chars_of(needle);
    if sought.len() > hay.len() {
        return false;
    }
    let mut i: usize = 0;
    while i <= hay.len() - sought.len()
        invariant
            hay@ == haystack@,
            sought@ == needle@,
            sought@.len() <= hay@.len(),
            i <= hay@.len() - sought@.len() + 1,
            forall|j: int| 0 <= j < i ==> !#[trigger] occurs_at(haystack@, needle@, j),
        decreases hay@.len() - sought@.len() + 1 - i,
    {
        if chars_match(&hay, &sought, i) {
            return true;
        }
        if i == hay.len() - sought.len() {
            return false;
        }
        i += 1;
    }
    false
}

/// The text begins with the other.
pub open spec fn begins_with(text: Seq<char>, prefix: Seq<char>) -> bool {
    occurs_at(text, prefix, 0)
}

/// Whether a text begins with another.
pub fn starts_with(text: &str, prefix: &str) -> (r: bool)
    ensures
        r == begins_with(text@, prefix@),
{
    let chars = crate::text::chars_of(text);
    let sought = crate::text::chars_of(prefix);
    sought.len() <= chars.len() && chars_match(&chars, &sought, 0)
}

/// The text ends with the other.
pub open spec fn finishes_with(text: Seq<char>, suffix: Seq<char>) -> bool {
    occurs_at(text, suffix, text.len() - suffix.len())
}

/// Whether a text ends with another.
pub fn ends_with(text: &str, suffix: &str) -> (r: bool)
    ensures
        r == finishes_with(text@, suffix@),
{
    let chars = crate::text::chars_of(text);
    let sought = crate::text::chars_of(suffix);
    sought.len() <= chars.len() && chars_match(&chars, &sought, chars.len() - sought.len())
}

/// What follows the prefix, where the text begins with it.
pub fn strip_prefix(text: &str, prefix: &str) -> (r: Option<String>)
    ensures
        r is Some <==> begins_with(text@, prefix@),
        r matches Some(rest) ==> rest@ == text@.skip(prefix@.len() as int),
{
    if starts_with(text, prefix) {
        let from: usize = crate::text::chars_of(prefix).len();
        let to: usize = crate::text::chars_of(text).len();
        let rest = slice_text(text, from, to);
        assert(rest@ =~= text@.skip(prefix@.len() as int));
        Some(rest)
    } else {
        None
    }
}

/// The first place in the haystack at which the needle stands.
pub open spec fn first_place(haystack: Seq<u8>, needle: Seq<u8>, i: int) -> bool {
    &&& occurs_at(haystack, needle, i)
    &&& forall|j: int| 0 <= j < i ==> !#[trigger] occurs_at(haystack, needle, j)
}

/// The first place in the haystack at which the needle stands, if there is one.
pub fn find_bytes(haystack: &[u8], needle: &[u8]) -> (r: Option<usize>)
    requires
        needle@.len() > 0,
    ensures
        r is Some <==> contains_part(haystack@, needle@),
        r matches Some(i) ==> first_place(haystack@, needle@, i as int),
{
    if needle.len() > haystack.len() {
        return None;
    }
    let total: usize = haystack.len();
    let mut i: usize = 0;
    while i <= haystack.len() - needle.len()
        invariant
            total == haystack@.len(),
            0 < needle@.len() <= haystack@.len(),
            i <= haystack@.len() - needle@.len() + 1,
            forall|j: int| 0 <= j < i ==> !#[trigger] occurs_at(haystack@, needle@, j),
        decreases haystack@.len() - needle@.len() + 1 - i,
    {
        let mut k: usize = 0;
        let mut same = true;
        while k < needle.len() && same
            invariant
                k <= needle@.len(),
                total == haystack@.len(),
                i + needle@.len() <= haystack@.len(),
                same ==> k <= needle@.len() && forall|j: int|
                    0 <= j < k ==> haystack@[i + j] == #[trigger] needle@[j],
                !same ==> !occurs_at(haystack@, needle@, i as int),
            decreases needle@.len() - k,
        {
            if haystack[i + k] != needle[k] {
                same = false;
                assert(haystack@.subrange(i as int, i + needle@.len())[k as int]
                    != needle@[k as int]);
            }
            k += 1;
        }
        if same {
            assert(haystack@.subrange(i as int, i + needle@.len()) =~= needle@);
            assert(occurs_at(haystack@, needle@, i as int));
            return Some(i);
        }
        i += 1;
    }
    None
}

/// The pieces of a run of bytes between occurrences of a separator.
pub open spec fn split_at(bytes: Seq<u8>, separator: u8) -> Seq<Seq<u8>>
    decreases bytes.len(),
{
    if bytes.len() == 0 {
        seq![Seq::<u8>::empty()]
    } else {
        let pieces = split_at(bytes.drop_last(), separator);
        if bytes.last() == separator {
            pieces.push(Seq::empty())
        } else {
            pieces.update(pieces.len() - 1, pieces.last().push(bytes.last()))
        }
    }
}

/// The contents of runs of bytes.
pub open spec fn runs(items: Seq<Vec<u8>>) -> Seq<Seq<u8>> {
    items.map_values(|item: Vec<u8>| item@)
}

/// Cuts bytes at each occurrence of a separator.
pub fn split_bytes(bytes: &[u8], separator: u8) -> (r: Vec<Vec<u8>>)
    ensures
        runs(r@) == split_at(bytes@, separator),
        r@.len() >= 1,
{
    let mut out: Vec<Vec<u8>> = Vec::new();
    let mut start: usize = 0;
    let mut i: usize = 0;
    proof {
        assert(bytes@.subrange(0, 0) =~= Seq::<u8>::empty());
        assert(split_at(bytes@.take(0), separator) =~= runs(out@).push(bytes@.subrange(0, 0)));
    }
    while i < bytes.len()
        invariant
            start <= i <= bytes@.len(),
            split_at(bytes@.take(i as int), separator) == runs(out@).push(
                bytes@.subrange(start as int, i as int),
            ),
        decreases bytes@.len() - i,
    {
        let ghost part = bytes@.take(i as int);
        proof {
            assert(bytes@.take(i + 1).drop_last() =~= part);
            assert(bytes@.take(i + 1).last() == bytes@[i as int]);
        }
        if bytes[i] == separator {
            let piece = copy_range(bytes, start, i);
            let ghost before = out@;
            out.push(piece);
            start = i + 1;
            proof {
                assert(runs(out@) =~= runs(before).push(piece@));
                assert(bytes@.subrange(start as int, i + 1) =~= Seq::<u8>::empty());
                assert(split_at(bytes@.take(i + 1), separator) =~= runs(out@).push(
                    bytes@.subrange(start as int, i + 1),
                ));
            }
        } else {
            proof {
                let pieces = split_at(part, separator);
                assert(pieces.last() == bytes@.subrange(start as int, i as int));
                assert(bytes@.subrange(start as int, i as int).push(bytes@[i as int])
                    =~= bytes@.subrange(start as int, i + 1));
                assert(split_at(bytes@.take(i + 1), separator) =~= runs(out@).push(
                    bytes@.subrange(start as int, i + 1),
                ));
            }
        }
        i += 1;
    }
    let ghost before = out@;
    let piece = copy_range(bytes, start, i);
    out.push(piece);
    proof {
        assert(bytes@.take(i as int) =~= bytes@);
        assert(runs(out@) =~= runs(before).push(piece@));
    }
    out
}

/// The pieces of a text between white space, empty ones among them.
pub open spec fn split_spaces(text: Seq<char>) -> Seq<Seq<char>>
    decreases text.len(),
{
    if text.len() == 0 {
        seq![Seq::<char>::empty()]
    } else {
        let pieces = split_spaces(text.drop_last());
        if is_space(text.last()) {
            pieces.push(Seq::empty())
        } else {
            pieces.update(pieces.len() - 1, pieces.last().push(text.last()))
        }
    }
}

pub open spec fn not_empty(piece: Seq<char>) -> bool {
    piece.len() > 0
}

/// The words of a text, which white space separates.
pub open spec fn words_of(text: Seq<char>) -> Seq<Seq<char>> {
    split_spaces(text).filter(|piece: Seq<char>| not_empty(piece))
}

proof fn lemma_filter_push(pieces: Seq<Seq<char>>, piece: Seq<char>)
    ensures
        pieces.push(piece).filter(|p: Seq<char>| not_empty(p)) == if not_empty(piece) {
            pieces.filter(|p: Seq<char>| not_empty(p)).push(piece)
        } else {
            pieces.filter(|p: Seq<char>| not_empty(p))
        },
{
    reveal(Seq::filter);
    assert(pieces.push(piece).drop_last() =~= pieces);
}

/// Cuts a text into its words.
pub fn words_str(text: &str) -> (r: Vec<String>)
    ensures
        texts(r@) == words_of(text@),
{
    let chars = crate::text::chars_of(text);
    let mut out: Vec<String> = Vec::new();
    let mut start: usize = 0;
    let mut i: usize = 0;
    let ghost mut before: Seq<Seq<char>> = Seq::empty();
    proof {
        assert(text@.subrange(0, 0) =~= Seq::<char>::empty());
        assert(split_spaces(text@.take(0)) =~= before.push(text@.subrange(0, 0)));
        reveal(Seq::filter);
        assert(texts(out@) =~= before.filter(|p: Seq<char>| not_empty(p)));
    }
    while i < chars.len()
        invariant
            chars@ == text@,
            start <= i <= chars@.len(),
            split_spaces(text@.take(i as int)) == before.push(
                text@.subrange(start as int, i as int),
            ),
            texts(out@) == before.filter(|p: Seq<char>| not_empty(p)),
        decreases chars@.len() - i,
    {
        let ghost part = text@.take(i as int);
        let ghost piece = text@.subrange(start as int, i as int);
        proof {
            assert(text@.take(i + 1).drop_last() =~= part);
            assert(text@.take(i + 1).last() == text@[i as int]);
        }
        if space(chars[i]) {
            proof {
                lemma_filter_push(before, piece);
            }
            if start < i {
                let word = slice_text(text, start, i);
                let ghost held = out@;
                out.push(word);
                assert(texts(out@) =~= texts(held).push(word@));
            }
            start = i + 1;
            proof {
                before = before.push(piece);
                assert(text@.subrange(start as int, i + 1) =~= Seq::<char>::empty());
                assert(split_spaces(text@.take(i + 1)) =~= before.push(
                    text@.subrange(start as int, i + 1),
                ));
            }
        } else {
            proof {
                assert(piece.push(text@[i as int]) =~= text@.subrange(start as int, i + 1));
                assert(split_spaces(text@.take(i + 1)) =~= before.push(
                    text@.subrange(start as int, i + 1),
                ));
            }
        }
        i += 1;
    }
    proof {
        lemma_filter_push(before, text@.subrange(start as int, i as int));
        assert(text@.take(i as int) =~= text@);
    }
    if start < i {
        let word = slice_text(text, start, i);
        let ghost held = out@;
        out.push(word);
        assert(texts(out@) =~= texts(held).push(word@));
    }
    out
}

/// The digits of a number: what follows a plus sign, or the whole text.
pub open spec fn number_digits(text: Seq<char>) -> Seq<char> {
    if text.len() > 1 && text[0] == '+' {
        text.drop_first()
    } else {
        text
    }
}

/// The number that a text denotes in decimal notation, if it is not too large.
pub open spec fn number_of(text: Seq<char>, max: nat) -> Option<nat> {
    let digits = number_digits(text);
    if digits.len() > 0 && all_digits(digits) && digits_value(digits) <= max {
        Some(digits_value(digits))
    } else {
        None
    }
}

pub open spec fn all_digits(digits: Seq<char>) -> bool {
    forall|i: int| 0 <= i < digits.len() ==> is_digit(#[trigger] digits[i])
}

/// Reads a number in decimal notation.
pub fn parse_number(text: &str, max: u64) -> (r: Option<u64>)
    ensures
        r is Some <==> number_of(text@, max as nat) is Some,
        r matches Some(number) ==> number_of(text@, max as nat) == Some(number as nat),
{
    let mut chars = crate::text::chars_of(text);
    if chars.len() > 1 && chars[0] == '+' {
        chars.remove(0);
        assert(chars@ =~= text@.drop_first());
    }
    assert(chars@ == number_digits(text@));
    let mut i: usize = 0;
    while i < chars.len()
        invariant
            i <= chars@.len(),
            chars@ == number_digits(text@),
            forall|j: int| 0 <= j < i ==> is_digit(#[trigger] chars@[j]),
        decreases chars@.len() - i,
    {
        if !digit_char(chars[i]) {
            return None;
        }
        i += 1;
    }
    assert(chars@.take(i as int) =~= chars@);
    match read_digits(&chars, i) {
        Some(number) => {
            if number <= max {
                Some(number)
            } else {
                None
            }
        },
        None => None,
    }
}

} // verus!
