//! How texts are cut, trimmed, joined and counted.

#[allow(unused_imports)]
use crate::config_rules::{digits_value, is_digit};
#[allow(unused_imports)]
use crate::scan::{
    all_digits, begins_with, finishes_with, is_space, lines_of, number_digits, number_of, split_at,
    split_spaces, trim_end, trim_start, trimmed, words_of,
};
#[allow(unused_imports)]
use crate::seqs::lemma_filter_members;
#[allow(unused_imports)]
use crate::text::{decimal, digit, join_texts, signed_decimal, split_text};
use vstd::prelude::*;

verus! {

proof fn lemma_trim_start(text: Seq<char>)
    ensures
        trim_start(text).len() > 0 ==> !is_space(trim_start(text)[0]),
        trim_start(text).len() <= text.len(),
        trim_start(text) == text.skip(text.len() - trim_start(text).len()),
        forall|i: int|
            0 <= i < text.len() - trim_start(text).len() ==> is_space(#[trigger] text[i]),
    decreases text.len(),
{
    if text.len() > 0 && is_space(text[0]) {
        let rest = text.drop_first();
        lemma_trim_start(rest);
        let n = text.len() - trim_start(text).len();
        assert(rest.skip(n - 1) =~= text.skip(n));
        assert forall|i: int| 0 <= i < n implies is_space(#[trigger] text[i]) by {
            if i > 0 {
                assert(rest[i - 1] == text[i]);
            }
        }
    } else {
        assert(text.skip(0) =~= text);
    }
}

proof fn lemma_trim_end(text: Seq<char>)
    ensures
        trim_end(text).len() > 0 ==> !is_space(trim_end(text).last()),
        trim_end(text).len() <= text.len(),
        trim_end(text) == text.take(trim_end(text).len() as int),
        forall|i: int| trim_end(text).len() <= i < text.len() ==> is_space(#[trigger] text[i]),
    decreases text.len(),
{
    if text.len() > 0 && is_space(text.last()) {
        let rest = text.drop_last();
        lemma_trim_end(rest);
        let n = trim_end(text).len() as int;
        assert(rest.take(n) =~= text.take(n));
        assert forall|i: int| n <= i < text.len() implies is_space(#[trigger] text[i]) by {
            if i < text.len() - 1 {
                assert(rest[i] == text[i]);
            }
        }
    } else {
        assert(text.take(text.len() as int) =~= text);
    }
}

/// Trimming takes white space off both ends of a text and nothing else: what is left neither
/// begins nor ends with any, and what was taken off was nothing but that.
pub proof fn law_trimming_takes_white_space_off(text: Seq<char>)
    ensures
        trimmed(text).len() > 0 ==> !is_space(trimmed(text)[0]) && !is_space(trimmed(text).last()),
        exists|a: int, b: int|
            {
                &&& 0 <= a <= b <= text.len()
                &&& trimmed(text) == #[trigger] text.subrange(a, b)
                &&& forall|i: int| 0 <= i < a ==> is_space(#[trigger] text[i])
                &&& forall|i: int| b <= i < text.len() ==> is_space(#[trigger] text[i])
            },
        text.len() > 0 && !is_space(text[0]) && !is_space(text.last()) ==> trimmed(text) == text,
        is_space(' ') && is_space('\t') && is_space('\n') && is_space('\r'),
{
    let start = trim_start(text);
    lemma_trim_start(text);
    lemma_trim_end(start);
    let a = text.len() - start.len();
    let b = a + trimmed(text).len();
    assert(start.take(trimmed(text).len() as int) =~= text.subrange(a, b));
    assert forall|i: int| b <= i < text.len() implies is_space(#[trigger] text[i]) by {
        assert(start[i - a] == text[i]);
    }
    if trimmed(text).len() > 0 {
        assert(trimmed(text)[0] == start[0]);
    }
}

/// The pieces of a text hold no separator, and with separators between them they are the
/// text again.
pub proof fn law_pieces_make_up_the_text(text: Seq<char>, separator: char, k: int)
    ensures
        join_texts(split_text(text, separator), seq![separator]) == text,
        0 <= k < split_text(text, separator).len() ==> !split_text(text, separator)[k].contains(
            separator,
        ),
        !text.contains(separator) ==> split_text(text, separator).len() == 1,
    decreases text.len(),
{
    let pieces = split_text(text, separator);
    let mark = seq![separator];
    if text.len() > 0 {
        let rest = text.drop_last();
        let before = split_text(rest, separator);
        crate::text::lemma_split_nonempty(rest, separator);
        law_pieces_make_up_the_text(rest, separator, k);
        law_pieces_make_up_the_text(rest, separator, before.len() - 1);
        assert(rest.push(text.last()) =~= text);
        if text.last() == separator {
            assert(pieces.drop_last() =~= before);
            assert(rest + mark + Seq::<char>::empty() =~= text);
            assert(text[text.len() - 1] == separator);
            assert(text.contains(separator));
            if k == before.len() {
                assert(pieces[k].len() == 0);
            }
        } else {
            let longer = before.last().push(text.last());
            assert(pieces.drop_last() =~= before.drop_last());
            assert(pieces.last() == longer);
            if pieces.len() == 1 {
                assert(rest.push(text.last()) =~= longer);
            } else {
                let head = join_texts(before.drop_last(), mark) + mark;
                assert(rest == head + before.last());
                assert(head + longer =~= rest.push(text.last()));
            }
            if k == pieces.len() - 1 {
                if longer.contains(separator) {
                    let j = choose|j: int| 0 <= j < longer.len() && longer[j] == separator;
                    assert(before.last()[j] == separator);
                }
            }
            if rest.contains(separator) {
                let j = choose|j: int| 0 <= j < rest.len() && rest[j] == separator;
                assert(text[j] == separator);
            }
        }
    } else {
        assert(pieces[0].len() == 0);
    }
}

/// The runs of bytes between separators hold none.
pub proof fn law_runs_hold_no_separator(bytes: Seq<u8>, separator: u8, k: int)
    ensures
        split_at(bytes, separator).len() >= 1,
        0 <= k < split_at(bytes, separator).len() ==> !split_at(bytes, separator)[k].contains(
            separator,
        ),
        !bytes.contains(separator) ==> split_at(bytes, separator) == seq![bytes],
    decreases bytes.len(),
{
    let pieces = split_at(bytes, separator);
    if bytes.len() > 0 {
        let rest = bytes.drop_last();
        let before = split_at(rest, separator);
        law_runs_hold_no_separator(rest, separator, k);
        law_runs_hold_no_separator(rest, separator, before.len() - 1);
        assert(rest.push(bytes.last()) =~= bytes);
        if bytes.last() == separator {
            assert(bytes[bytes.len() - 1] == separator);
            if k == before.len() {
                assert(pieces[k].len() == 0);
            }
        } else {
            let longer = before.last().push(bytes.last());
            if k == pieces.len() - 1 && longer.contains(separator) {
                let j = choose|j: int| 0 <= j < longer.len() && longer[j] == separator;
                assert(before.last()[j] == separator);
            }
            if rest.contains(separator) {
                let j = choose|j: int| 0 <= j < rest.len() && rest[j] == separator;
                assert(bytes[j] == separator);
            } else {
                assert(pieces =~= seq![bytes]);
            }
        }
    } else {
        assert(bytes =~= Seq::<u8>::empty());
        assert(pieces =~= seq![bytes]);
    }
}

/// No line holds a line feed, and none ends with the one that ends it.
pub proof fn law_lines_hold_no_line_feed(text: Seq<char>, k: int)
    requires
        0 <= k < lines_of(text).len(),
    ensures
        !lines_of(text)[k].contains('\n'),
{
    let pieces = split_text(text, '\n');
    crate::text::lemma_split_nonempty(text, '\n');
    law_pieces_make_up_the_text(text, '\n', k);
    let line = lines_of(text)[k];
    if line.contains('\n') {
        let j = choose|j: int| 0 <= j < line.len() && line[j] == '\n';
        assert(pieces[k][j] == '\n');
    }
}

proof fn lemma_pieces_hold_no_space(text: Seq<char>, k: int, j: int)
    ensures
        split_spaces(text).len() >= 1,
        0 <= k < split_spaces(text).len() && 0 <= j < split_spaces(text)[k].len() ==> !is_space(
            split_spaces(text)[k][j],
        ),
    decreases text.len(),
{
    if text.len() > 0 {
        lemma_pieces_hold_no_space(text.drop_last(), k, j);
    }
}

/// A word is not empty and holds no white space.
pub proof fn law_words_hold_no_white_space(text: Seq<char>, k: int, j: int)
    requires
        0 <= k < words_of(text).len(),
    ensures
        words_of(text)[k].len() > 0,
        0 <= j < words_of(text)[k].len() ==> !is_space(words_of(text)[k][j]),
{
    let pieces = split_spaces(text);
    lemma_filter_members(pieces, |piece: Seq<char>| crate::scan::not_empty(piece));
    let word = words_of(text)[k];
    assert(pieces.contains(word));
    let at = choose|at: int| 0 <= at < pieces.len() && pieces[at] == word;
    lemma_pieces_hold_no_space(text, at, j);
}

proof fn lemma_decimal(n: nat)
    ensures
        decimal(n).len() > 0,
        all_digits(decimal(n)),
        digits_value(decimal(n)) == n,
    decreases n,
{
    if n < 10 {
        reveal_with_fuel(digits_value, 2);
        assert(decimal(n).drop_last() =~= Seq::<char>::empty());
    } else {
        lemma_decimal(n / 10);
        assert(decimal(n).drop_last() =~= decimal(n / 10));
    }
}

/// A number is read as it is written.
pub proof fn law_numbers_are_read_as_written(n: nat, max: nat)
    ensures
        n <= max ==> number_of(decimal(n), max) == Some(n),
        n > max ==> number_of(decimal(n), max) is None,
        n <= max ==> number_of(seq!['+'] + decimal(n), max) == Some(n),
{
    lemma_decimal(n);
    let text = decimal(n);
    assert(is_digit(text[0]));
    assert(number_digits(text) == text);
    let plus = seq!['+'] + text;
    assert(plus.drop_first() =~= text);
    assert(plus[0] == '+');
}

/// What is read as a number is made of digits, and no number is too large.
pub proof fn law_only_digits_are_numbers(text: Seq<char>, max: nat)
    ensures
        number_of(text, max) matches Some(n) ==> n <= max,
        text.len() == 0 ==> number_of(text, max) is None,
        text.len() > 0 && !is_digit(text.last()) ==> number_of(text, max) is None,
        number_of(seq!['-'] + text, max) is None,
{
    if text.len() > 0 && !is_digit(text.last()) {
        let digits = number_digits(text);
        if digits.len() > 0 {
            assert(digits[digits.len() - 1] == text.last());
        }
    }
    let negative = seq!['-'] + text;
    assert(negative[0] == '-');
    assert(number_digits(negative) == negative);
}

/// Different numbers are written differently, and a negative one with a minus sign.
pub proof fn law_numbers_are_told_apart(a: int, b: int)
    requires
        signed_decimal(a) == signed_decimal(b),
    ensures
        a == b,
{
    reveal_strlit("-");
    lemma_decimal((if a < 0 { -a } else { a }) as nat);
    lemma_decimal((if b < 0 { -b } else { b }) as nat);
    if a < 0 {
        let text = signed_decimal(a);
        assert(text[0] == '-');
        if b < 0 {
            assert(signed_decimal(a).skip(1) =~= decimal((-a) as nat));
            assert(signed_decimal(b).skip(1) =~= decimal((-b) as nat));
        } else {
            assert(is_digit(decimal(b as nat)[0]));
        }
    } else if b < 0 {
        assert(signed_decimal(b)[0] == '-');
        assert(is_digit(decimal(a as nat)[0]));
    }
}

/// A text begins with what was put before it and ends with what was put behind it.
pub proof fn law_texts_begin_and_end_with_their_parts(a: Seq<char>, b: Seq<char>)
    ensures
        begins_with(a + b, a),
        finishes_with(a + b, b),
        begins_with(a, b) ==> b.len() <= a.len() && a.take(b.len() as int) == b,
        finishes_with(a, b) ==> b.len() <= a.len() && a.skip(a.len() - b.len()) == b,
{
    assert((a + b).subrange(0, a.len() as int) =~= a);
    assert((a + b).subrange(a.len() as int, (a + b).len() as int) =~= b);
    assert((a + b).skip((a + b).len() - b.len()) =~= b);
    if begins_with(a, b) {
        assert(a.take(b.len() as int) =~= a.subrange(0, b.len() as int));
    }
    if finishes_with(a, b) {
        assert(a.skip(a.len() - b.len()) =~= a.subrange(a.len() - b.len(), a.len() as int));
    }
}

} // verus!
