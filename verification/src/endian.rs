//! Big-endian notation of numbers.

use vstd::prelude::*;

verus! {

/// The big-endian notation of `value` in `width` bytes.
pub open spec fn be_bytes(value: nat, width: nat) -> Seq<u8>
    decreases width,
{
    if width == 0 {
        Seq::empty()
    } else {
        be_bytes(value / 256, (width - 1) as nat).push((value % 256) as u8)
    }
}

/// The big-endian notation of a number.
pub fn to_be(value: u128, width: usize) -> (r: Vec<u8>)
    ensures
        r@ == be_bytes(value as nat, width as nat),
    decreases width,
{
    if width == 0 {
        Vec::new()
    } else {
        let mut out = to_be(value / 256, width - 1);
        out.push((value % 256) as u8);
        out
    }
}

/// Big-endian notation has the width asked for.
pub proof fn lemma_be_bytes_len(value: nat, width: nat)
    ensures
        be_bytes(value, width).len() == width,
    decreases width,
{
    if width > 0 {
        lemma_be_bytes_len(value / 256, (width - 1) as nat);
    }
}

/// The number that big-endian bytes stand for.
pub open spec fn be_value(bytes: Seq<u8>) -> nat
    decreases bytes.len(),
{
    if bytes.len() == 0 {
        0
    } else {
        be_value(bytes.drop_last()) * 256 + bytes.last() as nat
    }
}

/// How many numbers fit into a width.
pub open spec fn be_range(width: nat) -> nat
    decreases width,
{
    if width == 0 {
        1
    } else {
        be_range((width - 1) as nat) * 256
    }
}

/// Reading the big-endian notation of a number that fits gives the number back.
pub proof fn lemma_be_round_trip(value: nat, width: nat)
    requires
        value < be_range(width),
    ensures
        be_value(be_bytes(value, width)) == value,
    decreases width,
{
    if width > 0 {
        assert(value / 256 < be_range((width - 1) as nat));
        lemma_be_round_trip(value / 256, (width - 1) as nat);
        let bytes = be_bytes(value, width);
        assert(bytes.drop_last() =~= be_bytes(value / 256, (width - 1) as nat));
    }
}

/// Bytes of a width stand for numbers that fit into it.
pub proof fn lemma_be_value_bound(bytes: Seq<u8>)
    ensures
        be_value(bytes) < be_range(bytes.len()),
    decreases bytes.len(),
{
    if bytes.len() > 0 {
        lemma_be_value_bound(bytes.drop_last());
    }
}

/// The ranges of the widths in use.
pub proof fn lemma_be_ranges()
    ensures
        be_range(2) == 0x1_0000,
        be_range(4) == 0x1_0000_0000,
        be_range(8) == 0x1_0000_0000_0000_0000,
        be_range(16) == 0x1_0000_0000_0000_0000_0000_0000_0000_0000,
{
    reveal_with_fuel(be_range, 17);
}

/// Reads big-endian bytes from a position on.
pub fn read_be(bytes: &[u8], start: usize, width: usize) -> (r: u128)
    requires
        start + width <= bytes@.len(),
        width <= 16,
    ensures
        r == be_value(bytes@.subrange(start as int, start + width)),
{
    let total = bytes.len();
    let mut value: u128 = 0;
    let mut i: usize = 0;
    while i < width
        invariant
            i <= width <= 16,
            total == bytes@.len(),
            start + width <= total,
            value == be_value(bytes@.subrange(start as int, start + i)),
        decreases width - i,
    {
        proof {
            let part = bytes@.subrange(start as int, start + i);
            let next = bytes@.subrange(start as int, start + i + 1);
            lemma_be_value_bound(part);
            lemma_be_range_grows(i as nat, 15);
            assert(be_range(15) == 0x1_00_0000_0000_0000_0000_0000_0000_0000) by {
                reveal_with_fuel(be_range, 16);
            }
            assert(next.drop_last() =~= part);
            assert(next.last() == bytes@[start + i]);
        }
        value = value * 256 + bytes[start + i] as u128;
        i += 1;
    }
    value
}

proof fn lemma_be_range_grows(a: nat, b: nat)
    requires
        a <= b,
    ensures
        be_range(a) <= be_range(b),
    decreases b,
{
    if a < b {
        lemma_be_range_grows(a, (b - 1) as nat);
    }
}

} // verus!
