//! Byte counts as short text with a magnitude suffix.
//!
//! Below 1000 the count is written out in full and followed by `B`. From 1000
//! on it is scaled by the largest power of 1000 that does not exceed it and
//! written with one decimal digit, rounded half up, then a space, the
//! magnitude's letter and `B`: 2048 bytes read `2.0 KB`.

use vstd::prelude::*;
use vstd::string::StringExecFns;

verus! {

/// The text of one decimal digit.
pub open spec fn digit(d: nat) -> Seq<char> {
    if d == 0 {
        "0"@
    } else if d == 1 {
        "1"@
    } else if d == 2 {
        "2"@
    } else if d == 3 {
        "3"@
    } else if d == 4 {
        "4"@
    } else if d == 5 {
        "5"@
    } else if d == 6 {
        "6"@
    } else if d == 7 {
        "7"@
    } else if d == 8 {
        "8"@
    } else {
        "9"@
    }
}

/// A natural number in decimal, without leading zeros.
pub open spec fn decimal(n: nat) -> Seq<char>
    decreases n,
{
    if n < 10 {
        digit(n)
    } else {
        decimal(n / 10) + digit(n % 10)
    }
}

/// The power of 1000 by which a count of at least 1000 is scaled.
pub open spec fn unit_of(n: nat) -> nat {
    if n < 1_000_000 {
        1_000
    } else if n < 1_000_000_000 {
        1_000_000
    } else if n < 1_000_000_000_000 {
        1_000_000_000
    } else if n < 1_000_000_000_000_000 {
        1_000_000_000_000
    } else if n < 1_000_000_000_000_000_000 {
        1_000_000_000_000_000
    } else {
        1_000_000_000_000_000_000
    }
}

/// The letter of the magnitude by which a count of at least 1000 is scaled.
pub open spec fn suffix_of(n: nat) -> Seq<char> {
    if n < 1_000_000 {
        "K"@
    } else if n < 1_000_000_000 {
        "M"@
    } else if n < 1_000_000_000_000 {
        "G"@
    } else if n < 1_000_000_000_000_000 {
        "T"@
    } else if n < 1_000_000_000_000_000_000 {
        "P"@
    } else {
        "E"@
    }
}

/// The count in tenths of its unit, rounded half up.
pub open spec fn tenths(n: nat) -> nat {
    (n * 10 + unit_of(n) / 2) / unit_of(n)
}

/// The text that stands for a size of `n` bytes.
pub open spec fn size_text(n: nat) -> Seq<char> {
    if n < 1000 {
        decimal(n) + "B"@
    } else {
        decimal(tenths(n) / 10) + "."@ + digit(tenths(n) % 10) + " "@ + suffix_of(n) + "B"@
    }
}

fn digit_str(d: u128) -> (r: &'static str)
    requires
        d < 10,
    ensures
        r@ == digit(d as nat),
{
    if d == 0 {
        "0"
    } else if d == 1 {
        "1"
    } else if d == 2 {
        "2"
    } else if d == 3 {
        "3"
    } else if d == 4 {
        "4"
    } else if d == 5 {
        "5"
    } else if d == 6 {
        "6"
    } else if d == 7 {
        "7"
    } else if d == 8 {
        "8"
    } else {
        "9"
    }
}

fn unit_and_suffix(n: u64) -> (r: (u128, &'static str))
    requires
        n >= 1000,
    ensures
        r.0 == unit_of(n as nat),
        r.1@ == suffix_of(n as nat),
{
    if n < 1_000_000 {
        (1_000, "K")
    } else if n < 1_000_000_000 {
        (1_000_000, "M")
    } else if n < 1_000_000_000_000 {
        (1_000_000_000, "G")
    } else if n < 1_000_000_000_000_000 {
        (1_000_000_000_000, "T")
    } else if n < 1_000_000_000_000_000_000 {
        (1_000_000_000_000_000, "P")
    } else {
        (1_000_000_000_000_000_000, "E")
    }
}

/// Appends `n` in decimal to `out`.
pub fn push_decimal(out: &mut String, n: u128)
    ensures
        final(out)@ == old(out)@ + decimal(n as nat),
    decreases n,
{
    if n >= 10 {
        push_decimal(out, n / 10);
    }
    out.append(digit_str(n % 10));
    assert(final(out)@ =~= old(out)@ + decimal(n as nat));
}

/// Appends the size text of `bytes` to `out`.
pub fn push_size(out: &mut String, bytes: u64)
    ensures
        final(out)@ == old(out)@ + size_text(bytes as nat),
{
    if bytes < 1000 {
        push_decimal(out, bytes as u128);
        out.append("B");
    } else {
        let (unit, suffix) = unit_and_suffix(bytes);
        let scaled: u128 = (bytes as u128 * 10 + unit / 2) / unit;
        assert(scaled == tenths(bytes as nat));
        push_decimal(out, scaled / 10);
        out.append(".");
        out.append(digit_str(scaled % 10));
        out.append(" ");
        out.append(suffix);
        out.append("B");
    }
    assert(final(out)@ =~= old(out)@ + size_text(bytes as nat));
}

/// The size text of `bytes`.
pub fn size_label(bytes: u64) -> (label: String)
    ensures
        label@ == size_text(bytes as nat),
{
    let mut label = String::new();
    push_size(&mut label, bytes);
    assert(label@ =~= size_text(bytes as nat));
    label
}

} // verus!
