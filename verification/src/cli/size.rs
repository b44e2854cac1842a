//! Sizes and ages in words.

use vstd::prelude::*;
use crate::text::{decimal, push_decimal, push_str};

verus! {

/// Which binary unit a size of at least 1 KiB is shown in: the largest
/// (up to TiB) under which it stays below 1024.
pub open spec fn unit_exponent(bytes: nat) -> nat {
    if bytes < 1048576 {
        1
    } else if bytes < 1073741824 {
        2
    } else if bytes < 1099511627776 {
        3
    } else {
        4
    }
}

pub open spec fn unit_scale(exponent: nat) -> nat {
    if exponent == 1 {
        1024
    } else if exponent == 2 {
        1048576
    } else if exponent == 3 {
        1073741824
    } else {
        1099511627776
    }
}

pub open spec fn unit_name(exponent: nat) -> Seq<char> {
    if exponent == 1 {
        "KiB"@
    } else if exponent == 2 {
        "MiB"@
    } else if exponent == 3 {
        "GiB"@
    } else {
        "TiB"@
    }
}

/// `n / d` to the nearest whole number, ties to the even one.
pub open spec fn round_half_even(n: nat, d: nat) -> nat
    recommends
        d > 0,
{
    let q = n / d;
    let r = n % d;
    if 2 * r > d || (2 * r == d && q % 2 == 1) {
        q + 1
    } else {
        q
    }
}

/// A size in words: bytes below 1 KiB, otherwise the value in its unit to
/// one decimal, the decimal dropped when it is zero (`1.5 KiB`, `10 KiB`).
pub open spec fn size_text(bytes: nat) -> Seq<char> {
    if bytes < 1024 {
        decimal(bytes) + " B"@
    } else {
        let e = unit_exponent(bytes);
        let tenths = round_half_even(bytes * 10, unit_scale(e));
        decimal(tenths / 10) + if tenths % 10 == 0 {
            Seq::<char>::empty()
        } else {
            "."@ + decimal(tenths % 10)
        } + " "@ + unit_name(e)
    }
}

pub fn format_size(bytes: u64) -> (s: String)
    ensures
        s@ == size_text(bytes as nat),
{
    let mut s = String::new();
    if bytes < 1024 {
        push_decimal(&mut s, bytes);
        push_str(&mut s, " B");
        return s;
    }
    let (scale, unit): (u64, &str) = if bytes < 1048576 {
        (1024, "KiB")
    } else if bytes < 1073741824 {
        (1048576, "MiB")
    } else if bytes < 1099511627776 {
        (1073741824, "GiB")
    } else {
        (1099511627776, "TiB")
    };
    let ghost e = unit_exponent(bytes as nat);
    assert(scale as nat == unit_scale(e) && unit@ == unit_name(e));
    let n: u128 = (bytes as u128) * 10;
    let d: u128 = scale as u128;
    let q: u128 = n / d;
    let r: u128 = n % d;
    let tenths: u128 = if 2 * r > d || (2 * r == d && q % 2 == 1) {
        q + 1
    } else {
        q
    };
    assert(tenths as nat == round_half_even(bytes as nat * 10, unit_scale(e)));
    assert(tenths <= n);
    let whole: u64 = (tenths / 10) as u64;
    let fraction: u64 = (tenths % 10) as u64;
    push_decimal(&mut s, whole);
    if fraction != 0 {
        push_str(&mut s, ".");
        push_decimal(&mut s, fraction);
    }
    push_str(&mut s, " ");
    push_str(&mut s, unit);
    s
}

pub open spec fn age_text(seconds: nat) -> Seq<char> {
    if seconds < 60 {
        decimal(seconds) + "s"@
    } else if seconds < 3600 {
        decimal(seconds / 60) + "m"@
    } else if seconds < 86400 {
        decimal(seconds / 3600) + "h"@
    } else {
        decimal(seconds / 86400) + "d"@
    }
}

/// An age in its largest whole unit: seconds, minutes, hours or days.
pub fn format_age(seconds: u64) -> (s: String)
    ensures
        s@ == age_text(seconds as nat),
{
    let mut s = String::new();
    if seconds < 60 {
        push_decimal(&mut s, seconds);
        push_str(&mut s, "s");
    } else if seconds < 3600 {
        push_decimal(&mut s, seconds / 60);
        push_str(&mut s, "m");
    } else if seconds < 86400 {
        push_decimal(&mut s, seconds / 3600);
        push_str(&mut s, "h");
    } else {
        push_decimal(&mut s, seconds / 86400);
        push_str(&mut s, "d");
    }
    s
}

} // verus!
