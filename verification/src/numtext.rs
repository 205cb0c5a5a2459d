//! Decimal text for metric values.
//!
//! Gauge values live in the registry as their rendered decimal text. This
//! module renders unsigned integers and fixed-point percentages (thousandths
//! of a percent) as that text, so the sampling pipeline never needs any
//! other numeric representation.

use vstd::prelude::*;

verus! {

/// The decimal digit character for `d` (meaningful for `d < 10`).
pub open spec fn spec_digit(d: nat) -> char {
    if d == 0 {
        '0'
    } else if d == 1 {
        '1'
    } else if d == 2 {
        '2'
    } else if d == 3 {
        '3'
    } else if d == 4 {
        '4'
    } else if d == 5 {
        '5'
    } else if d == 6 {
        '6'
    } else if d == 7 {
        '7'
    } else if d == 8 {
        '8'
    } else {
        '9'
    }
}

/// The usual decimal notation of `n`: most significant digit first,
/// no leading zeros (except for `n == 0` itself).
pub open spec fn spec_decimal(n: nat) -> Seq<char>
    decreases n,
{
    if n < 10 {
        seq![spec_digit(n)]
    } else {
        spec_decimal(n / 10) + seq![spec_digit(n % 10)]
    }
}

/// The single decimal digit `d` as a string.
fn digit_text(d: u64) -> (s: &'static str)
    requires
        d < 10,
    ensures
        s@ == seq![spec_digit(d as nat)],
{
    proof {
        reveal_strlit("0");
        reveal_strlit("1");
        reveal_strlit("2");
        reveal_strlit("3");
        reveal_strlit("4");
        reveal_strlit("5");
        reveal_strlit("6");
        reveal_strlit("7");
        reveal_strlit("8");
        reveal_strlit("9");
    }
    let s: &'static str = match d {
        0 => "0",
        1 => "1",
        2 => "2",
        3 => "3",
        4 => "4",
        5 => "5",
        6 => "6",
        7 => "7",
        8 => "8",
        _ => "9",
    };
    proof {
        assert(s@ =~= seq![spec_digit(d as nat)]);
    }
    s
}

/// Renders `n` in decimal notation.
pub fn decimal_text(n: u64) -> (s: String)
    ensures
        s@ == spec_decimal(n as nat),
    decreases n,
{
    if n < 10 {
        digit_text(n).to_owned()
    } else {
        let prefix = decimal_text(n / 10);
        let s = prefix.concat(digit_text(n % 10));
        proof {
            assert(s@ =~= spec_decimal(n as nat));
        }
        s
    }
}

/// A percentage held in thousandths of a percent, rendered as decimal text:
/// the whole percent part, then a fractional part of up to three digits with
/// trailing zeros removed, and no fractional part at all when it is zero.
pub open spec fn spec_milli_percent_text(m: nat) -> Seq<char> {
    let whole = m / 1000;
    let frac = m % 1000;
    let d1 = spec_digit(frac / 100);
    let d2 = spec_digit((frac / 10) % 10);
    let d3 = spec_digit(frac % 10);
    if frac == 0 {
        spec_decimal(whole)
    } else if frac % 10 != 0 {
        spec_decimal(whole) + seq!['.', d1, d2, d3]
    } else if (frac / 10) % 10 != 0 {
        spec_decimal(whole) + seq!['.', d1, d2]
    } else {
        spec_decimal(whole) + seq!['.', d1]
    }
}

/// Renders a count of thousandths of a percent as a percentage, as
/// [`spec_milli_percent_text`] lays it out.
pub fn milli_percent_text(m: u64) -> (s: String)
    ensures
        s@ == spec_milli_percent_text(m as nat),
{
    let whole = m / 1000;
    let frac = m % 1000;
    let mut s = decimal_text(whole);
    if frac == 0 {
        s
    } else {
        proof {
            reveal_strlit(".");
        }
        s.append(".");
        s.append(digit_text(frac / 100));
        if frac % 10 != 0 {
            s.append(digit_text((frac / 10) % 10));
            s.append(digit_text(frac % 10));
        } else if (frac / 10) % 10 != 0 {
            s.append(digit_text((frac / 10) % 10));
        }
        proof {
            assert(s@ =~= spec_milli_percent_text(m as nat));
        }
        s
    }
}

/// Memory utilization as thousandths of a percent: `100_000 * used / total`,
/// rounded toward zero. A zero total is a degenerate sampler reading and
/// yields 0 rather than a division failure; a quotient beyond `u64::MAX`
/// saturates.
pub open spec fn spec_memory_milli_percent(used: nat, total: nat) -> nat {
    if total == 0 {
        0
    } else if used * 100000 / total > u64::MAX {
        u64::MAX as nat
    } else {
        used * 100000 / total
    }
}

/// Computes memory utilization in thousandths of a percent from the
/// sampler's byte counts, guarding the zero-total case.
pub fn memory_milli_percent(used: u64, total: u64) -> (r: u64)
    ensures
        r as nat == spec_memory_milli_percent(used as nat, total as nat),
{
    if total == 0 {
        0
    } else {
        let num: u128 = (used as u128) * 100000;
        let q: u128 = num / (total as u128);
        if q > u64::MAX as u128 {
            u64::MAX
        } else {
            q as u64
        }
    }
}

/// Memory utilization as percentage text: the composition of
/// [`memory_milli_percent`] and [`milli_percent_text`].
pub fn memory_percent_text(used: u64, total: u64) -> (s: String)
    ensures
        s@ == spec_milli_percent_text(spec_memory_milli_percent(used as nat, total as nat)),
{
    milli_percent_text(memory_milli_percent(used, total))
}

} // verus!
