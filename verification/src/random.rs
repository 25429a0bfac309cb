//! Clock-seeded number generation: a ten-digit stamp built from the
//! parts of a clock reading, and a pseudo-random number of a requested
//! digit count.

use vstd::prelude::*;
use crate::clock::get_millis;
use crate::clock::get_nanos;
use crate::clock::get_second;
use crate::decimal::dec_str;
use crate::decimal::digits_len;
use crate::decimal::format_number_10d;
use crate::decimal::lemma_digits_of_bounds;
use crate::decimal::lemma_digits_within;
use crate::decimal::lemma_pow10_monotonic;
use crate::decimal::lemma_pow10_pos;
use crate::decimal::lemma_pow10_small;
use crate::decimal::n_digits;
use crate::decimal::pow10;
use crate::decimal::pow10_u64;
use crate::decimal::ten_digit;
use crate::decimal::u64_to_string;

verus! {

/// The number read off the decimal forms of the three clock parts
/// written one after the other: nanoseconds, then milliseconds, then
/// seconds.
pub open spec fn clock_stamp(n: nat, m: nat, s: nat) -> nat {
    n * pow10((n_digits(m) + n_digits(s)) as nat) + m * pow10(n_digits(s)) + s
}

/// The stamp string for one clock reading: the three parts written one
/// after the other, fitted to ten digits, in decimal.
pub fn format_clock_parts(nanos: u64, millis: u64, second: u64) -> (r: String)
    requires
        nanos < 1000000,
        millis < 1000,
        second < 60,
    ensures
        r@ == dec_str(ten_digit(clock_stamp(nanos as nat, millis as nat, second as nat))),
{
    proof {
        lemma_pow10_small();
        lemma_digits_within(millis as nat, 3);
        lemma_digits_within(second as nat, 2);
    }
    let lm = digits_len(millis);
    let ls = digits_len(second);
    proof {
        lemma_pow10_monotonic((lm + ls) as nat, 5);
        lemma_pow10_monotonic(ls as nat, 2);
    }
    let t1 = pow10_u64(lm + ls);
    let t2 = pow10_u64(ls);
    proof {
        assert((nanos as nat) * (t1 as nat) <= 999999 * 100000) by (nonlinear_arith)
            requires nanos <= 999999, t1 <= 100000;
        assert((millis as nat) * (t2 as nat) <= 999 * 100) by (nonlinear_arith)
            requires millis <= 999, t2 <= 100;
    }
    let num = nanos * t1 + millis * t2 + second;
    let fitted = format_number_10d(num);
    u64_to_string(fitted)
}

/// ### formatted()
///
/// A ten-digit stamp of the current clock reading, as a string: the
/// nanosecond, millisecond and second parts of the reading written one
/// after the other and fitted to ten digits.
pub fn formatted() -> (r: String)
    ensures
        exists|n: nat, m: nat, s: nat|
            n < 1000000 && m < 1000 && s < 60 && r@ == dec_str(
                ten_digit(#[trigger] clock_stamp(n, m, s)),
            ),
{
    let n = get_nanos();
    let m = get_millis();
    let s = get_second();
    let r = format_clock_parts(n, m, s);
    proof {
        assert((n as nat) < 1000000 && (m as nat) < 1000 && (s as nat) < 60 && r@ == dec_str(
            ten_digit(clock_stamp(n as nat, m as nat, s as nat)),
        ));
    }
    r
}

/// The digit count that a generated number of requested `size` has: the
/// request, capped at 19, the widest a `u64` can hold.
pub open spec fn capped_digits(size: nat) -> nat {
    if size > 19 {
        19
    } else {
        size
    }
}

/// ### rand(size)
///
/// A pseudo-random number of exactly `size` decimal digits, seeded from
/// the system clock. A request past 19 digits is capped at 19 so the
/// result fits in a `u64`; a request of zero returns zero.
pub fn rand(size: usize) -> (r: u64)
    ensures
        size == 0 ==> r == 0,
        size >= 1 ==> n_digits(r as nat) == capped_digits(size as nat),
{
    if size == 0 {
        return 0;
    }
    let sz: u32 = if size > 19 {
        19
    } else {
        size as u32
    };
    let lo = pow10_u64(sz - 1);
    let hi = pow10_u64(sz);
    proof {
        assert(pow10(sz as nat) == 10 * pow10((sz - 1) as nat));
        lemma_pow10_pos((sz - 1) as nat);
    }
    let span = hi - lo;
    let n = get_nanos();
    let m = get_millis();
    let s = get_second();
    let seed = n * 60000 + m * 60 + s;
    let r = lo + seed % span;
    proof {
        lemma_digits_of_bounds(r as nat, sz as nat);
    }
    r
}

} // verus!
