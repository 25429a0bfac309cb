//! Decimal digits of `u64` values: counting them, printing a number as a
//! string of digits, and trimming or padding a number to exactly ten digits.

use vstd::prelude::*;
use vstd::string::StringExecFns;

verus! {

/// `10^e`.
pub open spec fn pow10(e: nat) -> nat
    decreases e,
{
    if e == 0 {
        1
    } else {
        10 * pow10((e - 1) as nat)
    }
}

/// How many digits the decimal form of `n` has; `0` has one.
pub open spec fn n_digits(n: nat) -> nat
    decreases n,
{
    if n < 10 {
        1
    } else {
        1 + n_digits(n / 10)
    }
}

/// The digit character for a value below ten.
pub open spec fn digit_char(d: nat) -> char {
    if d == 0 {
        '0'
    } else if d == 1 {
        '1'
    } else if d == 2 {
        '2'
    } else if d == 3 {
        '3'
    } else if d == 4 {
        '4'
    } else if d == 5 {
        '5'
    } else if d == 6 {
        '6'
    } else if d == 7 {
        '7'
    } else if d == 8 {
        '8'
    } else {
        '9'
    }
}

/// The decimal form of `n` as a sequence of digit characters, most
/// significant first, without leading zeros (`0` reads as `"0"`).
pub open spec fn dec_str(n: nat) -> Seq<char>
    decreases n,
{
    if n < 10 {
        seq![digit_char(n)]
    } else {
        dec_str(n / 10).push(digit_char(n % 10))
    }
}

/// `n` trimmed or padded to ten digits: a longer number keeps only its
/// last ten digits, a shorter one is padded on the right with zeros.
pub open spec fn ten_digit(n: nat) -> nat {
    if n >= pow10(10) {
        n % pow10(10)
    } else {
        n * pow10((10 - n_digits(n)) as nat)
    }
}

/// `10^e` as a `u64`; the exponent may reach 19, the largest power of ten
/// a `u64` can hold.
pub fn pow10_u64(e: u32) -> (r: u64)
    requires
        e <= 19,
    ensures
        r == pow10(e as nat),
{
    let mut r: u64 = 1;
    let mut k: u32 = 0;
    proof {
        lemma_pow10_bounds();
        lemma_pow10_monotonic(e as nat, 19);
    }
    while k < e
        invariant
            k <= e <= 19,
            r == pow10(k as nat),
            pow10(e as nat) <= pow10(19) < u64::MAX,
        decreases e - k,
    {
        proof {
            lemma_pow10_monotonic((k + 1) as nat, e as nat);
        }
        r = r * 10;
        k = k + 1;
    }
    r
}

/// How many digits the decimal form of `num` has.
pub fn digits_len(num: u64) -> (r: u32)
    ensures
        r == n_digits(num as nat),
        1 <= r <= 20,
{
    let mut n = num;
    let mut len: u32 = 1;
    proof {
        lemma_n_digits_le_20(num as nat);
    }
    while n >= 10
        invariant
            len + n_digits(n as nat) == 1 + n_digits(num as nat),
            1 <= len,
            n_digits(num as nat) <= 20,
            n <= num,
        decreases n,
    {
        n = n / 10;
        len = len + 1;
    }
    len
}

/// The digit character of a value below ten, as a one-character string.
fn digit_str(d: u64) -> (r: &'static str)
    requires
        d < 10,
    ensures
        r@.len() == 1,
        r@[0] == digit_char(d as nat),
{
    proof {
        reveal_strlit("0");
        reveal_strlit("1");
        reveal_strlit("2");
        reveal_strlit("3");
        reveal_strlit("4");
        reveal_strlit("5");
        reveal_strlit("6");
        reveal_strlit("7");
        reveal_strlit("8");
        reveal_strlit("9");
    }
    if d == 0 {
        "0"
    } else if d == 1 {
        "1"
    } else if d == 2 {
        "2"
    } else if d == 3 {
        "3"
    } else if d == 4 {
        "4"
    } else if d == 5 {
        "5"
    } else if d == 6 {
        "6"
    } else if d == 7 {
        "7"
    } else if d == 8 {
        "8"
    } else {
        "9"
    }
}

/// ### u64_to_string(x)
///
/// The decimal form of `x` as a string: digits only, most significant
/// first, no leading zeros.
pub fn u64_to_string(x: u64) -> (r: String)
    ensures
        r@ == dec_str(x as nat),
    decreases x,
{
    if x < 10 {
        let s = digit_str(x);
        let r = s.to_owned();
        proof {
            assert(r@ =~= dec_str(x as nat));
        }
        r
    } else {
        let mut r = u64_to_string(x / 10);
        r.append(digit_str(x % 10));
        proof {
            assert(r@ =~= dec_str(x as nat));
        }
        r
    }
}

/// ### format_number_10d(num)
///
/// `num` fitted to exactly ten digits. A number of more than ten digits
/// keeps only its last ten (so leading zeros among them may then vanish
/// from its value); a shorter one is padded on the right with zeros.
pub fn format_number_10d(num: u64) -> (r: u64)
    ensures
        r == ten_digit(num as nat),
{
    proof {
        lemma_pow10_bounds();
    }
    let bound = pow10_u64(10);
    if num >= bound {
        num % bound
    } else {
        let len = digits_len(num);
        proof {
            lemma_digits_within(num as nat, 10);
            lemma_num_below_pow10(num as nat);
            lemma_pow10_adds(n_digits(num as nat), (10 - n_digits(num as nat)) as nat);
            lemma_mul_bound(
                num as nat,
                pow10(n_digits(num as nat)),
                pow10((10 - n_digits(num as nat)) as nat),
            );
        }
        num * pow10_u64(10 - len)
    }
}

/// `pow10` never shrinks as the exponent grows.
pub(crate) proof fn lemma_pow10_monotonic(a: nat, b: nat)
    requires
        a <= b,
    ensures
        pow10(a) <= pow10(b),
    decreases b,
{
    if a < b {
        lemma_pow10_monotonic(a, (b - 1) as nat);
    }
}

/// The concrete values of `pow10` at 19 and at 10.
proof fn lemma_pow10_bounds()
    ensures
        pow10(19) == 10000000000000000000,
        pow10(10) == 10000000000,
{
    reveal_with_fuel(pow10, 20);
}

/// Powers of ten multiply by adding exponents.
proof fn lemma_pow10_adds(a: nat, b: nat)
    ensures
        pow10(a) * pow10(b) == pow10((a + b) as nat),
    decreases a,
{
    if a == 0 {
        assert(pow10(0) == 1);
        assert(1 * pow10(b) == pow10(b)) by (nonlinear_arith);
    } else {
        lemma_pow10_adds((a - 1) as nat, b);
        assert(pow10(a) * pow10(b) == 10 * (pow10((a - 1) as nat) * pow10(b)))
            by (nonlinear_arith)
            requires pow10(a) == 10 * pow10((a - 1) as nat);
    }
}

/// Every number sits below ten to the power of its digit count.
proof fn lemma_num_below_pow10(n: nat)
    ensures
        n < pow10(n_digits(n)),
    decreases n,
{
    if n < 10 {
        reveal_with_fuel(pow10, 2);
        assert(n_digits(n) == 1);
    } else {
        lemma_num_below_pow10(n / 10);
        assert(n < 10 * pow10(n_digits(n / 10))) by (nonlinear_arith)
            requires n / 10 < pow10(n_digits(n / 10)), n >= 10;
        assert(n_digits(n) == 1 + n_digits(n / 10));
        assert(pow10(n_digits(n)) == 10 * pow10(n_digits(n / 10)));
    }
}

/// A number of at most 20 digits: every `u64` value.
proof fn lemma_n_digits_le_20(n: nat)
    ensures
        n < pow10(20) ==> n_digits(n) <= 20,
        pow10(20) > 0xffff_ffff_ffff_ffff,
{
    reveal_with_fuel(pow10, 21);
    if n < pow10(20) {
        lemma_digits_within(n, 20);
    }
}

/// Below `10^e` there are at most `e` digits (for positive `e`).
pub(crate) proof fn lemma_digits_within(n: nat, e: nat)
    requires
        e >= 1,
        n < pow10(e),
    ensures
        n_digits(n) <= e,
    decreases n,
{
    if n >= 10 {
        assert(n / 10 < pow10((e - 1) as nat)) by (nonlinear_arith)
            requires n < 10 * pow10((e - 1) as nat), n >= 10;
        lemma_digits_within(n / 10, (e - 1) as nat);
    }
}

/// Every power of ten is positive.
pub(crate) proof fn lemma_pow10_pos(e: nat)
    ensures
        pow10(e) >= 1,
{
    lemma_pow10_monotonic(0, e);
}

/// The concrete values of the small powers of ten.
pub(crate) proof fn lemma_pow10_small()
    ensures
        pow10(0) == 1,
        pow10(1) == 10,
        pow10(2) == 100,
        pow10(3) == 1000,
        pow10(4) == 10000,
        pow10(5) == 100000,
        pow10(6) == 1000000,
{
    reveal_with_fuel(pow10, 7);
}

/// A number bounded by two adjacent powers of ten has exactly `e` digits.
pub(crate) proof fn lemma_digits_of_bounds(n: nat, e: nat)
    requires
        e >= 1,
        pow10((e - 1) as nat) <= n < pow10(e),
    ensures
        n_digits(n) == e,
    decreases e,
{
    if e == 1 {
        reveal_with_fuel(pow10, 2);
    } else {
        assert(pow10(e) == 10 * pow10((e - 1) as nat));
        assert(pow10((e - 1) as nat) == 10 * pow10((e - 2) as nat));
        lemma_pow10_pos((e - 2) as nat);
        assert(n / 10 < pow10((e - 1) as nat)) by (nonlinear_arith)
            requires n < 10 * pow10((e - 1) as nat);
        assert(n / 10 >= pow10((e - 2) as nat)) by (nonlinear_arith)
            requires n >= 10 * pow10((e - 2) as nat);
        lemma_digits_of_bounds(n / 10, (e - 1) as nat);
        assert(n >= 10);
    }
}

/// A product stays within the product of the factors' bounds.
proof fn lemma_mul_bound(x: nat, a: nat, b: nat)
    requires
        x < a,
    ensures
        x * b <= a * b,
{
    assert(x * b <= a * b) by (nonlinear_arith)
        requires x < a;
}

} // verus!
