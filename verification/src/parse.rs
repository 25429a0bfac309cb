//! Reading a `u64` out of a decimal string, and the law that printing a
//! number and parsing it back returns the number.

use vstd::prelude::*;
use crate::decimal::dec_str;
use crate::decimal::digit_char;

verus! {

/// The value of a digit character, or 10 for any other character.
pub open spec fn digit_val(c: char) -> nat {
    if c == '0' {
        0
    } else if c == '1' {
        1
    } else if c == '2' {
        2
    } else if c == '3' {
        3
    } else if c == '4' {
        4
    } else if c == '5' {
        5
    } else if c == '6' {
        6
    } else if c == '7' {
        7
    } else if c == '8' {
        8
    } else if c == '9' {
        9
    } else {
        10
    }
}

/// Whether `c` is a decimal digit.
pub open spec fn is_digit(c: char) -> bool {
    digit_val(c) < 10
}

/// Whether every character of `s` is a decimal digit.
pub open spec fn all_digits(s: Seq<char>) -> bool {
    forall|i: int| 0 <= i < s.len() ==> is_digit(s[i])
}

/// The number that a sequence of digit characters denotes.
pub open spec fn digits_value(s: Seq<char>) -> nat
    decreases s.len(),
{
    if s.len() == 0 {
        0
    } else {
        digits_value(s.drop_last()) * 10 + digit_val(s.last())
    }
}

/// `s` with one leading `+` removed, if it has one.
pub open spec fn strip_plus(s: Seq<char>) -> Seq<char> {
    if s.len() > 0 && s[0] == '+' {
        s.subrange(1, s.len() as int)
    } else {
        s
    }
}

/// The strings that parse as a `u64`: an optional leading `+`, then one
/// or more decimal digits, denoting a value that fits in a `u64`.
pub open spec fn u64_parse_accepts(s: Seq<char>) -> bool {
    let t = strip_plus(s);
    t.len() > 0 && all_digits(t) && digits_value(t) <= u64::MAX
}

#[verifier::external_type_specification]
#[verifier::external_body]
pub struct ExParseIntError(std::num::ParseIntError);

/// ### string_to_u64(s)
///
/// Parses `s` as a decimal `u64`, `Ok` exactly on an optional leading `+`
/// followed by one or more digits whose value fits in a `u64`.
///
/// Relies on `str::parse::<u64>`: it accepts an optional leading `+` sign
/// followed by one or more decimal digits, returns their value when it
/// fits in a `u64`, and reports an error on any other input, overflow
/// included.
#[verifier::external_body]
pub fn string_to_u64(s: String) -> (r: Result<u64, std::num::ParseIntError>)
    ensures
        r is Ok <==> u64_parse_accepts(s@),
        r is Ok ==> r->Ok_0 == digits_value(strip_plus(s@)),
{
    s.parse::<u64>()
}

/// The decimal form of a number is made of digits and reads back as the
/// number itself.
proof fn lemma_dec_str_value(n: nat)
    ensures
        dec_str(n).len() >= 1,
        all_digits(dec_str(n)),
        digits_value(dec_str(n)) == n,
    decreases n,
{
    if n < 10 {
        let s = dec_str(n);
        assert(s.drop_last() =~= Seq::<char>::empty());
        assert(digits_value(Seq::<char>::empty()) == 0);
        assert(digit_val(digit_char(n)) == n);
    } else {
        lemma_dec_str_value(n / 10);
        let s = dec_str(n / 10);
        let t = s.push(digit_char(n % 10));
        assert(t.drop_last() =~= s);
        assert(digit_val(digit_char((n % 10) as nat)) == n % 10);
        assert(digits_value(t) == (n / 10) * 10 + n % 10);
        assert(forall|i: int| 0 <= i < t.len() ==> is_digit(t[i])) by {
            assert(forall|i: int| 0 <= i < s.len() ==> is_digit(#[trigger] t[i]) && t[i] == s[i]);
            assert(t[s.len() as int] == digit_char((n % 10) as nat));
        }
    }
}

/// Law: printing a `u64` in decimal and parsing the result back succeeds
/// and returns the same number. Over the contracts of [`u64_to_string`]
/// and [`string_to_u64`]: the printed string is accepted by the parser,
/// and its parsed value is the number itself.
///
/// [`u64_to_string`]: crate::decimal::u64_to_string
pub proof fn lemma_print_parse_round_trip(n: u64)
    ensures
        u64_parse_accepts(dec_str(n as nat)),
        digits_value(strip_plus(dec_str(n as nat))) == n,
{
    lemma_dec_str_value(n as nat);
    let s = dec_str(n as nat);
    assert(is_digit(s[0]));
    assert(s[0] != '+');
    assert(strip_plus(s) == s);
}

} // verus!
