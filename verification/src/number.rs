//! Decimal numbers, written and read.

use vstd::prelude::*;

verus! {

/// The digit of a value below ten.
pub open spec fn digit_char(d: nat) -> char {
    (('0' as u32) + d) as char
}

/// Whether a character is one of `0` to `9`.
pub open spec fn is_digit(c: char) -> bool {
    '0' <= c <= '9'
}

/// The value of a decimal digit.
pub open spec fn digit_value(c: char) -> nat {
    ((c as u32) - ('0' as u32)) as nat
}

/// A number in decimal, without leading zeros.
pub open spec fn decimal(n: nat) -> Seq<char>
    decreases n,
{
    if n < 10 {
        seq![digit_char(n)]
    } else {
        decimal(n / 10).push(digit_char(n % 10))
    }
}

/// The value of a run of decimal digits.
pub open spec fn digits_value(s: Seq<char>) -> nat
    decreases s.len(),
{
    if s.len() == 0 {
        0
    } else {
        10 * digits_value(s.drop_last()) + digit_value(s.last())
    }
}

/// Whether every character is a decimal digit.
pub open spec fn all_digits(s: Seq<char>) -> bool {
    forall|i: int| 0 <= i < s.len() ==> is_digit(#[trigger] s[i])
}

/// A text without the one plus sign that may stand before the digits.
pub open spec fn unsigned(s: Seq<char>) -> Seq<char> {
    if s.len() > 0 && s[0] == '+' {
        s.drop_first()
    } else {
        s
    }
}

/// The number that a text stands for: an optional plus sign, then at least one digit and nothing
/// else, with a value that fits.
pub open spec fn parsed_u32(s: Seq<char>) -> Option<u32> {
    let digits = unsigned(s);
    if digits.len() > 0 && all_digits(digits) && digits_value(digits) <= u32::MAX {
        Some(digits_value(digits) as u32)
    } else {
        None
    }
}

/// The digit of a value below ten.
fn digit(d: u64) -> (r: char)
    requires
        d < 10,
    ensures
        r == digit_char(d as nat),
{
    match d {
        0 => '0',
        1 => '1',
        2 => '2',
        3 => '3',
        4 => '4',
        5 => '5',
        6 => '6',
        7 => '7',
        8 => '8',
        _ => '9',
    }
}

/// Writes a number in decimal.
pub fn to_decimal(n: u64) -> (r: String)
    ensures
        r@ == decimal(n as nat),
    decreases n,
{
    let mut out = if n < 10 {
        String::new()
    } else {
        to_decimal(n / 10)
    };
    out.push(digit(n % 10));
    assert(n < 10 ==> out@ =~= decimal(n as nat));
    out
}

/// Reads a decimal number.
pub fn parse_u32(s: &[char]) -> (r: Option<u32>)
    ensures
        r == parsed_u32(s@),
{
    let start: usize = if s.len() > 0 && s[0] == '+' {
        1
    } else {
        0
    };
    let ghost digits = unsigned(s@);
    assert(digits =~= s@.skip(start as int));
    if start == s.len() {
        return None;
    }
    let mut value: u64 = 0;
    for i in start..s.len()
        invariant
            start <= 1,
            digits == unsigned(s@),
            digits == s@.skip(start as int),
            digits.len() == s@.len() - start,
            value == digits_value(digits.take(i - start)),
            value <= u32::MAX,
            forall|k: int| 0 <= k < i - start ==> is_digit(#[trigger] digits[k]),
    {
        let c = s[i];
        assert(digits[i - start] == c);
        if !('0' <= c && c <= '9') {
            return None;
        }
        assert(digits.take(i - start + 1).drop_last() =~= digits.take(i - start));
        value = 10 * value + ((c as u32) - ('0' as u32)) as u64;
        if value > u32::MAX as u64 {
            proof {
                lemma_value_grows(digits, i - start + 1);
            }
            return None;
        }
    }
    assert(digits.take(digits.len() as int) =~= digits);
    Some(value as u32)
}

/// A longer run of digits never has a smaller value.
proof fn lemma_value_grows(s: Seq<char>, n: int)
    requires
        0 <= n <= s.len(),
    ensures
        digits_value(s.take(n)) <= digits_value(s),
    decreases s.len(),
{
    if n < s.len() {
        lemma_value_grows(s.drop_last(), n);
        assert(s.drop_last().take(n) =~= s.take(n));
    } else {
        assert(s.take(n) =~= s);
    }
}

/// A number in decimal is a run of digits, at least one, with the value that it was made from and
/// no zero before it.
pub proof fn law_decimal_digits(n: nat)
    ensures
        decimal(n).len() > 0,
        all_digits(decimal(n)),
        digits_value(decimal(n)) == n,
        n > 0 ==> decimal(n)[0] != '0',
    decreases n,
{
    if n >= 10 {
        law_decimal_digits(n / 10);
        assert(decimal(n).drop_last() =~= decimal(n / 10));
        assert(is_digit(digit_char(n % 10)));
        assert(digit_value(digit_char(n % 10)) == n % 10);
    } else {
        assert(decimal(n).drop_last() =~= Seq::<char>::empty());
        assert(digits_value(Seq::<char>::empty()) == 0);
        assert(is_digit(digit_char(n)));
        assert(digit_value(digit_char(n)) == n);
    }
}

/// Reading a number that was written in decimal gives it back.
pub proof fn law_decimal_round_trip(n: u32)
    ensures
        parsed_u32(decimal(n as nat)) == Some(n),
{
    law_decimal_digits(n as nat);
    let s = decimal(n as nat);
    assert(is_digit(s[0]));
    assert(unsigned(s) == s);
}

/// The ten digits stand for the values below ten.
pub proof fn law_digits()
    ensures
        decimal(0) == seq!['0'],
        decimal(1) == seq!['1'],
        decimal(2) == seq!['2'],
        decimal(3) == seq!['3'],
        decimal(4) == seq!['4'],
        decimal(5) == seq!['5'],
        decimal(6) == seq!['6'],
        decimal(7) == seq!['7'],
        decimal(8) == seq!['8'],
        decimal(9) == seq!['9'],
{
}

/// Different numbers are written differently.
pub proof fn law_decimals_differ(a: nat, b: nat)
    requires
        decimal(a) == decimal(b),
    ensures
        a == b,
{
    law_decimal_digits(a);
    law_decimal_digits(b);
}

/// One more digit behind a number makes it ten times as large and adds the digit, as long as the
/// result fits. A plus sign before a number changes nothing, and any other character makes it no
/// number.
pub proof fn law_parsed_digit_by_digit(s: Seq<char>, c: char)
    ensures
        parsed_u32(Seq::empty()) is None,
        '0' <= c <= '9' ==> parsed_u32(seq![c]) == Some((c as u32 - '0' as u32) as u32),
        '0' <= c <= '9' && s.len() > 0 && s.last() != '+' ==> parsed_u32(s.push(c)) == match parsed_u32(
            s,
        ) {
            Some(n) => if 10 * n + (c as u32 - '0' as u32) <= u32::MAX {
                Some((10 * n + (c as u32 - '0' as u32)) as u32)
            } else {
                None
            },
            None => None,
        },
        !('0' <= c <= '9') ==> parsed_u32(s.push(c)) is None,
        s.len() > 0 && s[0] != '+' ==> parsed_u32(seq!['+'] + s) == parsed_u32(s),
{
    let pushed = s.push(c);
    assert(unsigned(Seq::<char>::empty()).len() == 0);
    if '0' <= c <= '9' {
        let one = seq![c];
        assert(unsigned(one) == one);
        assert(one.drop_last() =~= Seq::<char>::empty());
        assert(digits_value(Seq::<char>::empty()) == 0);
        assert(digits_value(one) == digit_value(c));
        assert(all_digits(one));
    }
    if s.len() > 0 {
        let digits = unsigned(s);
        assert(pushed[0] == s[0]);
        assert(unsigned(pushed) =~= digits.push(c));
        assert(digits.push(c).drop_last() =~= digits);
        assert(digits.push(c)[digits.len() as int] == c);
        if '0' <= c <= '9' && s.last() != '+' {
            assert(digits.len() > 0);
            if all_digits(digits) {
                assert(all_digits(digits.push(c)));
            } else {
                let k = choose|k: int| 0 <= k < digits.len() && !is_digit(#[trigger] digits[k]);
                assert(digits.push(c)[k] == digits[k]);
            }
        }
        if s[0] != '+' {
            assert((seq!['+'] + s).drop_first() =~= s);
        }
    } else {
        assert(pushed =~= seq![c]);
        assert(pushed[0] == c);
        if c == '+' {
            assert(unsigned(pushed) =~= Seq::<char>::empty());
        } else {
            assert(unsigned(pushed) == pushed);
        }
    }
}

} // verus!
