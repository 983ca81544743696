//! Rendering a rate for people: a unit chosen by size, and two decimals.

use vstd::prelude::*;
use vstd::string::StringExecFns;

verus! {

/// Rates above this many bytes per second are shown in kilobytes per second.
pub const KILOBYTE: u64 = 1024;

/// Rates above this many bytes per second are shown in megabytes per second.
pub const MEGABYTE: u64 = 1_048_576;

/// The character of the decimal digit `digit`.
pub open spec fn digit_char(digit: nat) -> char
    recommends
        digit < 10,
{
    if digit == 0 {
        '0'
    } else if digit == 1 {
        '1'
    } else if digit == 2 {
        '2'
    } else if digit == 3 {
        '3'
    } else if digit == 4 {
        '4'
    } else if digit == 5 {
        '5'
    } else if digit == 6 {
        '6'
    } else if digit == 7 {
        '7'
    } else if digit == 8 {
        '8'
    } else {
        '9'
    }
}

/// The decimal numeral of `n`, without leading zeros.
pub open spec fn decimal(n: nat) -> Seq<char>
    decreases n,
{
    if n < 10 {
        seq![digit_char(n)]
    } else {
        decimal(n / 10).push(digit_char(n % 10))
    }
}

/// The quotient of `n` by `unit` in hundredths, rounded to the nearest
/// hundredth; a quotient halfway between two goes to the even one.
pub open spec fn hundredths(n: nat, unit: nat) -> nat
    recommends
        unit > 0,
{
    let quotient = n * 100 / unit;
    let rest = n * 100 % unit;
    if 2 * rest > unit || (2 * rest == unit && quotient % 2 == 1) {
        quotient + 1
    } else {
        quotient
    }
}

/// A number of hundredths written with a decimal point and two decimals.
pub open spec fn two_decimals(hundredths: nat) -> Seq<char> {
    decimal(hundredths / 100) + seq![
        '.',
        digit_char(hundredths % 100 / 10),
        digit_char(hundredths % 10),
    ]
}

/// The text for a rate of `rate` bytes per second: in megabytes per second
/// above `MEGABYTE`, in kilobytes per second above `KILOBYTE`, else in bytes
/// per second; two decimals, a space and the unit.
pub open spec fn human_readable_spec(rate: u64) -> Seq<char> {
    if rate > MEGABYTE {
        two_decimals(hundredths(rate as nat, MEGABYTE as nat)) + seq![' ', 'M', 'B', '/', 's']
    } else if rate > KILOBYTE {
        two_decimals(hundredths(rate as nat, KILOBYTE as nat)) + seq![' ', 'K', 'B', '/', 's']
    } else {
        two_decimals(rate as nat * 100) + seq![' ', 'B', '/', 's']
    }
}

/// The number that the decimal digit `c` stands for.
pub open spec fn digit_value(c: char) -> nat {
    if c == '1' {
        1
    } else if c == '2' {
        2
    } else if c == '3' {
        3
    } else if c == '4' {
        4
    } else if c == '5' {
        5
    } else if c == '6' {
        6
    } else if c == '7' {
        7
    } else if c == '8' {
        8
    } else if c == '9' {
        9
    } else {
        0
    }
}

/// The number that a row of decimal digits stands for, read from the left.
pub open spec fn numeral_value(digits: Seq<char>) -> nat
    decreases digits.len(),
{
    if digits.len() == 0 {
        0
    } else {
        numeral_value(digits.drop_last()) * 10 + digit_value(digits.last())
    }
}

/// A numeral reads back as its number: `decimal(n)` is a row of decimal
/// digits that stands for `n`, with no zero in front of another digit.
pub proof fn lemma_decimal_reads_back(n: nat)
    ensures
        numeral_value(decimal(n)) == n,
        decimal(n).len() >= 1,
        forall|i: int| 0 <= i < decimal(n).len() ==> '0' <= #[trigger] decimal(n)[i] <= '9',
        decimal(n).len() >= 2 ==> decimal(n)[0] != '0',
    decreases n,
{
    if n < 10 {
        assert(decimal(n).drop_last() =~= Seq::<char>::empty());
        assert(numeral_value(decimal(n)) == n) by {
            reveal_with_fuel(numeral_value, 2);
        }
    } else {
        let front = decimal(n / 10);
        lemma_decimal_reads_back(n / 10);
        assert(decimal(n).drop_last() =~= front);
        assert(decimal(n)[0] == front[0]);
        if front.len() == 1 {
            assert(front.drop_last() =~= Seq::<char>::empty());
            assert(numeral_value(front) == digit_value(front[0])) by {
                reveal_with_fuel(numeral_value, 2);
            }
        }
    }
}

/// Rounding goes to the nearest hundredth: `hundredths(n, unit)` hundredths of
/// `unit` lie within half a hundredth of `unit` from `n`, and exactly half a
/// hundredth away only where the hundredth is even.
pub proof fn lemma_hundredths_nearest(n: nat, unit: nat)
    requires
        unit > 0,
    ensures
        ({
            let off = hundredths(n, unit) * unit - n * 100;
            &&& -(unit as int) <= 2 * off <= unit
            &&& (2 * off == unit || 2 * off == -(unit as int)) ==> hundredths(n, unit) % 2 == 0
        }),
{
    let scaled = n * 100;
    let quotient = scaled / unit;
    let rest = scaled % unit;
    assert(scaled == quotient * unit + rest && 0 <= rest < unit) by (nonlinear_arith)
        requires
            unit > 0,
            quotient == scaled / unit,
            rest == scaled % unit,
    ;
    assert((quotient + 1) * unit == quotient * unit + unit) by (nonlinear_arith);
}

/// The one-character text of a decimal digit.
fn digit_text(digit: u64) -> (text: &'static str)
    requires
        digit < 10,
    ensures
        text@ == seq![digit_char(digit as nat)],
{
    proof {
        reveal_strlit("0");
        reveal_strlit("1");
        reveal_strlit("2");
        reveal_strlit("3");
        reveal_strlit("4");
        reveal_strlit("5");
        reveal_strlit("6");
        reveal_strlit("7");
        reveal_strlit("8");
        reveal_strlit("9");
    }
    let text: &'static str = if digit == 0 {
        "0"
    } else if digit == 1 {
        "1"
    } else if digit == 2 {
        "2"
    } else if digit == 3 {
        "3"
    } else if digit == 4 {
        "4"
    } else if digit == 5 {
        "5"
    } else if digit == 6 {
        "6"
    } else if digit == 7 {
        "7"
    } else if digit == 8 {
        "8"
    } else {
        "9"
    };
    assert(text@ =~= seq![digit_char(digit as nat)]);
    text
}

/// Appends the decimal numeral of `n` to `text`.
fn push_decimal(text: &mut String, n: u64)
    ensures
        final(text)@ == old(text)@ + decimal(n as nat),
    decreases n,
{
    if n >= 10 {
        push_decimal(text, n / 10);
    }
    text.append(digit_text(n % 10));
    assert(text@ =~= old(text)@ + decimal(n as nat));
}

/// Appends `hundredths` to `text`, written with two decimals.
fn push_two_decimals(text: &mut String, hundredths: u64)
    ensures
        final(text)@ == old(text)@ + two_decimals(hundredths as nat),
{
    push_decimal(text, hundredths / 100);
    proof {
        reveal_strlit(".");
    }
    text.append(".");
    text.append(digit_text(hundredths % 100 / 10));
    text.append(digit_text(hundredths % 10));
    assert(text@ =~= old(text)@ + two_decimals(hundredths as nat));
}

/// `n` divided by `unit`, in hundredths, rounded to the nearest with ties to
/// the even hundredth.
fn rounded_hundredths(n: u64, unit: u64) -> (result: u64)
    requires
        unit >= KILOBYTE,
    ensures
        result == hundredths(n as nat, unit as nat),
{
    let scaled: u128 = n as u128 * 100;
    let quotient: u128 = scaled / (unit as u128);
    let rest: u128 = scaled % (unit as u128);
    assert(quotient < u64::MAX) by (nonlinear_arith)
        requires
            quotient == scaled / (unit as u128),
            scaled <= u64::MAX * 100,
            unit >= 1024,
    ;
    if 2 * rest > unit as u128 || (2 * rest == unit as u128 && quotient % 2 == 1) {
        (quotient + 1) as u64
    } else {
        quotient as u64
    }
}

/// Renders a rate in bytes per second for display, as `human_readable_spec`
/// lays down.
pub fn human_readable(bytes_per_sec: u64) -> (text: String)
    ensures
        text@ == human_readable_spec(bytes_per_sec),
{
    let mut text: String = String::new();
    if bytes_per_sec > MEGABYTE {
        push_two_decimals(&mut text, rounded_hundredths(bytes_per_sec, MEGABYTE));
        proof {
            reveal_strlit(" MB/s");
        }
        text.append(" MB/s");
    } else if bytes_per_sec > KILOBYTE {
        push_two_decimals(&mut text, rounded_hundredths(bytes_per_sec, KILOBYTE));
        proof {
            reveal_strlit(" KB/s");
        }
        text.append(" KB/s");
    } else {
        push_two_decimals(&mut text, bytes_per_sec * 100);
        proof {
            reveal_strlit(" B/s");
        }
        text.append(" B/s");
    }
    assert(text@ =~= human_readable_spec(bytes_per_sec));
    text
}

} // verus!
