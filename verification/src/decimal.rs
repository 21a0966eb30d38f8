//! Base-10 text of an integer: written, as it goes into generated tokens, and read,
//! as the bounds of a range are.

use vstd::prelude::*;
use vstd::std_specs::iter::IteratorSpec;
use vstd::string::StringExecFns;

verus! {

/// The character that stands for the digit `d`, for `0 <= d <= 9`.
pub open spec fn digit_char(d: int) -> char {
    if d == 0 {
        '0'
    } else if d == 1 {
        '1'
    } else if d == 2 {
        '2'
    } else if d == 3 {
        '3'
    } else if d == 4 {
        '4'
    } else if d == 5 {
        '5'
    } else if d == 6 {
        '6'
    } else if d == 7 {
        '7'
    } else if d == 8 {
        '8'
    } else {
        '9'
    }
}

/// The digits of `n` in base 10, most significant first, without leading zeros.
pub open spec fn decimal_digits(n: nat) -> Seq<char>
    decreases n,
{
    if n < 10 {
        seq![digit_char(n as int)]
    } else {
        decimal_digits(n / 10).push(digit_char((n % 10) as int))
    }
}

/// The base-10 text of `n`: its digits, after a minus sign where `n` is negative.
pub open spec fn decimal(n: int) -> Seq<char> {
    if n < 0 {
        seq!['-'] + decimal_digits((-n) as nat)
    } else {
        decimal_digits(n as nat)
    }
}

fn digit_text(d: u64) -> (r: &'static str)
    requires
        d < 10,
    ensures
        r@ == seq![digit_char(d as int)],
{
    proof {
        reveal_strlit("0");
        reveal_strlit("1");
        reveal_strlit("2");
        reveal_strlit("3");
        reveal_strlit("4");
        reveal_strlit("5");
        reveal_strlit("6");
        reveal_strlit("7");
        reveal_strlit("8");
        reveal_strlit("9");
    }
    let r = if d == 0 {
        "0"
    } else if d == 1 {
        "1"
    } else if d == 2 {
        "2"
    } else if d == 3 {
        "3"
    } else if d == 4 {
        "4"
    } else if d == 5 {
        "5"
    } else if d == 6 {
        "6"
    } else if d == 7 {
        "7"
    } else if d == 8 {
        "8"
    } else {
        "9"
    };
    assert(r@ =~= seq![digit_char(d as int)]);
    r
}

fn digits_text(n: u64) -> (r: String)
    ensures
        r@ == decimal_digits(n as nat),
    decreases n,
{
    if n < 10 {
        String::from_str(digit_text(n))
    } else {
        let mut text = digits_text(n / 10);
        text.append(digit_text(n % 10));
        assert(text@ =~= decimal_digits(n as nat));
        text
    }
}

/// Writes `n` in base 10: `0`, `17`, `-3`.
pub fn decimal_text(n: i64) -> (r: String)
    ensures
        r@ == decimal(n as int),
{
    if n < 0 {
        let magnitude: u64 = if n == i64::MIN {
            9223372036854775808u64
        } else {
            (-n) as u64
        };
        let mut text = String::from_str("-");
        let digits = digits_text(magnitude);
        text.append(digits.as_str());
        proof {
            reveal_strlit("-");
            assert(text@ =~= decimal(n as int));
        }
        text
    } else {
        digits_text(n as u64)
    }
}

/// The digit that a character stands for, if it is one of `0` to `9`.
pub open spec fn digit_of(c: char) -> Option<int> {
    if c == '0' {
        Some(0)
    } else if c == '1' {
        Some(1)
    } else if c == '2' {
        Some(2)
    } else if c == '3' {
        Some(3)
    } else if c == '4' {
        Some(4)
    } else if c == '5' {
        Some(5)
    } else if c == '6' {
        Some(6)
    } else if c == '7' {
        Some(7)
    } else if c == '8' {
        Some(8)
    } else if c == '9' {
        Some(9)
    } else {
        None
    }
}

/// The number that is read when `digits` follow a number `read` so far: each digit
/// makes it ten times what it was, plus the digit. Anything but a digit spoils it.
pub open spec fn number_from(digits: Seq<char>, read: int) -> Option<int>
    decreases digits.len(),
{
    if digits.len() == 0 {
        Some(read)
    } else {
        match digit_of(digits[0]) {
            Some(digit) => number_from(digits.drop_first(), read * 10 + digit),
            None => None,
        }
    }
}

/// The number that a text of one or more digits stands for.
pub open spec fn number_of(digits: Seq<char>) -> Option<int> {
    if digits.len() == 0 {
        None
    } else {
        number_from(digits, 0)
    }
}

/// The integer that `text` stands for: one or more digits, with or without a `-` or
/// a `+` in front of them.
pub open spec fn integer_of(text: Seq<char>) -> Option<int> {
    if text.len() > 0 && text[0] == '-' {
        match number_of(text.drop_first()) {
            Some(number) => Some(-number),
            None => None,
        }
    } else if text.len() > 0 && text[0] == '+' {
        number_of(text.drop_first())
    } else {
        number_of(text)
    }
}

/// The integer as an `i64`, where there is one and it fits.
pub open spec fn fitting(integer: Option<int>) -> Option<i64> {
    match integer {
        Some(value) => if i64::MIN <= value <= i64::MAX {
            Some(value as i64)
        } else {
            None
        },
        None => None,
    }
}

/// Reading more digits never makes the number smaller.
pub proof fn lemma_number_grows(digits: Seq<char>, read: int)
    requires
        0 <= read,
    ensures
        number_from(digits, read) matches Some(number) ==> read <= number,
    decreases digits.len(),
{
    if digits.len() > 0 {
        match digit_of(digits[0]) {
            Some(digit) => {
                lemma_number_grows(digits.drop_first(), read * 10 + digit);
            },
            None => {},
        }
    }
}

/// A digit more at the end makes the number ten times what it was, plus the digit.
pub proof fn lemma_number_with_one_more(digits: Seq<char>, read: int, last: char)
    ensures
        number_from(digits.push(last), read) == match (number_from(digits, read), digit_of(last)) {
            (Some(number), Some(digit)) => Some(number * 10 + digit),
            _ => None,
        },
    decreases digits.len(),
{
    let longer = digits.push(last);
    if digits.len() == 0 {
        assert(longer.drop_first() =~= Seq::<char>::empty());
        reveal_with_fuel(number_from, 2);
    } else {
        assert(longer[0] == digits[0]);
        assert(longer.drop_first() =~= digits.drop_first().push(last));
        match digit_of(digits[0]) {
            Some(digit) => {
                lemma_number_with_one_more(digits.drop_first(), read * 10 + digit, last);
            },
            None => {},
        }
    }
}

/// The digits of a number read back give the number, and begin with a digit.
pub proof fn lemma_digits_read_back(n: nat)
    ensures
        decimal_digits(n).len() > 0,
        digit_of(decimal_digits(n)[0]) is Some,
        number_of(decimal_digits(n)) == Some(n as int),
    decreases n,
{
    if n < 10 {
        reveal_with_fuel(number_from, 2);
        assert(decimal_digits(n).drop_first() =~= Seq::<char>::empty());
    } else {
        lemma_digits_read_back(n / 10);
        lemma_number_with_one_more(decimal_digits(n / 10), 0, digit_char((n % 10) as int));
        assert(decimal_digits(n)[0] == decimal_digits(n / 10)[0]);
    }
}

/// What is written is read back: the decimal text of an integer stands for that
/// integer.
pub proof fn lemma_decimal_reads_back(n: int)
    ensures
        integer_of(decimal(n)) == Some(n),
{
    if n < 0 {
        lemma_digits_read_back((-n) as nat);
        assert(decimal(n).drop_first() =~= decimal_digits((-n) as nat));
    } else {
        lemma_digits_read_back(n as nat);
    }
}

fn digit_value(c: char) -> (r: Option<u128>)
    ensures
        match r {
            Some(digit) => digit_of(c) == Some(digit as int) && digit <= 9,
            None => digit_of(c) is None,
        },
{
    if c == '0' {
        Some(0)
    } else if c == '1' {
        Some(1)
    } else if c == '2' {
        Some(2)
    } else if c == '3' {
        Some(3)
    } else if c == '4' {
        Some(4)
    } else if c == '5' {
        Some(5)
    } else if c == '6' {
        Some(6)
    } else if c == '7' {
        Some(7)
    } else if c == '8' {
        Some(8)
    } else if c == '9' {
        Some(9)
    } else {
        None
    }
}

/// Reads an integer written in base 10: `0`, `17`, `-3`, `+5`.
///
/// Gives `None` for text that is no such integer, and for one that does not fit
/// into an `i64`.
pub fn read_decimal(text: &str) -> (r: Option<i64>)
    ensures
        r == fitting(integer_of(text@)),
{
    let mut rest = text.chars();
    let ghost whole = rest;
    let first = rest.next();
    proof {
        vstd::string::next_postcondition(&whole, &rest, first);
    }
    let sign = match first {
        Some(sign) => sign,
        None => {
            return None;
        },
    };
    let negative = sign == '-';
    let mut read: u128 = 0;
    let mut any = false;
    if !(sign == '-' || sign == '+') {
        match digit_value(sign) {
            Some(digit) => {
                read = digit;
                any = true;
            },
            None => {
                return None;
            },
        }
    }
    let ghost number = if any {
        number_of(text@)
    } else {
        number_of(text@.drop_first())
    };
    loop
        invariant
            read <= 9223372036854775808,
            rest.decrease() is Some,
            number == (if !any && rest.remaining().len() == 0 {
                None::<int>
            } else {
                number_from(rest.remaining(), read as int)
            }),
            integer_of(text@) == (if negative {
                match number {
                    Some(value) => Some(-value),
                    None => None,
                }
            } else {
                number
            }),
        decreases rest.decrease()->0,
    {
        let ghost before = rest;
        let next = rest.next();
        proof {
            vstd::string::next_postcondition(&before, &rest, next);
        }
        let c = match next {
            Some(c) => c,
            None => {
                if !any {
                    return None;
                }
                if negative {
                    if read == 9223372036854775808 {
                        return Some(i64::MIN);
                    }
                    return Some(-(read as i64));
                }
                if read == 9223372036854775808 {
                    return None;
                }
                return Some(read as i64);
            },
        };
        let digit = match digit_value(c) {
            Some(digit) => digit,
            None => {
                return None;
            },
        };
        let more = read * 10 + digit;
        if more > 9223372036854775808 {
            proof {
                lemma_number_grows(rest.remaining(), more as int);
            }
            return None;
        }
        read = more;
        any = true;
    }
}

} // verus!
