//! Decimal numbers: reading them from a text and writing them out.
use vstd::prelude::*;
use vstd::string::*;

use crate::text::chars_of;

verus! {

/// Why a text is not an unsigned decimal number.
#[derive(Clone, Copy, Debug, PartialEq, Eq, Structural)]
pub enum ParseIntegerError {
    Empty,
    InvalidDigit,
    Overflow,
}

impl ParseIntegerError {
    /// The message of this error.
    pub open spec fn text(self) -> Seq<char> {
        match self {
            ParseIntegerError::Empty => "cannot parse integer from empty string"@,
            ParseIntegerError::InvalidDigit => "invalid digit found in string"@,
            ParseIntegerError::Overflow => "number too large to fit in target type"@,
        }
    }

    pub fn message(self) -> (message: &'static str)
        ensures
            message@ == self.text(),
    {
        match self {
            ParseIntegerError::Empty => "cannot parse integer from empty string",
            ParseIntegerError::InvalidDigit => "invalid digit found in string",
            ParseIntegerError::Overflow => "number too large to fit in target type",
        }
    }
}

pub open spec fn is_digit(c: char) -> bool {
    '0' <= c <= '9'
}

pub open spec fn digit_value(c: char) -> int {
    c as int - '0' as int
}

pub open spec fn all_digits(s: Seq<char>) -> bool {
    forall|i: int| 0 <= i < s.len() ==> is_digit(#[trigger] s[i])
}

/// The number that a row of decimal digits stands for.
pub open spec fn digits_value(s: Seq<char>) -> int
    decreases s.len(),
{
    if s.len() == 0 {
        0
    } else {
        digits_value(s.drop_last()) * 10 + digit_value(s.last())
    }
}

/// A text without the one plus sign that may stand before its digits.
pub open spec fn without_plus(s: Seq<char>) -> Seq<char> {
    if s.len() > 1 && s[0] == '+' {
        s.skip(1)
    } else {
        s
    }
}

/// What reading a text as a 64-bit number gives: the number, or the first fault from the left.
pub open spec fn is_parsed_u64(s: Seq<char>, parsed: Result<u64, ParseIntegerError>) -> bool {
    let digits = without_plus(s);
    match parsed {
        Ok(value) => s.len() > 0 && all_digits(digits) && digits_value(digits) == value,
        Err(ParseIntegerError::Empty) => s.len() == 0,
        Err(ParseIntegerError::InvalidDigit) => exists|i: int|
            0 <= i < digits.len() && !is_digit(#[trigger] digits[i]) && all_digits(digits.take(i))
                && digits_value(digits.take(i)) <= u64::MAX,
        Err(ParseIntegerError::Overflow) => exists|i: int|
            0 < i <= digits.len() && all_digits(#[trigger] digits.take(i)) && digits_value(
                digits.take(i),
            ) > u64::MAX,
    }
}

/// What reading a text as a 64-bit number gives, as a function of the text.
pub open spec fn parsed_u64(s: Seq<char>) -> Result<u64, ParseIntegerError> {
    choose|parsed: Result<u64, ParseIntegerError>| is_parsed_u64(s, parsed)
}

/// A text reads as one number or has one first fault.
pub proof fn parsing_is_unique(
    s: Seq<char>,
    a: Result<u64, ParseIntegerError>,
    b: Result<u64, ParseIntegerError>,
)
    requires
        is_parsed_u64(s, a),
        is_parsed_u64(s, b),
    ensures
        a == b,
{
    let digits = without_plus(s);
    if a is Ok && b == Err::<u64, ParseIntegerError>(ParseIntegerError::Overflow) {
        overflow_excludes_value(digits);
    } else if b is Ok && a == Err::<u64, ParseIntegerError>(ParseIntegerError::Overflow) {
        overflow_excludes_value(digits);
    } else if a == Err::<u64, ParseIntegerError>(ParseIntegerError::InvalidDigit) && b == Err::<
        u64,
        ParseIntegerError,
    >(ParseIntegerError::Overflow) {
        overflow_excludes_invalid_digit(digits);
    } else if b == Err::<u64, ParseIntegerError>(ParseIntegerError::InvalidDigit) && a == Err::<
        u64,
        ParseIntegerError,
    >(ParseIntegerError::Overflow) {
        overflow_excludes_invalid_digit(digits);
    }
}

proof fn overflow_excludes_value(digits: Seq<char>)
    requires
        all_digits(digits),
        exists|i: int|
            0 < i <= digits.len() && all_digits(#[trigger] digits.take(i)) && digits_value(
                digits.take(i),
            ) > u64::MAX,
    ensures
        digits_value(digits) > u64::MAX,
{
    let i = choose|i: int|
        0 < i <= digits.len() && all_digits(#[trigger] digits.take(i)) && digits_value(
            digits.take(i),
        ) > u64::MAX;
    digits_value_grows(digits, i);
}

proof fn overflow_excludes_invalid_digit(digits: Seq<char>)
    requires
        exists|i: int|
            0 < i <= digits.len() && all_digits(#[trigger] digits.take(i)) && digits_value(
                digits.take(i),
            ) > u64::MAX,
    ensures
        forall|j: int|
            0 <= j < digits.len() && !is_digit(#[trigger] digits[j]) && all_digits(digits.take(j))
                ==> digits_value(digits.take(j)) > u64::MAX,
{
    let i = choose|i: int|
        0 < i <= digits.len() && all_digits(#[trigger] digits.take(i)) && digits_value(
            digits.take(i),
        ) > u64::MAX;
    assert forall|j: int|
        0 <= j < digits.len() && !is_digit(#[trigger] digits[j]) && all_digits(
            digits.take(j),
        ) implies digits_value(digits.take(j)) > u64::MAX by {
        if j < i {
            assert(digits.take(i)[j] == digits[j]);
        } else {
            digits_value_grows(digits.take(j), i);
            assert(digits.take(j).take(i) =~= digits.take(i));
        }
    }
}

/// Reads a text as an unsigned decimal number, with or without a plus sign.
pub fn parse_u64(text: &str) -> (parsed: Result<u64, ParseIntegerError>)
    ensures
        is_parsed_u64(text@, parsed),
        parsed == parsed_u64(text@),
{
    let parsed = parse_digits(text);
    proof {
        let chosen = parsed_u64(text@);
        parsing_is_unique(text@, parsed, chosen);
    }
    parsed
}

fn parse_digits(text: &str) -> (parsed: Result<u64, ParseIntegerError>)
    ensures
        is_parsed_u64(text@, parsed),
{
    let s = chars_of(text);
    if s.len() == 0 {
        return Err(ParseIntegerError::Empty);
    }
    let start: usize = if s.len() > 1 && s[0] == '+' {
        1
    } else {
        0
    };
    let ghost digits = without_plus(text@);
    assert(digits =~= s@.skip(start as int));
    let mut value: u64 = 0;
    let mut i: usize = start;
    assert(digits.take(0) =~= Seq::empty());
    while i < s.len()
        invariant
            s@ == text@,
            start <= i <= s.len(),
            digits == without_plus(text@),
            digits == s@.skip(start as int),
            all_digits(digits.take(i - start)),
            digits_value(digits.take(i - start)) == value,
        decreases s.len() - i,
    {
        let c = s[i];
        let ghost at = i - start;
        assert(digits[at] == c);
        if c < '0' || c > '9' {
            return Err(ParseIntegerError::InvalidDigit);
        }
        let digit: u64 = (c as u64) - ('0' as u64);
        let ghost next = digits.take(at + 1);
        proof {
            assert(next.drop_last() =~= digits.take(at));
            assert(digits_value(next) == value * 10 + digit);
            assert(all_digits(next));
        }
        let scaled: u64 = match value.checked_mul(10) {
            Some(scaled) => scaled,
            None => {
                return Err(ParseIntegerError::Overflow);
            },
        };
        value = match scaled.checked_add(digit) {
            Some(sum) => sum,
            None => {
                return Err(ParseIntegerError::Overflow);
            },
        };
        i = i + 1;
    }
    assert(digits.take(i - start) =~= digits);
    Ok(value)
}

pub open spec fn digit_char(digit: int) -> char {
    ('0' as int + digit) as char
}

/// The decimal digits of a number, without leading zeros.
pub open spec fn decimal(n: nat) -> Seq<char>
    decreases n,
{
    if n < 10 {
        seq![digit_char(n as int)]
    } else {
        decimal(n / 10).push(digit_char(n as int % 10))
    }
}

/// The decimal digits of a number, after a minus sign where it is negative.
pub open spec fn signed_decimal(n: int) -> Seq<char> {
    if n < 0 {
        seq!['-'] + decimal((-n) as nat)
    } else {
        decimal(n as nat)
    }
}

fn digit_text(digit: u64) -> (text: &'static str)
    requires
        digit < 10,
    ensures
        text@ == seq![digit_char(digit as int)],
{
    proof {
        reveal_strlit("0");
        reveal_strlit("1");
        reveal_strlit("2");
        reveal_strlit("3");
        reveal_strlit("4");
        reveal_strlit("5");
        reveal_strlit("6");
        reveal_strlit("7");
        reveal_strlit("8");
        reveal_strlit("9");
    }
    let text = match digit {
        0 => "0",
        1 => "1",
        2 => "2",
        3 => "3",
        4 => "4",
        5 => "5",
        6 => "6",
        7 => "7",
        8 => "8",
        _ => "9",
    };
    assert(text@ =~= seq![digit_char(digit as int)]);
    text
}

/// Writes a number in decimal.
pub fn decimal_text(n: u64) -> (text: String)
    ensures
        text@ == decimal(n as nat),
    decreases n,
{
    if n < 10 {
        digit_text(n).to_owned()
    } else {
        let mut text = decimal_text(n / 10);
        text.append(digit_text(n % 10));
        assert(text@ =~= decimal(n as nat));
        text
    }
}

/// Writes a signed number in decimal.
pub fn signed_decimal_text(n: i64) -> (text: String)
    ensures
        text@ == signed_decimal(n as int),
{
    if n < 0 {
        let magnitude: u64 = if n == i64::MIN {
            9223372036854775808
        } else {
            (-n) as u64
        };
        proof {
            reveal_strlit("-");
        }
        let digits = decimal_text(magnitude);
        let mut text = "-".to_owned();
        text.append(digits.as_str());
        assert("-"@ =~= seq!['-']);
        text
    } else {
        decimal_text(n as u64)
    }
}

/// The decimal digits of a number stand for that number.
pub proof fn decimal_stands_for(n: nat)
    ensures
        decimal(n).len() > 0,
        all_digits(decimal(n)),
        digits_value(decimal(n)) == n,
    decreases n,
{
    if n < 10 {
        let s = decimal(n);
        assert(s.drop_last() =~= Seq::empty());
        assert(s.last() == digit_char(n as int));
        assert(digits_value(s.drop_last()) == 0);
    } else {
        decimal_stands_for(n / 10);
        let s = decimal(n);
        assert(s.drop_last() =~= decimal(n / 10));
        assert(s.last() == digit_char(n as int % 10));
        assert(n == (n / 10) * 10 + n % 10);
    }
}

/// Reading back what `decimal_text` wrote gives the number that was written.
pub proof fn decimal_text_reads_back(n: u64, parsed: Result<u64, ParseIntegerError>)
    requires
        is_parsed_u64(decimal(n as nat), parsed),
    ensures
        parsed == Ok::<u64, ParseIntegerError>(n),
{
    let s = decimal(n as nat);
    decimal_stands_for(n as nat);
    assert(is_digit(s[0]));
    assert(without_plus(s) == s);
    match parsed {
        Err(ParseIntegerError::Overflow) => {
            let i = choose|i: int|
                0 < i <= s.len() && all_digits(#[trigger] s.take(i)) && digits_value(s.take(i))
                    > u64::MAX;
            digits_value_grows(s, i);
        },
        _ => {},
    }
}

/// A row of digits stands for no less than its beginning does.
proof fn digits_value_grows(s: Seq<char>, i: int)
    requires
        0 <= i <= s.len(),
        all_digits(s),
    ensures
        0 <= digits_value(s.take(i)) <= digits_value(s),
    decreases s.len() - i,
{
    if i == s.len() {
        assert(s.take(i) =~= s);
        digits_value_positive(s);
    } else {
        digits_value_grows(s, i + 1);
        let longer = s.take(i + 1);
        assert(longer.drop_last() =~= s.take(i));
        assert(is_digit(longer.last()));
        digits_value_positive(s.take(i));
    }
}

proof fn digits_value_positive(s: Seq<char>)
    requires
        all_digits(s),
    ensures
        digits_value(s) >= 0,
    decreases s.len(),
{
    if s.len() > 0 {
        digits_value_positive(s.drop_last());
        assert(is_digit(s.last()));
    }
}

/// A digit more makes ten times the number and the digit.
pub proof fn a_digit_more_makes_ten_times_as_much(s: Seq<char>, c: char)
    requires
        '0' <= c <= '9',
    ensures
        digits_value(s.push(c)) == 10 * digits_value(s) + (c as int - '0' as int),
        digits_value(Seq::empty()) == 0,
{
    assert(s.push(c).drop_last() =~= s);
}

/// Every row of digits whose number is not too large reads as that number, with or without a plus
/// sign before it; nothing else reads as a number.
pub proof fn digits_read_as_their_number(s: Seq<char>)
    requires
        s.len() > 0,
    ensures
        all_digits(s) && digits_value(s) <= u64::MAX ==> parsed_u64(s) == Ok::<
            u64,
            ParseIntegerError,
        >(digits_value(s) as u64) && parsed_u64(seq!['+'] + s) == Ok::<u64, ParseIntegerError>(
            digits_value(s) as u64,
        ),
        s[0] != '+' && !all_digits(s) ==> !is_parsed_u64(s, Ok(0)) && forall|n: u64|
            !is_parsed_u64(s, Ok::<u64, ParseIntegerError>(n)),
{
    if all_digits(s) && digits_value(s) <= u64::MAX {
        digits_value_positive(s);
        let read = Ok::<u64, ParseIntegerError>(digits_value(s) as u64);
        let signed = seq!['+'] + s;
        assert(is_digit(s[0]));
        assert(without_plus(s) == s);
        assert(signed.skip(1) =~= s);
        assert(without_plus(signed) == s);
        assert(is_parsed_u64(s, read));
        assert(is_parsed_u64(signed, read));
        parsing_is_unique(s, read, parsed_u64(s));
        parsing_is_unique(signed, read, parsed_u64(signed));
    }
}

} // verus!
