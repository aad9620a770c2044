//! Decimal numbers and clock times as text.

use vstd::prelude::*;
use vstd::string::*;
use crate::text;

verus! {

/// The decimal digit for `d`, which lies between zero and nine.
pub open spec fn digit(d: int) -> char {
    ((48 + d) as u8) as char
}

/// The decimal digits of `n`, without leading zeros.
pub open spec fn decimal(n: nat) -> Seq<char>
    decreases n,
{
    if n < 10 {
        seq![digit(n as int)]
    } else {
        decimal(n / 10).push(digit((n % 10) as int))
    }
}

fn digit_char(d: u64) -> (r: char)
    requires
        d < 10,
    ensures
        r == digit(d as int),
{
    (48u8 + d as u8) as char
}

/// The decimal digits of `n`, without leading zeros.
pub fn to_decimal(n: u64) -> (r: String)
    ensures
        r@ == decimal(n as nat),
    decreases n,
{
    if n < 10 {
        let mut s = String::new();
        s.push(digit_char(n));
        assert(s@ =~= seq![digit(n as int)]);
        s
    } else {
        let mut s = to_decimal(n / 10);
        s.push(digit_char(n % 10));
        s
    }
}

/// The decimal digits of `n`, after a minus sign where it is negative.
pub open spec fn signed(n: int) -> Seq<char> {
    if n < 0 {
        "-"@ + decimal((-n) as nat)
    } else {
        decimal(n as nat)
    }
}

/// The decimal digits of `n`, after a minus sign where it is negative.
pub fn to_signed(n: i32) -> (r: String)
    ensures
        r@ == signed(n as int),
{
    if n < 0 {
        let magnitude: i64 = -(n as i64);
        "-".to_string().concat(to_decimal(magnitude as u64).as_str())
    } else {
        to_decimal(n as u64)
    }
}

/// `n`, below one hundred, in exactly two digits.
pub open spec fn two_digits(n: int) -> Seq<char> {
    seq![digit(n / 10), digit(n % 10)]
}

fn push_two_digits(s: &mut String, n: u64)
    requires
        n < 100,
    ensures
        final(s)@ == old(s)@ + two_digits(n as int),
{
    s.push(digit_char(n / 10));
    s.push(digit_char(n % 10));
    assert(s@ =~= old(s)@ + two_digits(n as int));
}

/// The UTC time of day, `HH:MM:SS`, of a moment given in seconds since the epoch.
pub open spec fn clock(secs: int) -> Seq<char> {
    two_digits((secs / 3600) % 24) + ":"@ + two_digits((secs / 60) % 60) + ":"@ + two_digits(secs % 60)
}

/// The UTC time of day, `HH:MM:SS`, of a moment given in seconds since the epoch.
pub fn clock_text(secs: u64) -> (r: String)
    ensures
        r@ == clock(secs as int),
{
    let mut s = String::new();
    push_two_digits(&mut s, (secs / 3600) % 24);
    assert(s@ =~= two_digits((secs as int / 3600) % 24));
    s.append(":");
    push_two_digits(&mut s, (secs / 60) % 60);
    s.append(":");
    push_two_digits(&mut s, secs % 60);
    s
}

/// Why a text is not a number in range.
#[derive(Debug, Clone, Copy, PartialEq, Eq, Structural)]
pub enum NumberError {
    Empty,
    InvalidDigit,
    TooLarge,
}

impl NumberError {
    pub open spec fn text(self) -> Seq<char> {
        match self {
            NumberError::Empty => "cannot parse integer from empty string"@,
            NumberError::InvalidDigit => "invalid digit found in string"@,
            NumberError::TooLarge => "number too large to fit in target type"@,
        }
    }

    /// The reason in words.
    pub fn to_string(&self) -> (r: String)
        ensures
            r@ == self.text(),
    {
        match self {
            NumberError::Empty => "cannot parse integer from empty string".to_string(),
            NumberError::InvalidDigit => "invalid digit found in string".to_string(),
            NumberError::TooLarge => "number too large to fit in target type".to_string(),
        }
    }
}

/// The number that the digits `s` continue from `acc`, none of whose prefixes
/// may exceed `max`.
pub open spec fn read_digits(s: Seq<char>, acc: int, max: int) -> Result<int, NumberError>
    decreases s.len(),
{
    if s.len() == 0 {
        Ok(acc)
    } else if !('0' <= s[0] <= '9') {
        Err(NumberError::InvalidDigit)
    } else if acc * 10 + (s[0] as int - 48) > max {
        Err(NumberError::TooLarge)
    } else {
        read_digits(s.skip(1), acc * 10 + (s[0] as int - 48), max)
    }
}

/// The number up to `max` that a text denotes: decimal digits with an optional `+`.
pub open spec fn read_number(s: Seq<char>, max: int) -> Result<int, NumberError> {
    if s.len() == 0 {
        Err(NumberError::Empty)
    } else if s == seq!['+'] || s == seq!['-'] {
        Err(NumberError::InvalidDigit)
    } else if s[0] == '+' {
        read_digits(s.skip(1), 0, max)
    } else {
        read_digits(s, 0, max)
    }
}

proof fn lemma_read_digits_range(s: Seq<char>, acc: int, max: int)
    requires
        0 <= acc <= max,
    ensures
        read_digits(s, acc, max) matches Ok(n) ==> 0 <= n <= max,
    decreases s.len(),
{
    if s.len() > 0 && '0' <= s[0] <= '9' && acc * 10 + (s[0] as int - 48) <= max {
        lemma_read_digits_range(s.skip(1), acc * 10 + (s[0] as int - 48), max);
    }
}

/// A number that is read is never out of range.
pub proof fn lemma_read_number_range(s: Seq<char>, max: int)
    requires
        0 <= max,
    ensures
        read_number(s, max) matches Ok(n) ==> 0 <= n <= max,
{
    lemma_read_digits_range(s, 0, max);
    if s.len() > 0 {
        lemma_read_digits_range(s.skip(1), 0, max);
    }
}

/// Reads a decimal number no greater than `max`.
pub fn parse_number(s: &str, max: u64) -> (r: Result<u64, NumberError>)
    ensures
        match r {
            Ok(n) => read_number(s@, max as int) == Ok::<int, NumberError>(n as int),
            Err(e) => read_number(s@, max as int) == Err::<int, NumberError>(e),
        },
{
    let cs = text::chars_of(s);
    let n: usize = cs.len();
    if n == 0 {
        return Err(NumberError::Empty);
    }
    if n == 1 && (cs[0] == '+' || cs[0] == '-') {
        assert(cs@ =~= seq![cs@[0]]);
        return Err(NumberError::InvalidDigit);
    }
    let mut i: usize = if cs[0] == '+' {
        1
    } else {
        0
    };
    let mut acc: u64 = 0;
    assert(cs@.skip(0) =~= cs@);
    while i < n
        invariant
            i <= n,
            n == cs@.len(),
            cs@ == s@,
            acc <= max,
            read_number(s@, max as int) == read_digits(cs@.skip(i as int), acc as int, max as int),
        decreases n - i,
    {
        let c = cs[i];
        if !('0' <= c && c <= '9') {
            return Err(NumberError::InvalidDigit);
        }
        let d: u32 = c as u32 - 48;
        let next: u128 = acc as u128 * 10 + d as u128;
        if next > max as u128 {
            return Err(NumberError::TooLarge);
        }
        assert(cs@.skip(i as int).skip(1) =~= cs@.skip(i + 1));
        acc = next as u64;
        i += 1;
    }
    assert(cs@.skip(n as int) =~= seq![]);
    Ok(acc)
}

} // verus!
