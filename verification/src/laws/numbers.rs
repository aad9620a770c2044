//! Laws on numbers and clock times as text.

use vstd::prelude::*;
use vstd::string::*;
use crate::number;
use crate::number::NumberError;

verus! {

/// Whether all characters are decimal digits.
pub open spec fn all_digits(s: Seq<char>) -> bool {
    forall|i: int| 0 <= i < s.len() ==> '0' <= (#[trigger] s[i]) <= '9'
}

/// The number that two digits stand for.
pub open spec fn two(a: char, b: char) -> int {
    (a as int - 48) * 10 + (b as int - 48)
}

/// The digits of a number, read back, give that number, in every range that holds
/// it; they are digits alone, and none of them is a leading zero.
pub proof fn law_digits_are_read_back(n: nat, max: int)
    requires
        n <= max,
    ensures
        number::read_number(number::decimal(n), max) == Ok::<int, NumberError>(n as int),
        all_digits(number::decimal(n)),
        number::decimal(n).len() > 0,
        number::decimal(n)[0] == '0' ==> n == 0,
{
    lemma_decimal(n);
    lemma_read_prefix(number::decimal(n), seq![], 0, max, n);
    assert(number::decimal(n) + seq![] =~= number::decimal(n));
}

/// Different numbers have different digits.
pub proof fn law_different_numbers_look_different(m: nat, n: nat)
    ensures
        number::decimal(m) == number::decimal(n) ==> m == n,
{
    law_digits_are_read_back(m, (m + n) as int);
    law_digits_are_read_back(n, (m + n) as int);
}

/// Every further digit multiplies a number by ten and adds itself, up to the
/// largest that is allowed; anything but a digit is refused.
pub proof fn law_every_digit_counts(s: Seq<char>, c: char, max: int)
    requires
        all_digits(s),
        s.len() > 0,
        0 <= max,
    ensures
        match number::read_number(s, max) {
            Ok(n) => number::read_number(s.push(c), max) == (if !('0' <= c <= '9') {
                Err::<int, NumberError>(NumberError::InvalidDigit)
            } else if n * 10 + (c as int - 48) > max {
                Err(NumberError::TooLarge)
            } else {
                Ok(n * 10 + (c as int - 48))
            }),
            Err(e) => e == NumberError::TooLarge && number::read_number(s.push(c), max) == Err::<int, NumberError>(e),
        },
{
    lemma_read_push(s, c, 0, max);
    assert(s.push(c)[0] == s[0]);
    assert('0' <= s[0] <= '9');
    if s.push(c) == seq!['+'] || s.push(c) == seq!['-'] {
        assert(s.push(c).len() == 1);
    }
    if s == seq!['+'] || s == seq!['-'] {
        assert(s[0] == '+' || s[0] == '-');
    }
}

/// A single digit stands for itself; a plus sign before digits changes nothing; no
/// text at all and a sign alone are no numbers.
pub proof fn law_where_numbers_begin(c: char, s: Seq<char>, max: int)
    requires
        max >= 9,
        all_digits(s),
        s.len() > 0,
    ensures
        '0' <= c <= '9' ==> number::read_number(seq![c], max) == Ok::<int, NumberError>(c as int - 48),
        !('0' <= c <= '9') ==> number::read_number(seq![c], max) == Err::<int, NumberError>(
            NumberError::InvalidDigit,
        ),
        number::read_number(seq!['+'] + s, max) == number::read_number(s, max),
        number::read_number(seq!['-'] + s, max) == Err::<int, NumberError>(NumberError::InvalidDigit),
        number::read_number(seq![], max) == Err::<int, NumberError>(NumberError::Empty),
{
    reveal_with_fuel(number::read_digits, 3);
    assert(seq![c].skip(1) =~= seq![]);
    assert(seq![c][0] == c);
    assert((seq!['+'] + s).skip(1) =~= s);
    assert((seq!['+'] + s).len() > 1 && (seq!['-'] + s).len() > 1);
    assert('0' <= s[0] <= '9');
    if s == seq!['+'] || s == seq!['-'] {
        assert(s[0] == '+' || s[0] == '-');
    }
}

/// A negative number is a minus sign and the digits of its amount.
pub proof fn law_signs_are_shown(n: int)
    ensures
        n >= 0 ==> number::signed(n) == number::decimal(n as nat),
        n < 0 ==> number::signed(n).len() > 0 && number::signed(n)[0] == '-' && number::signed(n).skip(1)
            == number::decimal((-n) as nat),
{
    reveal_strlit("-");
    if n < 0 {
        assert(number::signed(n).skip(1) =~= number::decimal((-n) as nat));
    }
}

/// A clock time has eight characters; its hours, minutes and seconds, read back,
/// give the time of the day.
pub proof fn law_clock_times_are_read_back(secs: int)
    requires
        secs >= 0,
    ensures
        ({
            let t = number::clock(secs);
            let h = two(t[0], t[1]);
            let m = two(t[3], t[4]);
            let s = two(t[6], t[7]);
            &&& t.len() == 8
            &&& t[2] == ':' && t[5] == ':'
            &&& 0 <= h < 24 && 0 <= m < 60 && 0 <= s < 60
            &&& h * 3600 + m * 60 + s == secs % 86400
            &&& all_digits(seq![t[0], t[1], t[3], t[4], t[6], t[7]])
        }),
{
    reveal_strlit(":");
    let h = (secs / 3600) % 24;
    let m = (secs / 60) % 60;
    let s = secs % 60;
    lemma_time_of_day(secs);
    lemma_two(h);
    lemma_two(m);
    lemma_two(s);
    let t = number::clock(secs);
    assert(t =~= number::two_digits(h) + seq![':'] + number::two_digits(m) + seq![':'] + number::two_digits(s)) by {
        assert(":"@ =~= seq![':']);
    }
    assert(t[0] == number::two_digits(h)[0] && t[1] == number::two_digits(h)[1]);
    assert(t[3] == number::two_digits(m)[0] && t[4] == number::two_digits(m)[1]);
    assert(t[6] == number::two_digits(s)[0] && t[7] == number::two_digits(s)[1]);
}

proof fn lemma_time_of_day(secs: int)
    requires
        secs >= 0,
    ensures
        ((secs / 3600) % 24) * 3600 + ((secs / 60) % 60) * 60 + secs % 60 == secs % 86400,
{
}

proof fn lemma_two(n: int)
    requires
        0 <= n < 100,
    ensures
        number::two_digits(n).len() == 2,
        two(number::two_digits(n)[0], number::two_digits(n)[1]) == n,
        all_digits(number::two_digits(n)),
        '0' <= number::two_digits(n)[0] <= '9' && '0' <= number::two_digits(n)[1] <= '9',
{
    lemma_digit(n / 10);
    lemma_digit(n % 10);
}

proof fn lemma_digit(d: int)
    requires
        0 <= d <= 9,
    ensures
        number::digit(d) as int == 48 + d,
        '0' <= number::digit(d) <= '9',
{
}

proof fn lemma_decimal(n: nat)
    ensures
        all_digits(number::decimal(n)),
        number::decimal(n).len() > 0,
        number::decimal(n)[0] == '0' ==> n == 0,
        number::decimal(n)[0] != '+' && number::decimal(n)[0] != '-',
    decreases n,
{
    if n < 10 {
        lemma_digit(n as int);
    } else {
        lemma_decimal(n / 10);
        lemma_digit((n % 10) as int);
        let d = number::decimal(n);
        assert forall|i: int| 0 <= i < d.len() implies '0' <= (#[trigger] d[i]) <= '9' by {
            if i < d.len() - 1 {
                assert(d[i] == number::decimal(n / 10)[i]);
            }
        }
    }
}

/// Reading the digits of `n` before `rest` leaves `n` behind.
proof fn lemma_read_prefix(digits: Seq<char>, rest: Seq<char>, acc: int, max: int, n: nat)
    requires
        digits == number::decimal(n),
        n <= max,
        acc == 0,
    ensures
        number::read_number(digits + rest, max) == number::read_digits(rest, n as int, max),
    decreases n,
{
    lemma_decimal(n);
    assert((digits + rest)[0] == digits[0]);
    if digits + rest == seq!['+'] || digits + rest == seq!['-'] {
        assert((digits + rest)[0] == '+' || (digits + rest)[0] == '-');
    }
    lemma_read_digits_prefix(digits, rest, max, n);
}

proof fn lemma_read_digits_prefix(digits: Seq<char>, rest: Seq<char>, max: int, n: nat)
    requires
        digits == number::decimal(n),
        n <= max,
    ensures
        number::read_digits(digits + rest, 0, max) == number::read_digits(rest, n as int, max),
    decreases n,
{
    if n < 10 {
        lemma_digit(n as int);
        assert((digits + rest).skip(1) =~= rest);
        assert((digits + rest)[0] == number::digit(n as int));
    } else {
        let d = number::digit((n % 10) as int);
        lemma_digit((n % 10) as int);
        let shorter = number::decimal(n / 10);
        assert(digits + rest =~= shorter + (seq![d] + rest));
        lemma_read_digits_prefix(shorter, seq![d] + rest, max, n / 10);
        assert((seq![d] + rest).skip(1) =~= rest);
        assert((seq![d] + rest)[0] == d);
    }
}

proof fn lemma_read_push(s: Seq<char>, c: char, acc: int, max: int)
    requires
        all_digits(s),
        0 <= acc <= max,
    ensures
        match number::read_digits(s, acc, max) {
            Ok(n) => number::read_digits(s.push(c), acc, max) == (if !('0' <= c <= '9') {
                Err::<int, NumberError>(NumberError::InvalidDigit)
            } else if n * 10 + (c as int - 48) > max {
                Err(NumberError::TooLarge)
            } else {
                Ok(n * 10 + (c as int - 48))
            }),
            Err(e) => e == NumberError::TooLarge && number::read_digits(s.push(c), acc, max) == Err::<
                int,
                NumberError,
            >(e),
        },
    decreases s.len(),
{
    if s.len() == 0 {
        reveal_with_fuel(number::read_digits, 2);
        assert(s.push(c)[0] == c);
        assert(s.push(c).skip(1) =~= seq![]);
    } else {
        assert('0' <= s[0] <= '9');
        let t = s.skip(1);
        assert forall|i: int| 0 <= i < t.len() implies '0' <= (#[trigger] t[i]) <= '9' by {
            assert(t[i] == s[i + 1]);
        }
        assert(s.push(c)[0] == s[0]);
        assert(s.push(c).skip(1) =~= t.push(c));
        let next = acc * 10 + (s[0] as int - 48);
        if next <= max {
            lemma_read_push(t, c, next, max);
        }
    }
}

/// What is no number is complained of by the reason.
pub proof fn law_reasons_are_told()
    ensures
        NumberError::Empty.text() == "cannot parse integer from empty string"@,
        NumberError::InvalidDigit.text() == "invalid digit found in string"@,
        NumberError::TooLarge.text() == "number too large to fit in target type"@,
{
}

} // verus!
