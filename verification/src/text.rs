//! The texts that are shown: numbers, times and messages.

use crate::player::div_toward_zero;
use vstd::prelude::*;

verus! {

/// The decimal digit for `d`.
pub open spec fn digit(d: nat) -> char {
    (48 + d) as char
}

/// A number in decimal digits, without leading zeros.
pub open spec fn digits(n: nat) -> Seq<char>
    decreases n,
{
    if n < 10 {
        seq![digit(n)]
    } else {
        digits(n / 10).push(digit(n % 10))
    }
}

fn digit_text(d: u64) -> (r: &'static str)
    requires
        d < 10,
    ensures
        r@ == seq![digit(d as nat)],
{
    proof {
        reveal_strlit("0");
        reveal_strlit("1");
        reveal_strlit("2");
        reveal_strlit("3");
        reveal_strlit("4");
        reveal_strlit("5");
        reveal_strlit("6");
        reveal_strlit("7");
        reveal_strlit("8");
        reveal_strlit("9");
    }
    match d {
        0 => "0",
        1 => "1",
        2 => "2",
        3 => "3",
        4 => "4",
        5 => "5",
        6 => "6",
        7 => "7",
        8 => "8",
        _ => "9",
    }
}

/// Whether a text begins with another.
pub fn begins_with(text: &str, start: &str) -> (r: bool)
    ensures
        r == start@.is_prefix_of(text@),
{
    let len: usize = start.unicode_len();
    if text.unicode_len() < len {
        return false;
    }
    let mut i: usize = 0;
    while i < len
        invariant
            len == start@.len(),
            len <= text@.len(),
            i <= len,
            start@.take(i as int) =~= text@.take(i as int),
        decreases len - i,
    {
        if text.get_char(i) != start.get_char(i) {
            assert(start@[i as int] != text@.subrange(0, len as int)[i as int]);
            return false;
        }
        i = i + 1;
        assert(start@.take(i as int) =~= text@.take(i as int));
    }
    assert(start@.take(len as int) =~= start@);
    assert(text@.take(len as int) =~= text@.subrange(0, len as int));
    true
}

/// A number in decimal digits.
pub fn decimal(n: u64) -> (r: String)
    ensures
        r@ == digits(n as nat),
    decreases n,
{
    if n < 10 {
        digit_text(n).to_owned()
    } else {
        let mut text = decimal(n / 10);
        text.append(digit_text(n % 10));
        assert(text@ =~= digits(n as nat));
        text
    }
}

/// A number in decimal digits and at least two places, the sign counted.
pub open spec fn two_places(n: int) -> Seq<char> {
    if n < 0 {
        "-"@ + digits((-n) as nat)
    } else if n < 10 {
        "0"@ + digits(n as nat)
    } else {
        digits(n as nat)
    }
}

fn two_place_text(n: i64) -> (r: String)
    requires
        n > i64::MIN,
    ensures
        r@ == two_places(n as int),
{
    if n < 0 {
        let mut text = "-".to_owned();
        text.append(decimal((-n) as u64).as_str());
        text
    } else if n < 10 {
        let mut text = "0".to_owned();
        text.append(decimal(n as u64).as_str());
        text
    } else {
        decimal(n as u64)
    }
}

/// What is left over by a division that rounds toward zero.
pub open spec fn rem_toward_zero(a: int, b: int) -> int {
    a - b * div_toward_zero(a, b)
}

/// A time of `ms` milliseconds: minutes and seconds, with the hours in front
/// where there are any.
pub open spec fn time_text(ms: int) -> Seq<char> {
    let total = div_toward_zero(ms, 1000);
    let hours = div_toward_zero(total, 3600);
    let minutes = div_toward_zero(rem_toward_zero(total, 3600), 60);
    let seconds = rem_toward_zero(total, 60);
    let short = two_places(minutes) + ":"@ + two_places(seconds);
    if hours > 0 {
        two_places(hours) + ":"@ + short
    } else {
        short
    }
}

/// A time as it is shown beside the seek bar.
pub fn format_time(ms: i64) -> (r: String)
    ensures
        r@ == time_text(ms as int),
{
    let total: i64 = ms / 1000;
    let hours: i64 = total / 3600;
    let minutes: i64 = (total % 3600) / 60;
    let seconds: i64 = total % 60;
    let mut text = two_place_text(minutes);
    text.append(":");
    text.append(two_place_text(seconds).as_str());
    if hours > 0 {
        let mut long = two_place_text(hours);
        long.append(":");
        long.append(text.as_str());
        long
    } else {
        text
    }
}

/// A number is written in decimal digits: one for a number below ten, and else those
/// of its tenth, and the one for what is left.
pub proof fn numbers_are_written_in_decimal(n: nat)
    ensures
        n < 10 ==> digits(n).len() == 1 && digits(n)[0] as u32 == 48 + n,
        n >= 10 ==> digits(n).drop_last() == digits(n / 10) && digits(n).last() as u32 == 48 + n
            % 10,
        digits(n).len() > 0,
{
    if n >= 10 {
        assert(digits(n).drop_last() =~= digits(n / 10));
    }
}

/// A time is written as hours, minutes and seconds with a colon between, each with
/// two places at least, and without the hours where there are none.
pub proof fn times_are_written_by_the_clock(
    hours: nat,
    minutes: nat,
    seconds: nat,
    rest: nat,
)
    requires
        minutes < 60,
        seconds < 60,
        rest < 1000,
    ensures
        ({
            let two = |n: nat|
                if n < 10 {
                    "0"@ + digits(n)
                } else {
                    digits(n)
                };
            let text = time_text((((hours * 60 + minutes) * 60 + seconds) * 1000 + rest) as int);
            &&& hours == 0 ==> text == two(minutes) + ":"@ + two(seconds)
            &&& hours > 0 ==> text == two(hours) + ":"@ + (two(minutes) + ":"@ + two(seconds))
        }),
{
    let ms = ((hours * 60 + minutes) * 60 + seconds) * 1000 + rest;
    let total = (hours * 60 + minutes) * 60 + seconds;
    assert(ms as int / 1000 == total);
    assert(total as int / 3600 == hours);
    assert(total - 3600 * hours == minutes * 60 + seconds);
    assert((minutes * 60 + seconds) as int / 60 == minutes);
    assert(total as int / 60 == hours * 60 + minutes);
}

/// A time before zero, of no more than an hour's minutes and seconds shown, has its
/// sign before the minutes and before the seconds, where they are not zero.
pub proof fn times_before_zero_have_signs(hours: nat, minutes: nat, seconds: nat, rest: nat)
    requires
        minutes < 60,
        seconds < 60,
        rest < 1000,
    ensures
        ({
            let two = |n: nat|
                if n == 0 {
                    "0"@ + digits(0)
                } else {
                    "-"@ + digits(n)
                };
            hours + minutes + seconds + rest > 0 ==> time_text(
                -((((hours * 60 + minutes) * 60 + seconds) * 1000 + rest) as int),
            ) == two(minutes) + ":"@ + two(seconds)
        }),
{
    let ms = ((hours * 60 + minutes) * 60 + seconds) * 1000 + rest;
    let total = (hours * 60 + minutes) * 60 + seconds;
    assert(ms as int / 1000 == total);
    assert(total as int / 3600 == hours);
    assert((minutes * 60 + seconds) as int / 60 == minutes);
    assert(total as int / 60 == hours * 60 + minutes);
    assert(div_toward_zero(-(ms as int), 1000) == -(total as int));
    assert(div_toward_zero(-(total as int), 3600) == -(hours as int));
    assert(div_toward_zero(-(total as int), 60) == -((hours * 60 + minutes) as int));
    assert(div_toward_zero(-((minutes * 60 + seconds) as int), 60) == -(minutes as int));
}

} // verus!
