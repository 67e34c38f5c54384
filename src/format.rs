//! The text of a remaining time: `D:HH:MM:SS`, days unpadded.
use vstd::prelude::*;

verus! {

/// The character of the decimal digit `d`.
pub open spec fn digit_char(d: int) -> char {
    if d == 0 {
        '0'
    } else if d == 1 {
        '1'
    } else if d == 2 {
        '2'
    } else if d == 3 {
        '3'
    } else if d == 4 {
        '4'
    } else if d == 5 {
        '5'
    } else if d == 6 {
        '6'
    } else if d == 7 {
        '7'
    } else if d == 8 {
        '8'
    } else {
        '9'
    }
}

/// The decimal digits of `n`, with no leading zero.
pub open spec fn decimal(n: nat) -> Seq<char>
    decreases n,
{
    if n < 10 {
        seq![digit_char(n as int)]
    } else {
        decimal(n / 10).push(digit_char((n % 10) as int))
    }
}

/// `n` (below 100) as exactly two digits.
pub open spec fn two_digits(n: nat) -> Seq<char> {
    seq![digit_char((n / 10) as int), digit_char((n % 10) as int)]
}

/// The text of `time` seconds as days, hours, minutes and seconds.
pub open spec fn time_text(time: nat) -> Seq<char> {
    decimal(time / 86400) + seq![':'] + two_digits((time / 3600) % 24) + seq![':'] + two_digits(
        (time / 60) % 60,
    ) + seq![':'] + two_digits(time % 60)
}

/// Appends the digit `d`.
fn push_digit(s: &mut String, d: u64)
    requires
        d < 10,
    ensures
        final(s)@ == old(s)@.push(digit_char(d as int)),
{
    let text = match d {
        0 => "0",
        1 => "1",
        2 => "2",
        3 => "3",
        4 => "4",
        5 => "5",
        6 => "6",
        7 => "7",
        8 => "8",
        _ => "9",
    };
    proof {
        reveal_strlit("0");
        reveal_strlit("1");
        reveal_strlit("2");
        reveal_strlit("3");
        reveal_strlit("4");
        reveal_strlit("5");
        reveal_strlit("6");
        reveal_strlit("7");
        reveal_strlit("8");
        reveal_strlit("9");
    }
    assert(text@ =~= seq![digit_char(d as int)]);
    s.append(text);
}

/// Appends the decimal digits of `n`.
fn push_decimal(s: &mut String, n: u64)
    ensures
        final(s)@ == old(s)@ + decimal(n as nat),
    decreases n,
{
    if n >= 10 {
        push_decimal(s, n / 10);
        push_digit(s, n % 10);
        assert(final(s)@ =~= old(s)@ + decimal(n as nat));
    } else {
        push_digit(s, n);
        assert(final(s)@ =~= old(s)@ + decimal(n as nat));
    }
}

/// Appends `n` (below 100) as two digits.
fn push_two_digits(s: &mut String, n: u64)
    requires
        n < 100,
    ensures
        final(s)@ == old(s)@ + two_digits(n as nat),
{
    push_digit(s, n / 10);
    push_digit(s, n % 10);
    assert(final(s)@ =~= old(s)@ + two_digits(n as nat));
}

/// Appends a colon.
fn push_colon(s: &mut String)
    ensures
        final(s)@ == old(s)@.push(':'),
{
    proof {
        reveal_strlit(":");
    }
    s.append(":");
}

/// The text of a remaining time of `time` seconds: days, then hours, minutes
/// and seconds as two digits each, separated by colons.
pub fn format_time(time: u64) -> (r: String)
    ensures
        r@ == time_text(time as nat),
{
    let seconds = time % 60;
    let minutes = (time / 60) % 60;
    let hours = (time / 3600) % 24;
    let days = time / 86400;
    let mut s = String::new();
    push_decimal(&mut s, days);
    push_colon(&mut s);
    push_two_digits(&mut s, hours);
    push_colon(&mut s);
    push_two_digits(&mut s, minutes);
    push_colon(&mut s);
    push_two_digits(&mut s, seconds);
    assert(s@ =~= time_text(time as nat));
    s
}

} // verus!
