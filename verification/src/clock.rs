//! The time of day as the activity log shows it: `HH:MM:SS`.
use vstd::prelude::*;

use crate::text::{decimal, decimal_u64, digit_char, push_all};

verus! {

/// `{:02}`: at least two digits, padded with a zero.
pub open spec fn two_digits(n: nat) -> Seq<char> {
    if n < 10 {
        seq!['0', digit_char(n)]
    } else {
        decimal(n)
    }
}

/// `HH:MM:SS`.
pub open spec fn clock_text(hour: nat, minute: nat, second: nat) -> Seq<char> {
    two_digits(hour) + seq![':'] + two_digits(minute) + seq![':'] + two_digits(second)
}

fn push_two_digits(s: &mut String, n: u64)
    ensures
        final(s)@ == old(s)@ + two_digits(n as nat),
{
    if n < 10 {
        s.push('0');
        let c = ((n + 48) as u8) as char;
        assert(c == digit_char(n as nat));
        s.push(c);
        assert(final(s)@ =~= old(s)@ + two_digits(n as nat));
    } else {
        let d = decimal_u64(n);
        push_all(s, d.as_str());
    }
}

/// The clock text of a time of day.
pub fn format_clock(hour: u64, minute: u64, second: u64) -> (s: String)
    ensures
        s@ == clock_text(hour as nat, minute as nat, second as nat),
{
    let mut s = String::new();
    push_two_digits(&mut s, hour);
    s.push(':');
    push_two_digits(&mut s, minute);
    s.push(':');
    push_two_digits(&mut s, second);
    assert(s@ =~= clock_text(hour as nat, minute as nat, second as nat));
    s
}

/// The clock text, in UTC, of a moment given in seconds since the epoch.
pub fn utc_clock(epoch_secs: u64) -> (s: String)
    ensures
        s@ == clock_text(
            ((epoch_secs % 86400) / 3600) as nat,
            ((epoch_secs % 3600) / 60) as nat,
            (epoch_secs % 60) as nat,
        ),
{
    format_clock((epoch_secs % 86400) / 3600, (epoch_secs % 3600) / 60, epoch_secs % 60)
}

} // verus!
