//! The time of day that messages are stamped with.

use chrono::Local;
use vstd::prelude::*;

verus! {

/// Whether `c` is a decimal digit.
pub open spec fn is_digit(c: char) -> bool {
    '0' <= c <= '9'
}

/// Whether `s` reads as a time of day: hours, minutes and seconds in two
/// digits each, with colons between.
pub open spec fn is_time_of_day(s: Seq<char>) -> bool {
    &&& s.len() == 8
    &&& is_digit(s[0]) && is_digit(s[1])
    &&& s[2] == ':'
    &&& is_digit(s[3]) && is_digit(s[4])
    &&& s[5] == ':'
    &&& is_digit(s[6]) && is_digit(s[7])
}

/// `chrono::Local::now`, shown by `DateTime::format` with the pattern for
/// hours, minutes and seconds. Which time comes back depends on the clock
/// and on the time zone of the machine; whatever it is, each of its three
/// parts is written in two digits.
#[verifier::external_body]
fn local_time(pattern: &str) -> (stamp: String)
    requires
        pattern@ == "%H:%M:%S"@,
    ensures
        is_time_of_day(stamp@),
{
    Local::now().format(pattern).to_string()
}

/// The time of day now, on this machine's clock and in its time zone:
/// hours, minutes and seconds.
pub fn timestamp() -> (stamp: String)
    ensures
        is_time_of_day(stamp@),
{
    local_time("%H:%M:%S")
}

} // verus!
