//! The time of day, as the event reports print it.

use crate::number::{
    digits_value, two_digit_text, two_digits, two_digits_stand_for_their_number,
};
use std::time::{Duration, SystemTime, SystemTimeError};
use vstd::prelude::*;

verus! {

/// The time type of the standard library.
#[verifier::external_type_specification]
#[verifier::external_body]
pub struct ExSystemTime(SystemTime);

/// The error of the standard library for a time before another.
#[verifier::external_type_specification]
#[verifier::external_body]
pub struct ExSystemTimeError(SystemTimeError);

/// `SystemTime::now`: the time that the system gives. Nothing is claimed of it.
pub assume_specification[ SystemTime::now ]() -> (r: SystemTime)
;

/// The time from the Unix epoch to a given time, where that is no earlier.
pub uninterp spec fn unix_time(now: SystemTime) -> Option<Duration>;

/// `SystemTime::duration_since`, from the Unix epoch on: the time gone by since
/// then, or an error where the given time lies before it.
#[verifier::external_body]
fn since_epoch(now: &SystemTime) -> (r: Result<Duration, SystemTimeError>)
    ensures
        match r {
            Ok(elapsed) => unix_time(*now) == Some(elapsed),
            Err(_) => unix_time(*now) is None,
        },
{
    now.duration_since(SystemTime::UNIX_EPOCH)
}

/// The whole seconds of a stretch of time.
pub uninterp spec fn whole_seconds(elapsed: Duration) -> u64;

/// `Duration::as_secs`: the whole seconds of a stretch of time.
pub assume_specification[ Duration::as_secs ](elapsed: &Duration) -> (r: u64)
    ensures
        r == whole_seconds(*elapsed),
;

/// The seconds from the Unix epoch to a given time, none where it lies before.
pub open spec fn unix_seconds(now: SystemTime) -> nat {
    match unix_time(now) {
        Some(elapsed) => whole_seconds(elapsed) as nat,
        None => 0,
    }
}

/// The hours, minutes and seconds of the day, `secs` seconds after the epoch.
pub open spec fn time_of_day(secs: nat) -> Seq<char> {
    two_digits((secs / 3600) % 24) + ":"@ + two_digits((secs / 60) % 60) + ":"@ + two_digits(
        secs % 60,
    )
}

/// The hours, minutes and seconds of the day, `secs` seconds after the epoch.
pub fn clock_text(secs: u64) -> (r: String)
    ensures
        r@ == time_of_day(secs as nat),
{
    let mut out = two_digit_text((secs / 3600) % 24);
    out.append(":");
    out.append(two_digit_text((secs / 60) % 60).as_str());
    out.append(":");
    out.append(two_digit_text(secs % 60).as_str());
    out
}

/// The present time of day. A clock that stands before the epoch counts as
/// standing at it.
pub fn chrono_now() -> (r: String)
    ensures
        exists|now: SystemTime| r@ == time_of_day(#[trigger] unix_seconds(now)),
{
    let now = SystemTime::now();
    let secs: u64 = match since_epoch(&now) {
        Ok(elapsed) => elapsed.as_secs(),
        Err(_) => 0,
    };
    let r = clock_text(secs);
    assert(r@ == time_of_day(unix_seconds(now)));
    r
}

/// The time of day comes round every day, and always fills eight characters.
pub proof fn clock_comes_round(secs: nat)
    ensures
        time_of_day(secs + 86400) == time_of_day(secs),
        time_of_day(secs).len() == 8,
{
    reveal_strlit(":");
    lemma_day(secs);
}

/// A day later, the hours, minutes and seconds are the same.
proof fn lemma_day(secs: nat)
    ensures
        ((secs + 86400) / 3600) % 24 == (secs / 3600) % 24,
        ((secs + 86400) / 60) % 60 == (secs / 60) % 60,
        (secs + 86400) % 60 == secs % 60,
{
    assert((secs + 86400) / 3600 == secs / 3600 + 24);
    assert((secs + 86400) / 60 == secs / 60 + 1440);
}

/// The time of day reads back as the seconds of the day: the hours, minutes and
/// seconds stand two digits each, with colons between.
pub proof fn time_of_day_reads_back(secs: nat)
    ensures
        ({
            let text = time_of_day(secs);
            let hours = digits_value(text.subrange(0, 2));
            let minutes = digits_value(text.subrange(3, 5));
            let seconds = digits_value(text.subrange(6, 8));
            &&& text.len() == 8
            &&& text[2] == ':'
            &&& text[5] == ':'
            &&& hours < 24
            &&& minutes < 60
            &&& seconds < 60
            &&& hours * 3600 + minutes * 60 + seconds == secs % 86400
        }),
{
    reveal_strlit(":");
    let hours = (secs / 3600) % 24;
    let minutes = (secs / 60) % 60;
    let seconds = secs % 60;
    let text = time_of_day(secs);
    two_digits_stand_for_their_number(hours);
    two_digits_stand_for_their_number(minutes);
    two_digits_stand_for_their_number(seconds);
    assert(text.subrange(0, 2) =~= two_digits(hours));
    assert(text.subrange(3, 5) =~= two_digits(minutes));
    assert(text.subrange(6, 8) =~= two_digits(seconds));
    lemma_parts_of_the_day(secs);
}

proof fn lemma_parts_of_the_day(secs: nat)
    ensures
        ((secs / 3600) % 24) * 3600 + ((secs / 60) % 60) * 60 + secs % 60 == secs % 86400,
{
    let minutes = secs / 60;
    assert(minutes / 60 == secs / 3600);
    let hours = minutes / 60;
    assert(hours / 24 == secs / 86400);
}

/// The seconds of a time are its whole seconds since the epoch. A time before the
/// epoch counts as the epoch.
pub proof fn times_before_the_epoch_count_as_it(now: SystemTime)
    ensures
        unix_time(now) is None ==> unix_seconds(now) == 0,
        unix_time(now) matches Some(elapsed) ==> unix_seconds(now) == whole_seconds(elapsed),
{
}

} // verus!
