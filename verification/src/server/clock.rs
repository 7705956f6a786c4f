//! The time of day, as the server reports and logs it.
use std::time::{Duration, SystemTime};

use vstd::prelude::*;

use crate::text::{push_decimal, push_three_digits};

verus! {

/// `std::time::SystemTime`, a reading of the system clock.
#[verifier::external_type_specification]
#[verifier::external_body]
pub struct ExSystemTime(std::time::SystemTime);

/// `std::time::SystemTime::now`. Which reading it gives is up to the machine.
pub assume_specification[ SystemTime::now ]() -> SystemTime;

/// The whole nanoseconds of a duration.
pub uninterp spec fn total_nanos(duration: Duration) -> u128;

/// `std::time::Duration::as_nanos`: the whole nanoseconds of a duration, which holds at most
/// `u64::MAX` seconds and 999,999,999 nanoseconds. They depend on the duration alone.
pub assume_specification[ Duration::as_nanos ](duration: &Duration) -> (nanos: u128)
    ensures
        nanos == total_nanos(*duration),
        nanos <= MOST_NANOS,
;

/// How long after the start of the Unix epoch a reading is; nothing for one before it.
pub uninterp spec fn time_after_epoch(reading: SystemTime) -> Option<Duration>;

/// Calls `std::time::SystemTime::duration_since` with the start of the Unix epoch. It gives the
/// time from the epoch to the reading, or fails where the reading is before the epoch; either
/// way the outcome depends on the reading alone.
#[verifier::external_body]
fn since_epoch(reading: &SystemTime) -> (elapsed: Option<Duration>)
    ensures
        elapsed == time_after_epoch(*reading),
{
    reading.duration_since(std::time::UNIX_EPOCH).ok()
}

/// The longest time that a reading can be after the epoch.
pub const MOST_NANOS: u128 = 18_446_744_073_709_551_615_999_999_999;

/// The nanoseconds from the epoch to a reading, or nothing for one before it.
pub open spec fn nanos_at(reading: SystemTime) -> Option<u128> {
    match time_after_epoch(reading) {
        Some(elapsed) => Some(total_nanos(elapsed)),
        None => None,
    }
}

/// The nanoseconds since the epoch, or nothing where the clock is set before it.
fn read_clock() -> (nanos: Option<u128>)
    ensures
        exists|reading: SystemTime| nanos == #[trigger] nanos_at(reading),
        nanos matches Some(n) ==> n <= MOST_NANOS,
{
    let reading = SystemTime::now();
    let nanos = match since_epoch(&reading) {
        Some(elapsed) => Some(elapsed.as_nanos()),
        None => None,
    };
    assert(nanos == nanos_at(reading));
    nanos
}

/// The whole seconds of a reading.
pub open spec fn whole_secs(nanos: Option<u128>) -> nat {
    match nanos {
        Some(n) => n as nat / 1_000_000_000,
        None => 0,
    }
}

/// The whole milliseconds of a reading.
pub open spec fn whole_millis(nanos: Option<u128>) -> nat {
    match nanos {
        Some(n) => n as nat / 1_000_000,
        None => 0,
    }
}

/// Seconds with three decimals.
pub open spec fn stamp_text(nanos: Option<u128>) -> Seq<char> {
    let ms = whole_millis(nanos);
    crate::text::decimal(ms / 1000) + "."@ + crate::text::three_digits(ms % 1000)
}

/// The whole seconds of a reading.
pub fn secs_of(nanos: Option<u128>) -> (secs: u64)
    requires
        nanos matches Some(n) ==> n <= MOST_NANOS,
    ensures
        secs == whole_secs(nanos),
{
    match nanos {
        Some(n) => (n / 1_000_000_000) as u64,
        None => 0,
    }
}

/// A reading in seconds with three decimals.
pub fn stamp_of(nanos: Option<u128>) -> (text: String)
    ensures
        text@ == stamp_text(nanos),
{
    let ms: u128 = match nanos {
        Some(n) => n / 1_000_000,
        None => 0,
    };
    let mut text = String::new();
    push_decimal(&mut text, ms / 1000);
    text.append(".");
    push_three_digits(&mut text, ms % 1000);
    assert(text@ =~= stamp_text(nanos));
    text
}

/// These are the whole seconds of some reading of the clock.
pub open spec fn is_clock_secs(secs: u64) -> bool {
    exists|reading: SystemTime| secs == whole_secs(#[trigger] nanos_at(reading))
}

/// The seconds since the Unix epoch, or 0 where the clock is set before it.
pub fn now_secs() -> (secs: u64)
    ensures
        is_clock_secs(secs),
{
    let nanos = read_clock();
    secs_of(nanos)
}

/// The time in seconds with three decimals, as log lines begin with it.
pub fn ts() -> (text: String)
    ensures
        exists|reading: SystemTime| text@ == stamp_text(#[trigger] nanos_at(reading)),
{
    let nanos = read_clock();
    stamp_of(nanos)
}

/// Seconds are whole seconds, rounded down; a clock that is set before the epoch reads 0.
pub proof fn law_seconds_round_down(n: u128)
    ensures
        whole_secs(Some(n)) * 1_000_000_000 <= n < (whole_secs(Some(n)) + 1) * 1_000_000_000,
        whole_secs(None) == 0,
{
}

/// A stamp reads as whole milliseconds, rounded down: the seconds, a point, and three digits.
pub proof fn law_stamp_reads_back(nanos: Option<u128>)
    ensures
        ({
            let text = stamp_text(nanos);
            let at = text.len() - 4;
            let n = match nanos {
                Some(n) => n as nat,
                None => 0,
            };
            let ms = crate::text::value(text.take(at)) * 1000 + crate::text::value(
                text.skip(at + 1),
            );
            &&& at >= 1
            &&& text[at] == '.'
            &&& ms * 1_000_000 <= n < (ms + 1) * 1_000_000
        }),
{
    reveal_strlit(".");
    let ms = whole_millis(nanos);
    let secs = crate::text::decimal(ms / 1000);
    let frac = crate::text::three_digits(ms % 1000);
    let text = stamp_text(nanos);
    let at = text.len() - 4;
    crate::text::law_decimal_reads_back(ms / 1000);
    crate::text::law_three_digits_read_back(ms % 1000);
    assert(text.take(at) =~= secs);
    assert(text.skip(at + 1) =~= frac);
}

} // verus!
