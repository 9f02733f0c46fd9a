//! Wall-clock readings and the texts and numbers the library derives from them.
use std::time::{Duration, SystemTime, SystemTimeError};
use vstd::prelude::*;
use crate::text::{decimal, decimal_string, push_char};

verus! {

pub const NANOS_PER_SECOND: u128 = 1_000_000_000;

#[verifier::external_type_specification]
#[verifier::external_body]
pub struct ExSystemTime(std::time::SystemTime);

#[verifier::external_type_specification]
#[verifier::external_body]
pub struct ExSystemTimeError(std::time::SystemTimeError);

/// Calls `SystemTime::now`; nothing is stated of the reading.
#[verifier::external_body]
fn system_now() -> SystemTime {
    std::time::SystemTime::now()
}

/// Calls `SystemTime::duration_since(UNIX_EPOCH)`: the time since the epoch, or the error
/// for a time before it. Nothing is stated of which.
#[verifier::external_body]
fn since_epoch(t: &SystemTime) -> Result<Duration, SystemTimeError> {
    t.duration_since(std::time::UNIX_EPOCH)
}

/// Calls `Duration::as_nanos`. Only the range is stated: a `Duration` holds at most
/// `u64::MAX` whole seconds and fewer than 10^9 further nanoseconds.
#[verifier::external_body]
fn duration_nanos(d: &Duration) -> (n: u128)
    ensures
        n < 18446744073709551616u128 * 1_000_000_000u128,
{
    d.as_nanos()
}

/// The clock's nanoseconds since the epoch; `None` when it reads earlier than the epoch.
fn unix_time_nanos() -> (r: Option<u128>)
    ensures
        r matches Some(n) ==> n < 18446744073709551616u128 * 1_000_000_000u128,
{
    let now = system_now();
    match since_epoch(&now) {
        Ok(d) => Some(duration_nanos(&d)),
        Err(_) => None,
    }
}

/// Whole seconds of a nanosecond reading; `None` without a reading.
pub open spec fn seconds_of_nanos(nanos: Option<u128>) -> Option<u64> {
    match nanos {
        Some(n) => Some((n / NANOS_PER_SECOND) as u64),
        None => None,
    }
}

/// Whole seconds since the epoch, when the clock reads after it.
fn unix_seconds() -> (r: Option<u64>)
    ensures
        exists|nanos: Option<u128>|
            (nanos matches Some(n) ==> n < 18446744073709551616u128 * 1_000_000_000u128) && r
                == #[trigger] seconds_of_nanos(nanos),
{
    let nanos = unix_time_nanos();
    let r = match nanos {
        Some(n) => Some((n / NANOS_PER_SECOND) as u64),
        None => None,
    };
    assert(r == seconds_of_nanos(nanos));
    r
}

/// The decimal seconds, or `"0"` when there is no reading.
pub open spec fn seconds_text_spec(secs: Option<u64>) -> Seq<char> {
    match secs {
        Some(n) => decimal(n as nat),
        None => seq!['0'],
    }
}

/// The decimal seconds followed by `Z`, or `"0Z"`.
pub open spec fn stamp_text_spec(secs: Option<u64>) -> Seq<char> {
    seconds_text_spec(secs).push('Z')
}

pub fn seconds_text(secs: Option<u64>) -> (s: String)
    ensures
        s@ == seconds_text_spec(secs),
{
    match secs {
        Some(n) => decimal_string(n),
        None => {
            let mut s = String::new();
            push_char(&mut s, '0');
            assert(s@ =~= seq!['0']);
            s
        },
    }
}

pub fn stamp_text(secs: Option<u64>) -> (s: String)
    ensures
        s@ == stamp_text_spec(secs),
{
    let mut s = seconds_text(secs);
    push_char(&mut s, 'Z');
    s
}

/// The current time as decimal seconds since the epoch, `"0"` before the epoch.
pub fn timestamp() -> (s: String)
    ensures
        exists|secs: Option<u64>| s@ == seconds_text_spec(secs),
{
    let secs = unix_seconds();
    seconds_text(secs)
}

/// Same reading as [`timestamp`]; the name the file-access code gives it.
pub fn timestamp_compact() -> (s: String)
    ensures
        exists|secs: Option<u64>| s@ == seconds_text_spec(secs),
{
    timestamp()
}

/// The current time as decimal seconds followed by `Z`.
pub fn now_text() -> (s: String)
    ensures
        exists|secs: Option<u64>| s@ == stamp_text_spec(secs),
{
    let secs = unix_seconds();
    stamp_text(secs)
}

/// `prefix-` followed by the current seconds.
pub fn make_id(prefix: &str) -> (s: String)
    ensures
        exists|secs: Option<u64>| s@ == prefix@.push('-') + seconds_text_spec(secs),
{
    let secs = unix_seconds();
    let mut s = String::from_str(prefix);
    push_char(&mut s, '-');
    let t = seconds_text(secs);
    s.append(t.as_str());
    s
}

/// Whole milliseconds of a nanosecond reading, cut to 64 bits as `as u64` cuts; 0 without
/// a reading.
pub open spec fn millis_spec(nanos: Option<u128>) -> u64 {
    match nanos {
        Some(n) => (n / 1_000_000) as u64,
        None => 0,
    }
}

pub fn millis_from_nanos(nanos: Option<u128>) -> (ms: u64)
    ensures
        ms == millis_spec(nanos),
{
    match nanos {
        Some(n) => (n / 1_000_000) as u64,
        None => 0,
    }
}

/// Milliseconds since the epoch; 0 before the epoch.
pub fn timestamp_ms() -> (ms: u64)
    ensures
        exists|nanos: Option<u128>| ms == millis_spec(nanos),
{
    let nanos = unix_time_nanos();
    millis_from_nanos(nanos)
}

/// The index that a nanosecond reading picks among `len` items.
pub open spec fn index_from_nanos_spec(nanos: u128, len: usize) -> usize {
    if len <= 1 {
        0
    } else {
        (nanos % (len as u128)) as usize
    }
}

pub fn index_from_nanos(nanos: u128, len: usize) -> (i: usize)
    ensures
        i == index_from_nanos_spec(nanos, len),
        len >= 1 ==> i < len,
{
    if len <= 1 {
        0
    } else {
        (nanos % (len as u128)) as usize
    }
}

/// An index below `len` taken from the clock's nanoseconds; 0 when `len <= 1`.
pub fn random_index(len: usize) -> (i: usize)
    ensures
        len <= 1 ==> i == 0,
        len > 1 ==> i < len,
        exists|nanos: u128| i == #[trigger] index_from_nanos_spec(nanos, len),
{
    if len <= 1 {
        assert(index_from_nanos_spec(0, len) == 0);
        return 0;
    }
    let nanos = match unix_time_nanos() {
        Some(n) => n,
        None => 0,
    };
    let i = index_from_nanos(nanos, len);
    assert(i == index_from_nanos_spec(nanos, len));
    i
}

} // verus!
