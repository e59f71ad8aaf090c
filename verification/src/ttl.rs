//! Times to live: when a value that lives for a number of seconds expires.

use std::time::{Duration, SystemTime};
use vstd::prelude::*;
use vstd::string::StringExecFns;

verus! {

/// A point in time of the clock of the machine, of the standard library.
/// Nothing is seen inside it.
#[verifier::external_type_specification]
#[verifier::external_body]
pub struct ExSystemTime(std::time::SystemTime);

/// The time now, as the clock of the machine tells it: `SystemTime::now` of
/// the standard library. Nothing is known of it ahead.
#[verifier::external_body]
fn system_now() -> SystemTime {
    SystemTime::now()
}

/// The time from the start of 1970 to `t`, none where `t` lies before it:
/// `SystemTime::duration_since` of the standard library. Nothing is known
/// of it ahead.
#[verifier::external_body]
fn since_unix_epoch(t: &SystemTime) -> Option<Duration> {
    t.duration_since(std::time::UNIX_EPOCH).ok()
}

/// The whole seconds in `d`: `Duration::as_secs` of the standard library.
/// Nothing is stated of them.
#[verifier::external_body]
fn whole_seconds(d: &Duration) -> u64 {
    d.as_secs()
}

/// The time now, in seconds since the start of 1970, as the clock of the
/// machine tells it; zero where the clock stands before 1970. Nothing is
/// known of it ahead.
pub fn ttl_current_ts() -> u64 {
    let now = system_now();
    match since_unix_epoch(&now) {
        Some(d) => whole_seconds(&d),
        None => 0,
    }
}

/// The character of a decimal digit.
pub open spec fn digit_char(d: nat) -> char {
    if d == 0 {
        '0'
    } else if d == 1 {
        '1'
    } else if d == 2 {
        '2'
    } else if d == 3 {
        '3'
    } else if d == 4 {
        '4'
    } else if d == 5 {
        '5'
    } else if d == 6 {
        '6'
    } else if d == 7 {
        '7'
    } else if d == 8 {
        '8'
    } else {
        '9'
    }
}

/// A number written in decimal digits.
pub open spec fn decimal_spec(n: nat) -> Seq<char>
    decreases n,
{
    if n < 10 {
        seq![digit_char(n)]
    } else {
        decimal_spec(n / 10).push(digit_char(n % 10))
    }
}

/// `u64::to_string` of the standard library: the number written in decimal
/// digits, without sign and without leading zeros.
#[verifier::external_body]
pub(crate) fn u64_to_string(n: u64) -> (r: String)
    ensures
        r@ == decimal_spec(n as nat),
{
    n.to_string()
}

/// When a value expires that is given `ttl` seconds to live at the time
/// `now`; never, where `ttl` is zero. A time past the greatest that can be
/// held is the greatest.
pub open spec fn to_expire_ts_spec(ttl: u64, now: u64) -> Option<u64> {
    if ttl == 0 {
        None
    } else if ttl + now > u64::MAX {
        Some(u64::MAX)
    } else {
        Some((ttl + now) as u64)
    }
}

/// When a value expires that is given `ttl` seconds to live at the time
/// `now`.
pub fn ttl_to_expire_ts_at(ttl: u64, now: u64) -> (r: Option<u64>)
    ensures
        r == to_expire_ts_spec(ttl, now),
{
    if ttl == 0 {
        None
    } else {
        Some(ttl.saturating_add(now))
    }
}

/// When a value expires that is given `ttl` seconds to live now.
pub fn ttl_to_expire_ts(ttl: u64) -> (r: Option<u64>)
    ensures
        exists|now: u64| r == to_expire_ts_spec(ttl, now),
        r is None <==> ttl == 0,
        r matches Some(ts) ==> ts >= ttl,
{
    ttl_to_expire_ts_at(ttl, ttl_current_ts())
}

/// As `ttl_to_expire_ts_at`, with zero for never.
pub open spec fn expire_ts_spec(ttl: u64, now: u64) -> u64 {
    match to_expire_ts_spec(ttl, now) {
        Some(ts) => ts,
        None => 0,
    }
}

/// As `ttl_to_expire_ts`, with zero for never.
pub fn ttl_expire_ts(ttl: u64) -> (r: u64)
    ensures
        exists|now: u64| r == expire_ts_spec(ttl, now),
        r == 0 <==> ttl == 0,
        r >= ttl,
{
    let now = ttl_current_ts();
    let r = match ttl_to_expire_ts_at(ttl, now) {
        Some(ts) => ts,
        None => 0,
    };
    assert(r == expire_ts_spec(ttl, now));
    r
}

/// Whether a value that is given `ttl` seconds to live at the time `now`
/// has expired at the time `later`.
pub open spec fn expired_spec(ttl: u64, now: u64, later: u64) -> bool {
    match to_expire_ts_spec(ttl, now) {
        Some(ts) => ts <= later,
        None => false,
    }
}

/// Whether a value that is given `ttl` seconds to live at the time `now`
/// has expired at the time `later`.
pub fn ttl_expired_at(ttl: u64, now: u64, later: u64) -> (r: bool)
    ensures
        r == expired_spec(ttl, now, later),
{
    match ttl_to_expire_ts_at(ttl, now) {
        Some(ts) => ts <= later,
        None => false,
    }
}

/// Whether a value that is given `ttl` seconds to live now has expired by
/// the time the clock is read again.
pub fn ttl_expired(ttl: u64) -> (r: bool)
    ensures
        exists|now: u64, later: u64| r == expired_spec(ttl, now, later),
        ttl == 0 ==> !r,
{
    let now = ttl_current_ts();
    let later = ttl_current_ts();
    ttl_expired_at(ttl, now, later)
}

/// How many seconds a value has left at the time `later` that was given
/// `ttl` seconds to live at the time `now`; none for a value that lives
/// forever. Past the time of expiry the number wraps round, so that it is
/// over half of the greatest number.
pub open spec fn expire_time_spec(ttl: u64, now: u64, later: u64) -> Option<u64> {
    match to_expire_ts_spec(ttl, now) {
        Some(ts) => Some(
            if ts >= later {
                (ts - later) as u64
            } else {
                (ts - later + u64::MAX + 1) as u64
            },
        ),
        None => None,
    }
}

/// How many seconds a value has left at the time `later` that was given
/// `ttl` seconds to live at the time `now`.
pub fn ttl_expire_time_at(ttl: u64, now: u64, later: u64) -> (r: Option<u64>)
    ensures
        r == expire_time_spec(ttl, now, later),
{
    match ttl_to_expire_ts_at(ttl, now) {
        Some(ts) => Some(ts.wrapping_sub(later)),
        None => None,
    }
}

/// How many seconds a value has left that is given `ttl` seconds to live
/// now, by the time the clock is read again.
pub fn ttl_expire_time(ttl: u64) -> (r: Option<u64>)
    ensures
        exists|now: u64, later: u64| r == expire_time_spec(ttl, now, later),
        r is None <==> ttl == 0,
{
    let now = ttl_current_ts();
    let later = ttl_current_ts();
    ttl_expire_time_at(ttl, now, later)
}

/// The time left, as it is shown: nothing for a value that lives forever,
/// `expired` past the time of expiry, else the seconds with an `s` behind.
pub open spec fn expire_time_str_spec(left: Option<u64>) -> Seq<char> {
    match left {
        None => Seq::empty(),
        Some(t) => if t > i64::MAX as u64 {
            "expired"@
        } else {
            decimal_spec(t as nat) + seq!['s']
        },
    }
}

/// The time left, as it is shown.
pub fn expire_time_str_of(left: Option<u64>) -> (r: String)
    ensures
        r@ == expire_time_str_spec(left),
{
    match left {
        None => String::new(),
        Some(t) => {
            if t > i64::MAX as u64 {
                String::from_str("expired")
            } else {
                let unit = "s";
                proof {
                    reveal_strlit("s");
                    assert(unit@ =~= seq!['s']);
                }
                u64_to_string(t).concat(unit)
            }
        },
    }
}

/// The time that a value has left that is given `ttl` seconds to live now,
/// as it is shown.
pub fn ttl_expire_time_str(ttl: u64) -> (r: String)
    ensures
        exists|now: u64, later: u64|
            r@ == expire_time_str_spec(expire_time_spec(ttl, now, later)),
        ttl == 0 ==> r@.len() == 0,
{
    let left = ttl_expire_time(ttl);
    expire_time_str_of(left)
}

/// As `ttl_expire_time_str`, for a time to live counted in the frame of
/// the observer.
pub fn ttl_expire_time_str_relativistic(ttl: u64) -> (r: String)
    ensures
        exists|now: u64, later: u64|
            r@ == expire_time_str_spec(expire_time_spec(ttl, now, later)),
        ttl == 0 ==> r@.len() == 0,
{
    let left = ttl_expire_time(ttl);
    expire_time_str_of(left)
}

/// As `ttl_expire_time_str`, for the time to live of a certificate.
pub fn ttl_expire_time_str_cert(ttl: u64) -> (r: String)
    ensures
        exists|now: u64, later: u64|
            r@ == expire_time_str_spec(expire_time_spec(ttl, now, later)),
        ttl == 0 ==> r@.len() == 0,
{
    let left = ttl_expire_time(ttl);
    expire_time_str_of(left)
}

} // verus!
