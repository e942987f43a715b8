//! Time, identifiers and the host name: what the watcher takes from the
//! machine. Nothing is claimed of these beyond what holds of every answer.
use chrono::Timelike;
use vstd::prelude::*;
use crate::signal::opt_text;

verus! {

/// `std::time::Instant`, a point on the monotonic clock.
#[verifier::external_type_specification]
#[verifier::external_body]
pub struct ExInstant(std::time::Instant);

/// `std::time::Instant::now` reads the monotonic clock.
pub assume_specification[ std::time::Instant::now ]() -> std::time::Instant;

/// Whether `at` is a time that the monotonic clock showed when it was read.
pub open spec fn is_instant_read(at: std::time::Instant) -> bool {
    call_ensures(std::time::Instant::now, (), at)
}

/// `std::time::Instant::elapsed`: the nanoseconds since `at`.
#[verifier::external_body]
fn read_elapsed(at: &std::time::Instant) -> (nanos: u128) {
    at.elapsed().as_nanos()
}

/// Whether `nanos` is what the monotonic clock gave as the nanoseconds since
/// `at` when it was asked.
pub closed spec fn is_elapsed(at: std::time::Instant, nanos: u128) -> bool {
    call_ensures(read_elapsed, (&at,), nanos)
}

/// The nanoseconds since `at`.
pub(crate) fn elapsed_nanos(at: &std::time::Instant) -> (nanos: u128)
    ensures
        is_elapsed(*at, nanos),
{
    read_elapsed(at)
}

/// `chrono::Timelike::hour` of `chrono::Local::now`: the hour of local time,
/// which is 0 to 23.
#[verifier::external_body]
fn read_local_hour() -> (hour: u32)
    ensures
        hour < 24,
{
    chrono::Local::now().hour()
}

/// Whether `hour` is the hour of local time that the clock showed when it was
/// read.
pub closed spec fn is_local_hour(hour: u32) -> bool {
    call_ensures(read_local_hour, (), hour)
}

/// The hour of local time.
pub(crate) fn local_hour() -> (hour: u32)
    ensures
        is_local_hour(hour),
        hour < 24,
{
    read_local_hour()
}

/// `chrono::DateTime::to_rfc3339` of `chrono::Utc::now`: the current time as
/// text.
#[verifier::external_body]
fn read_utc_text() -> (text: String) {
    chrono::Utc::now().to_rfc3339()
}

/// Whether `text` is the time that the clock showed when it was read, as text.
pub closed spec fn is_utc_now_text(text: String) -> bool {
    call_ensures(read_utc_text, (), text)
}

/// The current time as text.
pub(crate) fn utc_now_text() -> (text: String)
    ensures
        is_utc_now_text(text),
{
    read_utc_text()
}

/// Seconds in a day.
pub const SECS_PER_DAY: i64 = 86_400;

/// The first second that chrono has a date for, counted from 1970: midnight of
/// January 1 in the year -262143.
pub const FIRST_SECOND: i64 = -8_334_601_228_800;

/// The last second that chrono has a date for, counted from 1970: the one that
/// ends December 31 in the year 262142.
pub const LAST_SECOND: i64 = 8_210_266_876_799;

/// Whether chrono has a date for a second counted from 1970.
pub open spec fn has_date(secs: int) -> bool {
    FIRST_SECOND <= secs <= LAST_SECOND
}

/// Whether a time, as seconds from 1970 and nanoseconds, is one that the
/// system clock can show.
pub open spec fn is_clock_reading(secs: int, nanos: int) -> bool {
    0 <= secs <= LAST_SECOND && 0 <= nanos < 1_000_000_000
}

/// What `chrono::DateTime::to_rfc3339` writes for a time in UTC, given as
/// seconds from 1970 and nanoseconds.
pub uninterp spec fn utc_text(secs: int, nanos: int) -> Seq<char>;

/// The text of the time `days` days before a time, where chrono has a date for
/// both.
pub open spec fn text_days_before(secs: int, nanos: int, days: int) -> Option<Seq<char>> {
    let then = secs - days * SECS_PER_DAY;
    if has_date(secs) && has_date(then) {
        Some(utc_text(then, nanos))
    } else {
        None
    }
}

/// `chrono::Utc::now`, as its `timestamp` and `timestamp_subsec_nanos`: what
/// the system clock shows. Where it reads `std::time::SystemTime`, which is
/// everywhere but in a browser, it hands out no time before 1970, and none that
/// chrono has no date for.
#[verifier::external_body]
fn read_utc() -> (now: (i64, u32))
    ensures
        is_clock_reading(now.0 as int, now.1 as int),
{
    let now = chrono::Utc::now();
    (now.timestamp(), now.timestamp_subsec_nanos())
}

/// Whether `now` is what the system clock showed when it was read, as seconds
/// from 1970 and nanoseconds.
pub closed spec fn is_utc_now(now: (i64, u32)) -> bool {
    call_ensures(read_utc, (), now)
}

/// What the system clock shows, as seconds from 1970 and nanoseconds.
pub(crate) fn utc_now() -> (now: (i64, u32))
    ensures
        is_utc_now(now),
        is_clock_reading(now.0 as int, now.1 as int),
{
    read_utc()
}

/// `chrono::DateTime::checked_sub_signed` with `chrono::TimeDelta::try_days` on
/// `chrono::DateTime::from_timestamp`, written out by `to_rfc3339`: the time
/// `days` days of 86400 seconds before the given one. Claims that there is a
/// result exactly where chrono has a date for both times, and that the text
/// depends on the resulting time alone. What the text is stays unsaid.
#[verifier::external_body]
pub(crate) fn utc_text_before(secs: i64, nanos: u32, days: i64) -> (text: Option<String>)
    requires
        nanos < 1_000_000_000,
    ensures
        text is Some <==> (has_date(secs as int) && has_date(secs - days * SECS_PER_DAY)),
        text matches Some(t) ==> t@ == utc_text(secs - days * SECS_PER_DAY, nanos as int),
{
    let span = chrono::TimeDelta::try_days(days)?;
    let time = chrono::DateTime::from_timestamp(secs, nanos)?;
    Some(time.checked_sub_signed(span)?.to_rfc3339())
}

/// The time `days` days ago as text. The clock decides; see
/// [`text_days_before`].
pub(crate) fn utc_days_ago_text(days: i64) -> (text: Option<String>)
    ensures
        exists|now: (i64, u32)| #[trigger]
            is_utc_now(now) && is_clock_reading(now.0 as int, now.1 as int) && opt_text(text)
                == text_days_before(now.0 as int, now.1 as int, days as int),
{
    let now = utc_now();
    utc_text_before(now.0, now.1, days)
}

/// `uuid::Uuid::now_v7`, written out: a fresh identifier in the hyphenated
/// form, which has 36 characters.
#[verifier::external_body]
fn make_id() -> (id: String)
    ensures
        id@.len() == 36,
{
    uuid::Uuid::now_v7().to_string()
}

/// Whether `id` is an identifier that was made anew.
pub closed spec fn is_fresh_id(id: String) -> bool {
    call_ensures(make_id, (), id)
}

/// A fresh identifier.
pub(crate) fn fresh_id() -> (id: String)
    ensures
        is_fresh_id(id),
        id@.len() == 36,
{
    make_id()
}

/// `sysinfo::System::host_name`: the name of the host, where the system tells
/// it.
#[verifier::external_body]
fn read_host_name() -> (name: Option<String>) {
    sysinfo::System::host_name().ok()
}

/// Whether `name` is what the system gave as the name of the host when it was
/// asked.
pub closed spec fn is_host_name(name: Option<String>) -> bool {
    call_ensures(read_host_name, (), name)
}

/// The name that stands for a host in leases and heartbeats: what the system
/// reported, or `unknown`.
pub open spec fn host_id_of(reported: Option<String>) -> Seq<char> {
    match reported {
        Some(name) => name@,
        None => "unknown"@,
    }
}

/// The name that stands for this host in leases and heartbeats.
pub fn host_id_from(reported: Option<String>) -> (id: String)
    ensures
        id@ == host_id_of(reported),
{
    match reported {
        Some(name) => name,
        None => "unknown".to_string(),
    }
}

/// The identity of this host. What the system reports decides; see
/// [`host_id_from`].
pub fn resolve_host_id() -> (id: String)
    ensures
        exists|reported: Option<String>| #[trigger]
            is_host_name(reported) && id@ == host_id_of(reported),
{
    let reported = read_host_name();
    assert(is_host_name(reported));
    host_id_from(reported)
}

// -- Laws --------------------------------------------------------------------

/// A day has 86400 seconds: the time some days before is that many days' worth
/// of seconds earlier, with the same part of a second. There is none exactly
/// where one of the two times has no date.
pub proof fn law_days_before_are_whole_days(secs: int, nanos: int, days: int)
    ensures
        text_days_before(secs, nanos, days) is Some <==> FIRST_SECOND <= secs <= LAST_SECOND
            && FIRST_SECOND <= secs - 86400 * days <= LAST_SECOND,
        text_days_before(secs, nanos, days) matches Some(text) ==> text == utc_text(
            secs - 86400 * days,
            nanos,
        ),
{
    assert(days * SECS_PER_DAY == 86400 * days) by (nonlinear_arith)
        requires
            SECS_PER_DAY == 86400,
    ;
}

/// A host goes by the name that the system reports, and by `unknown` exactly
/// if it reports none.
pub proof fn law_host_goes_by_its_reported_name(reported: Option<String>, id: String)
    requires
        call_ensures(host_id_from, (reported,), id),
    ensures
        reported matches Some(name) ==> id@ == name@,
        reported is None ==> id@ == "unknown"@,
{
}

} // verus!
