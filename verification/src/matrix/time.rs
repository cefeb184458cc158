//! When an event happened, as the client is told.

use vstd::prelude::*;
use vstd::string::*;

use crate::ircd::proto::opt_text;

verus! {

/// The last second that can be put as a date.
pub const LAST_SECOND: u64 = 8_210_266_876_799;

/// A point in time, in milliseconds since the beginning of 1970.
#[derive(Debug, Clone, Copy, PartialEq, Eq, Structural)]
pub struct MilliSecondsSinceUnixEpoch(pub u64);

/// Whether a point in time can be put as a date.
pub open spec fn has_date(millis: int) -> bool {
    0 <= millis && millis / 1000 <= LAST_SECOND
}

/// The nanoseconds in twelve hours.
pub open spec fn twelve_hours() -> int {
    43_200_000_000_000
}

/// The nanoseconds in ten seconds.
pub open spec fn ten_seconds() -> int {
    10_000_000_000
}

/// How a point in time is put, seen from another: nothing is said within ten seconds; hour,
/// minute and second back to twelve hours ago; the full date before that, or in the future.
/// Both are in nanoseconds.
pub open spec fn time_format(then: int, now: int) -> Option<Seq<char>> {
    if then < now - twelve_hours() {
        Some("%Y-%m-%d %H:%M:%S"@)
    } else if then < now - ten_seconds() {
        Some("%H:%M:%S"@)
    } else if then < now + ten_seconds() {
        None
    } else {
        Some("%Y-%m-%d %H:%M:%S"@)
    }
}

/// What `chrono::DateTime::format` gives for a point in time, in milliseconds since the
/// beginning of 1970, at an offset from UTC in seconds, with a format.
pub uninterp spec fn chrono_formatted(millis: int, offset: int, format: Seq<char>) -> Seq<char>;

/// How a point in time is shown to the client, seen from another, where local time is some
/// seconds ahead of UTC.
pub open spec fn shown_at(millis: int, now: int, offset: int) -> Option<Seq<char>> {
    match time_format(millis * 1_000_000, now) {
        Some(format) => Some(chrono_formatted(millis, offset, format)),
        None => None,
    }
}

/// Whether a point in time is shown as `shown` at some time in some time zone, less than a day
/// away from UTC.
pub open spec fn shown_sometime(millis: int, shown: Option<Seq<char>>) -> bool {
    exists|now: int, offset: int|
        -86_400 < offset < 86_400 && shown == #[trigger] shown_at(millis, now, offset)
}

/// `chrono::offset::Local::now` reads the machine's clock. The seconds since the beginning of
/// 1970, and the nanoseconds since the last full one, which are less than a second.
#[verifier::external_body]
fn clock() -> (r: (i64, u32))
    ensures
        r.1 < 1_000_000_000,
{
    let now = chrono::offset::Local::now();
    (now.timestamp(), now.timestamp_subsec_nanos())
}

/// `chrono::DateTime::<Local>::from` looks up, for a point in time, how many seconds the
/// machine's time zone is ahead of UTC, which are less than a day's. It panics on a point in
/// time that cannot be put as a date.
#[verifier::external_body]
fn local_offset(millis: u64) -> (r: i32)
    requires
        has_date(millis as int),
    ensures
        -86_400 < r < 86_400,
{
    let since = std::time::Duration::from_millis(millis);
    let local: chrono::DateTime<chrono::offset::Local> = (std::time::SystemTime::UNIX_EPOCH
        + since).into();
    local.offset().local_minus_utc()
}

/// `chrono::DateTime::format`, for a point in time at an offset from UTC. Both formats are
/// ones that it knows; it panics on others, on a point in time that cannot be put as a date and
/// on an offset of a day or more.
#[verifier::external_body]
fn formatted(millis: u64, offset: i32, format: &str) -> (r: String)
    requires
        has_date(millis as int),
        -86_400 < offset < 86_400,
        format@ == "%Y-%m-%d %H:%M:%S"@ || format@ == "%H:%M:%S"@,
    ensures
        r@ == chrono_formatted(millis as int, offset as int, format@),
{
    let zone = chrono::FixedOffset::east_opt(offset).unwrap();
    let utc = chrono::DateTime::from_timestamp_millis(millis as i64).unwrap();
    utc.with_timezone(&zone).format(format).to_string()
}

/// How a point in time is put, seen from `nanos` nanoseconds behind second `secs`.
pub fn format_for(millis: u64, secs: i64, nanos: u32) -> (r: Option<&'static str>)
    ensures
        (match r {
            Some(format) => Some(format@),
            None => None,
        }) == time_format(millis * 1_000_000, secs * 1_000_000_000 + nanos),
{
    let then: i128 = millis as i128 * 1_000_000;
    let now: i128 = secs as i128 * 1_000_000_000 + nanos as i128;
    if then < now - 43_200_000_000_000 {
        Some("%Y-%m-%d %H:%M:%S")
    } else if then < now - 10_000_000_000 {
        Some("%H:%M:%S")
    } else if then < now + 10_000_000_000 {
        None
    } else {
        // date in the future?!
        Some("%Y-%m-%d %H:%M:%S")
    }
}

/// How a point in time is shown to the client, seen from `nanos` nanoseconds behind second
/// `secs`, where local time is `offset` seconds ahead of UTC.
pub fn localtime_at(millis: u64, secs: i64, nanos: u32, offset: i32) -> (r: Option<String>)
    requires
        has_date(millis as int),
        -86_400 < offset < 86_400,
    ensures
        opt_text(r) == shown_at(millis as int, secs * 1_000_000_000 + nanos, offset as int),
{
    match format_for(millis, secs, nanos) {
        Some(format) => Some(formatted(millis, offset, format)),
        None => None,
    }
}

/// A point in time that can be shown in local time.
pub trait ToLocal {
    /// The milliseconds since the beginning of 1970.
    spec fn millis(&self) -> int;

    /// How the point in time is shown to the client now: empty if within 10s, just
    /// hour/min/sec if < 12h from now, else full date.
    fn localtime(&self) -> (r: Option<String>)
        requires
            has_date(self.millis()),
        ensures
            shown_sometime(self.millis(), opt_text(r)),
    ;
}

impl ToLocal for MilliSecondsSinceUnixEpoch {
    open spec fn millis(&self) -> int {
        self.0 as int
    }

    fn localtime(&self) -> (r: Option<String>) {
        let offset: i32 = local_offset(self.0);
        let now: (i64, u32) = clock();
        let r = localtime_at(self.0, now.0, now.1, offset);
        assert(opt_text(r) == shown_at(self.millis(), now.0 * 1_000_000_000 + now.1, offset as int));
        r
    }
}

/// Whether a point in time can be put as a date.
pub fn can_show(ts: MilliSecondsSinceUnixEpoch) -> (r: bool)
    ensures
        r == has_date(ts.0 as int),
{
    ts.0 / 1000 <= LAST_SECOND
}

/// What is shown depends only on how far two points in time are apart, and what lies in the
/// future is never shown without its date.
pub proof fn only_the_distance_counts(then: int, now: int, shift: int)
    ensures
        time_format(then + shift, now + shift) == time_format(then, now),
        time_format(then, now) is None <==> now - ten_seconds() <= then < now + ten_seconds(),
        then >= now + ten_seconds() ==> time_format(then, now) == Some("%Y-%m-%d %H:%M:%S"@),
{
}

/// How an event is put in time: with its date where it is more than twelve hours past or at
/// least ten seconds to come, with hour, minute and second where it is more than ten seconds
/// past, and not at all otherwise. Each of both is put with the format for it, in the time zone
/// that is asked for.
pub proof fn events_are_put_in_time(millis: int, now: int, offset: int)
    ensures
        ({
            let then = millis * 1_000_000;
            let date = Some(chrono_formatted(millis, offset, "%Y-%m-%d %H:%M:%S"@));
            let hour = Some(chrono_formatted(millis, offset, "%H:%M:%S"@));
            &&& now - then > 12 * 3600 * 1_000_000_000 ==> shown_at(millis, now, offset) == date
            &&& 10 * 1_000_000_000 < now - then <= 12 * 3600 * 1_000_000_000 ==> shown_at(
                millis,
                now,
                offset,
            ) == hour
            &&& -10 * 1_000_000_000 < now - then <= 10 * 1_000_000_000 ==> shown_at(
                millis,
                now,
                offset,
            ) is None
            &&& then - now >= 10 * 1_000_000_000 ==> shown_at(millis, now, offset) == date
        }),
{
}

/// Times are put as a date up to the last second of the year 262142, and no further.
pub proof fn dates_have_an_end(millis: int)
    requires
        millis >= 0,
    ensures
        has_date(millis) <==> millis < 8_210_266_876_800 * 1000,
{
}

/// What a point in time can be shown as is what it is shown as at some time and in some time zone
/// less than a day away from UTC, and nothing else: nothing, its time, or its date and time.
pub proof fn times_are_shown_in_some_zone(millis: int, now: int, offset: int, shown: Seq<char>)
    ensures
        -86_400 < offset < 86_400 ==> shown_sometime(millis, shown_at(millis, now, offset)),
        shown_sometime(millis, Some(shown)) ==> exists|zone: int, format: Seq<char>|
            {
                &&& -24 * 60 * 60 < zone < 24 * 60 * 60
                &&& format == "%H:%M:%S"@ || format == "%Y-%m-%d %H:%M:%S"@
                &&& shown == #[trigger] chrono_formatted(millis, zone, format)
            },
{
    if shown_sometime(millis, Some(shown)) {
        let (then, zone) = choose|then: int, zone: int|
            -86_400 < zone < 86_400 && Some(shown) == #[trigger] shown_at(millis, then, zone);
        let format = time_format(millis * 1_000_000, then)->0;
        assert(shown == chrono_formatted(millis, zone, format));
    }
}

} // verus!
