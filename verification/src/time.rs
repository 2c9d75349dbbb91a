//! Instants are whole seconds since the Unix epoch, UTC. Every conversion to or
//! from text goes through `chrono` and `chrono-tz`.
use vstd::prelude::*;
use chrono::{DateTime, NaiveDate, NaiveDateTime, NaiveTime, TimeZone, Timelike, Utc};
use chrono::offset::LocalResult;
use chrono_tz::Tz;
use crate::text::is_ws;

verus! {

/// The instants that `chrono` can represent, from -262143-01-01T00:00:00Z
/// to +262142-12-31T23:59:59Z (its years run from -262143 to 262142).
pub open spec fn chrono_time(t: i64) -> bool {
    -8_334_601_315_200 <= t <= 8_210_266_876_799
}

/// Instants that `chrono` can format: a range well inside its limits.
pub open spec fn formattable(t: i64) -> bool {
    -8_300_000_000_000 <= t <= 8_200_000_000_000
}

pub const SECS_PER_HOUR: i64 = 3600;
pub const SECS_PER_DAY: i64 = 86400;

/// The outcome of reading a wall-clock time in a named time zone.
#[derive(Clone, Copy, PartialEq, Eq, Debug)]
pub enum LocalInstant {
    Single(i64),
    Ambiguous(i64, i64),
    Missing,
}

/// What `DateTime::parse_from_rfc3339` yields, as seconds in UTC.
pub uninterp spec fn rfc3339_secs(raw: Seq<char>) -> Option<i64>;

/// What `NaiveDateTime::parse_from_str(raw, fmt)` yields, read as UTC seconds.
pub uninterp spec fn naive_datetime_secs(raw: Seq<char>, fmt: Seq<char>) -> Option<i64>;

/// What `NaiveDate::parse_from_str(raw, fmt)` yields, as the UTC seconds of its midnight.
pub uninterp spec fn naive_date_secs(raw: Seq<char>, fmt: Seq<char>) -> Option<i64>;

/// What parsing `zone` as a `chrono_tz::Tz` and mapping the wall-clock time
/// `naive` (seconds, read as UTC) in that zone yields; `None` when the zone is unknown.
pub uninterp spec fn zone_local_secs(zone: Seq<char>, naive: i64) -> Option<LocalInstant>;

/// What `DateTime::<Utc>::format(fmt)` renders for the instant `t`.
pub uninterp spec fn format_secs(t: i64, fmt: Seq<char>) -> Seq<char>;

/// What `NaiveTime::parse_from_str(raw, "%H:%M")` yields, as seconds after midnight.
pub uninterp spec fn hhmm_secs(raw: Seq<char>) -> Option<u32>;

/// `DateTime::parse_from_rfc3339(raw)`, converted to UTC seconds. The result is
/// the named value; any instant chrono holds lies within `chrono_time`.
#[verifier::external_body]
pub(crate) fn parse_rfc3339(raw: &str) -> (r: Option<i64>)
    ensures
        r == rfc3339_secs(raw@),
        r matches Some(t) ==> chrono_time(t),
{
    DateTime::parse_from_rfc3339(raw).ok().map(|value| value.timestamp())
}

/// `NaiveDateTime::parse_from_str(raw, fmt)`, read as UTC seconds.
#[verifier::external_body]
pub(crate) fn parse_naive_datetime(raw: &str, fmt: &str) -> (r: Option<i64>)
    ensures
        r == naive_datetime_secs(raw@, fmt@),
        r matches Some(t) ==> chrono_time(t),
{
    NaiveDateTime::parse_from_str(raw, fmt).ok().map(|value| value.and_utc().timestamp())
}

/// `NaiveDate::parse_from_str(raw, fmt)`, as the UTC seconds of that day's midnight.
#[verifier::external_body]
pub(crate) fn parse_naive_date(raw: &str, fmt: &str) -> (r: Option<i64>)
    ensures
        r == naive_date_secs(raw@, fmt@),
        r matches Some(t) ==> chrono_time(t),
{
    NaiveDate::parse_from_str(raw, fmt).ok().map(|day| day.and_time(NaiveTime::MIN).and_utc().timestamp())
}

/// Parses `zone` as a `chrono_tz::Tz` and calls `from_local_datetime` on the
/// wall-clock time `naive`; `None` when the zone name is not known.
#[verifier::external_body]
pub(crate) fn zone_local(zone: &str, naive: i64) -> (r: Option<LocalInstant>)
    ensures
        r == zone_local_secs(zone@, naive),
        r matches Some(LocalInstant::Single(t)) ==> chrono_time(t),
        r matches Some(LocalInstant::Ambiguous(a, b)) ==> chrono_time(a) && chrono_time(b),
{
    let tz = zone.parse::<Tz>().ok()?;
    let local = DateTime::from_timestamp(naive, 0)?.naive_utc();
    Some(match tz.from_local_datetime(&local) {
        LocalResult::Single(t) => LocalInstant::Single(t.timestamp()),
        LocalResult::Ambiguous(a, b) => LocalInstant::Ambiguous(a.timestamp(), b.timestamp()),
        LocalResult::None => LocalInstant::Missing,
    })
}

/// The strftime patterns the library formats with. Each is made only of
/// specifiers that chrono's `StrftimeItems` reads without an error item
/// (`%Y %m %d %H %M %S %b`) and plain characters, so formatting an instant
/// chrono holds with them cannot fail.
pub open spec fn known_format(f: Seq<char>) -> bool {
    ||| f == "%Y%m%dT%H%M%SZ"@ || f == "%Y%m%d"@ || f == "%Y-%m-%dT%H:%M:%S"@
    ||| f == "%Y-%m-%dT%H:%M:%SZ"@ || f == "%Y/%m/%d"@ || f == "%d-%b-%Y"@
}

/// No character of `s` is whitespace.
pub open spec fn no_ws(s: Seq<char>) -> bool {
    forall|i: int| 0 <= i < s.len() ==> !is_ws(#[trigger] s[i])
}

/// The instants of the years 0 to 9999, whose `%Y` is exactly four digits.
pub open spec fn four_digit_year(t: i64) -> bool {
    -62_167_219_200 <= t <= 253_402_300_799
}

/// The UTC basic format `YYYYMMDDTHHMMSSZ`: sixteen ASCII characters, digits
/// but for the `T` and the `Z`.
pub open spec fn basic_utc_text(s: Seq<char>) -> bool {
    &&& s.len() == 16
    &&& s[8] == 'T' && s[15] == 'Z'
    &&& forall|i: int| 0 <= i < 16 && i != 8 && i != 15 ==> '0' <= #[trigger] s[i] && s[i] <= '9'
}

/// `DateTime::<Utc>::format(fmt)` of the instant `t`, for a pattern that
/// formats without error (any other would make `to_string` panic). The known
/// patterns write digits, signs, month abbreviations and their own plain
/// characters, none of them whitespace. In years 0 to 9999 `%Y` writes four
/// digits, so the basic format is sixteen ASCII characters: too short for
/// `DateTime::parse_from_rfc3339`, which wants at least 19 bytes, while
/// `NaiveDateTime::parse_from_str` with the same pattern reads them back as `t`.
#[verifier::external_body]
pub(crate) fn format_time(t: i64, fmt: &str) -> (r: String)
    requires
        formattable(t),
        known_format(fmt@),
    ensures
        r@ == format_secs(t, fmt@),
        no_ws(r@),
        fmt@ == "%Y%m%dT%H%M%SZ"@ && four_digit_year(t) ==> {
            &&& basic_utc_text(r@)
            &&& rfc3339_secs(r@) is None
            &&& naive_datetime_secs(r@, fmt@) == Some(t)
        },
{
    DateTime::from_timestamp(t, 0).unwrap().format(fmt).to_string()
}

/// `NaiveTime::parse_from_str(raw, "%H:%M")`, as seconds after midnight.
#[verifier::external_body]
pub(crate) fn parse_hhmm(raw: &str) -> (r: Option<u32>)
    ensures
        r == hhmm_secs(raw@),
        r matches Some(s) ==> s < 86400,
{
    NaiveTime::parse_from_str(raw, "%H:%M").ok().map(|t| t.num_seconds_from_midnight())
}

/// What `DateTime::<Utc>::to_rfc3339` renders for the instant `t`.
pub uninterp spec fn rfc3339_text(t: i64) -> Seq<char>;

/// `DateTime::<Utc>::to_rfc3339` of the instant `t`.
#[verifier::external_body]
pub(crate) fn to_rfc3339(t: i64) -> (r: String)
    requires
        chrono_time(t),
    ensures
        r@ == rfc3339_text(t),
{
    DateTime::from_timestamp(t, 0).unwrap().to_rfc3339()
}

/// `Utc.timestamp_opt(secs, 0).single()`: the instant when chrono can hold
/// it. `DateTime::from_timestamp` refuses exactly the seconds outside its
/// date range.
#[verifier::external_body]
pub(crate) fn utc_from_secs(secs: i64) -> (r: Option<i64>)
    ensures
        r == (if chrono_time(secs) { Some(secs) } else { None::<i64> }),
{
    Utc.timestamp_opt(secs, 0).single().map(|t| t.timestamp())
}

/// `Utc.timestamp_millis_opt(millis).single()`, in whole seconds: the
/// milliseconds are split by Euclidean division, as
/// `DateTime::from_timestamp_millis` does, and the seconds must be in range.
#[verifier::external_body]
pub(crate) fn utc_from_millis(millis: i64) -> (r: Option<i64>)
    ensures
        r == (if chrono_time((millis / 1000) as i64) { Some((millis / 1000) as i64) } else { None::<i64> }),
{
    Utc.timestamp_millis_opt(millis).single().map(|t| t.timestamp())
}

/// `Utc::now()`, in whole seconds.
#[verifier::external_body]
pub(crate) fn now_utc() -> (r: i64)
    ensures
        chrono_time(r),
{
    Utc::now().timestamp()
}

/// Seconds after local midnight of `chrono::Local::now()`.
#[verifier::external_body]
pub(crate) fn local_seconds_of_day() -> (r: u32)
    ensures
        r < 86400,
{
    chrono::Local::now().time().num_seconds_from_midnight()
}

}

verus! {

/// `Utc::now().format(fmt)`, for a pattern that formats without error. The
/// text depends on the clock; of it only this is promised: the known
/// patterns write no whitespace.
#[verifier::external_body]
pub(crate) fn format_now(fmt: &str) -> (r: String)
    requires
        known_format(fmt@),
    ensures
        no_ws(r@),
{
    Utc::now().format(fmt).to_string()
}

}
