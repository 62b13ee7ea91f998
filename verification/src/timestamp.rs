//! Timestamps: RFC 3339 text in, one canonical UTC text out.
use vstd::prelude::*;

use crate::calendar::{canonical_instant, in_four_digit_years, is_canonical};

verus! {

/// The single text format the measurement store uses: UTC with
/// milliseconds, e.g. `2026-07-20T09:56:55.672Z`. Texts in this format sort
/// in chronological order (`law_canonical_texts_sort_by_time`, for the
/// years 0000 to 9999 that `%Y` writes with four digits).
pub const TIMESTAMP_FORMAT: &'static str = "%Y-%m-%dT%H:%M:%S%.3fZ";

/// The instant an RFC 3339 text denotes, as chrono reads it: whole
/// seconds since the Unix epoch (`timestamp`) and the nanoseconds past them
/// (`timestamp_subsec_nanos`, a billion or more within a leap second);
/// `None` for text that is not RFC 3339.
pub uninterp spec fn rfc3339_instant(text: Seq<char>) -> Option<(i64, u32)>;

/// The instant an RFC 3339 text denotes, in milliseconds since the Unix
/// epoch, sub-millisecond digits dropped, as `DateTime::timestamp_millis`
/// gives it; `None` for text that is not RFC 3339.
pub open spec fn rfc3339_epoch_millis(text: Seq<char>) -> Option<i64> {
    match rfc3339_instant(text) {
        Some((secs, nanos)) => Some((secs * 1000 + nanos / 1_000_000) as i64),
        None => None,
    }
}

/// The instants an RFC 3339 text can denote, in milliseconds since the Unix
/// epoch. Its year has four digits (0000 to 9999) and its offset is at most
/// 23:59 either way, so it lies between 0000-01-01T00:00:00+23:59 and
/// 9999-12-31T23:59:60.999-23:59 (a leap second read as a second past
/// 23:59:59).
pub open spec fn in_rfc3339_range(millis: int) -> bool {
    -62_167_305_540_000 <= millis <= 253_402_387_140_999
}

/// Reads an RFC 3339 timestamp with `chrono::DateTime::parse_from_rfc3339`
/// and gives its instant as `DateTime::timestamp` and
/// `DateTime::timestamp_subsec_nanos`. The parser reads exactly four year
/// digits and offsets up to 23:59, so what it accepts lies in
/// `in_rfc3339_range`; a leap second (`:60`) adds a billion nanoseconds to
/// a fraction below a billion.
#[verifier::external_body]
pub(crate) fn rfc3339_parts(text: &str) -> (r: Option<(i64, u32)>)
    ensures
        r == rfc3339_instant(text@),
        r matches Some((secs, nanos)) ==> nanos < 2_000_000_000 && in_rfc3339_range(
            secs * 1000 + nanos / 1_000_000,
        ),
{
    match chrono::DateTime::parse_from_rfc3339(text) {
        Ok(t) => Some((t.timestamp(), t.timestamp_subsec_nanos())),
        Err(_) => None,
    }
}

/// The instant of an RFC 3339 timestamp in milliseconds since the Unix
/// epoch, as `DateTime::timestamp_millis` computes it from the seconds and
/// the nanoseconds.
pub(crate) fn rfc3339_millis(text: &str) -> (r: Option<i64>)
    ensures
        r == rfc3339_epoch_millis(text@),
        r matches Some(ms) ==> in_rfc3339_range(ms as int),
{
    match rfc3339_parts(text) {
        Some((secs, nanos)) => Some(secs * 1000 + (nanos / 1_000_000) as i64),
        None => None,
    }
}

/// The RFC 3339 text of an instant given as whole seconds since the Unix
/// epoch and nanoseconds past them, with a `+00:00` offset, as chrono's
/// `to_rfc3339` writes it; `None` where chrono has no such instant.
pub uninterp spec fn rfc3339_text(secs: i64, nanos: u32) -> Option<Seq<char>>;

/// Writes an instant with `chrono::DateTime::from_timestamp`, then
/// `to_rfc3339`; `None` where chrono has no date for it.
#[verifier::external_body]
pub(crate) fn rfc3339_from_parts(secs: i64, nanos: u32) -> (r: Option<String>)
    ensures
        match r {
            Some(s) => rfc3339_text(secs, nanos) == Some(s@),
            None => rfc3339_text(secs, nanos) is None,
        },
{
    match chrono::DateTime::from_timestamp(secs, nanos) {
        Some(t) => Some(t.to_rfc3339()),
        None => None,
    }
}

/// The formats this library writes instants in: the canonical timestamp,
/// the calendar date, and the timestamp to the whole second.
pub open spec fn is_library_format(format: Seq<char>) -> bool {
    format == TIMESTAMP_FORMAT@ || format == "%Y-%m-%d"@ || format == "%Y-%m-%dT%H:%M:%SZ"@
}

/// The instants chrono's `DateTime<Utc>` can hold, in milliseconds since
/// the Unix epoch: from `DateTime::<Utc>::MIN_UTC` (1 January of year
/// -262143, midnight) to `DateTime::<Utc>::MAX_UTC` (31 December of year
/// 262142, 23:59:59.999).
pub open spec fn in_chrono_range(millis: int) -> bool {
    -8_334_601_228_800_000 <= millis <= 8_210_266_876_799_999
}

/// The text chrono writes for an instant given in milliseconds since the
/// Unix epoch, in UTC, with a `strftime`-style format; `None` outside
/// chrono's range of dates.
pub uninterp spec fn utc_formatted(millis: i64, format: Seq<char>) -> Option<Seq<char>>;

/// Writes an instant with `chrono::DateTime::from_timestamp_millis`, then
/// `format(format)` and `to_string`; `None` where chrono has no date for
/// it, which its documentation says is exactly outside the range of
/// `DateTime<Utc>`. Only the library's own formats are taken: chrono's
/// formatting fails (and `to_string` panics) on a malformed format, never
/// on these. chrono counts dates in the proleptic Gregorian calendar and
/// writes `%Y` with four digits for the years 0 to 9999, `%m`, `%d`, `%H`,
/// `%M` and `%S` with two and `%.3f` as a point and three; an instant
/// without a leap second. So for those years the canonical format gives a
/// text that names the instant (`canonical_instant`), and that
/// `parse_from_rfc3339` reads back to the same instant.
#[verifier::external_body]
pub(crate) fn format_utc_millis(millis: i64, format: &str) -> (r: Option<String>)
    requires
        is_library_format(format@),
    ensures
        in_chrono_range(millis as int) ==> r is Some,
        match r {
            Some(s) => format@ == TIMESTAMP_FORMAT@ && in_four_digit_years(millis as int) ==> (
            is_canonical(s@) && canonical_instant(s@) == millis && rfc3339_epoch_millis(s@)
                == Some(millis)),
            None => true,
        },
        match r {
            Some(s) => utc_formatted(millis, format@) == Some(s@),
            None => utc_formatted(millis, format@) is None,
        },
{
    match chrono::DateTime::from_timestamp_millis(millis) {
        Some(t) => Some(t.format(format).to_string()),
        None => None,
    }
}

/// The canonical text of an instant given in milliseconds.
pub open spec fn canonical_text(millis: i64) -> Option<Seq<char>> {
    utc_formatted(millis, TIMESTAMP_FORMAT@)
}

/// The UTC calendar date (`YYYY-MM-DD`) of an instant given in milliseconds.
pub open spec fn utc_date_text(millis: i64) -> Option<Seq<char>> {
    utc_formatted(millis, "%Y-%m-%d"@)
}

/// The UTC text of an instant given in milliseconds, to the whole second
/// (`%Y-%m-%dT%H:%M:%SZ`).
pub open spec fn utc_seconds_text(millis: i64) -> Option<Seq<char>> {
    utc_formatted(millis, "%Y-%m-%dT%H:%M:%SZ"@)
}

/// The current time from `chrono::Utc::now`, in milliseconds since the Unix
/// epoch (`timestamp_millis`). Which instant it is depends on the clock; it
/// is an instant that `DateTime<Utc>` holds, since `Utc::now` builds one.
/// `Utc::now` panics when the system clock reads a time before 1970; no
/// argument decides that, so no `requires` can rule it out.
#[verifier::external_body]
pub(crate) fn now_millis() -> (r: i64)
    ensures
        in_chrono_range(r as int),
{
    chrono::Utc::now().timestamp_millis()
}

/// What `normalize_timestamp` makes of a text: its canonical UTC form.
pub open spec fn spec_normalize(text: Seq<char>) -> Option<Seq<char>> {
    match rfc3339_epoch_millis(text) {
        Some(ms) => canonical_text(ms),
        None => None,
    }
}

/// The canonical text of the current time; the store writes this for every
/// new measurement.
pub fn now_timestamp() -> (r: String)
    ensures
        exists|ms: i64| in_chrono_range(ms as int) && canonical_text(ms) == Some(r@),
{
    let ms = now_millis();
    match format_utc_millis(ms, TIMESTAMP_FORMAT) {
        Some(s) => {
            assert(in_chrono_range(ms as int) && canonical_text(ms) == Some(s@));
            s
        },
        None => {
            // `ms` is within chrono's range, so formatting it succeeded.
            assert(false);
            String::new()
        },
    }
}

} // verus!
