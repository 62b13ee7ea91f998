//! The rules of a Bundesnetzagentur measurement campaign
//! (Nachweisverfahren): 30 measurements across at least 3 calendar days
//! within 14 days, at least 5 minutes apart, with a 3-hour pause after the
//! fifth measurement of a day.
use vstd::prelude::*;

use crate::text::{push_i64, push_str, push_u64, signed_decimal, decimal};
use crate::timestamp::{
    format_utc_millis, in_rfc3339_range, rfc3339_epoch_millis, rfc3339_from_parts, rfc3339_instant,
    rfc3339_millis, rfc3339_parts, rfc3339_text, utc_date_text,
};

verus! {

/// Measurements a campaign needs.
pub const CAMPAIGN_REQUIRED_MEASUREMENTS: u64 = 30;

/// Calendar days the measurements must span.
pub const CAMPAIGN_REQUIRED_DAYS: u64 = 3;

/// Days a campaign stays open.
pub const CAMPAIGN_WINDOW_DAYS: i64 = 14;

/// Seconds required between two measurements.
pub const MIN_GAP_SECS: i64 = 300;

/// Seconds required after the last measurement of a block.
pub const BLOCK_GAP_SECS: i64 = 10_800;

/// Measurements in a block.
pub const BLOCK_SIZE: u64 = 5;

/// A stored campaign.
#[derive(Debug)]
pub struct Campaign {
    pub id: i64,
    pub provider_id: i64,
    pub plan_id: String,
    pub started_at: String,
    pub status: String,
}

/// Where a campaign stands.
#[derive(Debug)]
pub struct CampaignStatus {
    pub campaign_id: i64,
    pub provider_id: i64,
    pub plan_id: String,
    pub status: String,
    pub started_at: String,
    pub measurements_total: u64,
    pub measurements_needed: u64,
    pub days_spanned: u64,
    pub days_needed: u64,
    pub days_remaining_in_window: i64,
    pub next_measurement_allowed_at: Option<String>,
    pub warnings: Vec<String>,
}

/// A measurement taken too soon after the previous one.
#[derive(Debug, Clone, Copy, PartialEq, Eq)]
pub enum TimingWarning {
    /// The day's block of five is full and three hours have not passed.
    BlockGap { gap_secs: i64, today_count: u64, wait_mins: i64 },
    /// Five minutes have not passed since the last measurement.
    MinGap { gap_secs: i64, wait_secs: i64 },
}

/// A timestamp the campaign rules could not read.
#[derive(Debug, Clone, PartialEq, Eq)]
pub enum CampaignError {
    /// The campaign's start is not RFC 3339.
    InvalidStart(String),
    /// A stored measurement's timestamp is not RFC 3339, read while
    /// checking the pause before a new measurement.
    InvalidMeasurement(String),
    /// The last of today's timestamps is not RFC 3339, read while working
    /// out when the next measurement is allowed.
    InvalidTimestamp(String),
}

/// Why a measurement cannot be recorded for a campaign.
#[derive(Debug, Clone, PartialEq, Eq)]
pub enum RecordRefusal {
    /// The campaign is not active; its status follows.
    NotActive { campaign_id: i64, status: String },
    /// The 14-day window has passed; it ended at the instant given (in
    /// milliseconds since the Unix epoch). The campaign is to be marked
    /// expired.
    Expired { campaign_id: i64, window_end_millis: i64 },
    /// The campaign's start could not be read.
    Invalid(CampaignError),
}

impl TimingWarning {
    /// The warning as the command line prints it.
    pub fn message(&self) -> (m: String)
        ensures
            m@ == match *self {
                TimingWarning::BlockGap { gap_secs, today_count, wait_mins } => "only "@
                    + signed_decimal(gap_secs as int) + "s since measurement #"@ + decimal(
                    today_count as nat,
                ) + " today \u{2014} the protocol requires a 3-hour gap between measurements 5 and 6. Wait ~"@
                    + signed_decimal(wait_mins as int) + " more minutes."@,
                TimingWarning::MinGap { gap_secs, wait_secs } => "only "@ + signed_decimal(
                    gap_secs as int,
                ) + "s since last measurement \u{2014} the protocol requires at least 5 minutes between measurements. Wait "@
                    + signed_decimal(wait_secs as int) + " more seconds."@,
            },
    {
        let mut m = String::new();
        match *self {
            TimingWarning::BlockGap { gap_secs, today_count, wait_mins } => {
                push_str(&mut m, "only ");
                push_i64(&mut m, gap_secs);
                push_str(&mut m, "s since measurement #");
                push_u64(&mut m, today_count);
                push_str(
                    &mut m,
                    " today \u{2014} the protocol requires a 3-hour gap between measurements 5 and 6. Wait ~",
                );
                push_i64(&mut m, wait_mins);
                push_str(&mut m, " more minutes.");
            },
            TimingWarning::MinGap { gap_secs, wait_secs } => {
                push_str(&mut m, "only ");
                push_i64(&mut m, gap_secs);
                push_str(
                    &mut m,
                    "s since last measurement \u{2014} the protocol requires at least 5 minutes between measurements. Wait ",
                );
                push_i64(&mut m, wait_secs);
                push_str(&mut m, " more seconds.");
            },
        }
        m
    }
}

impl CampaignError {
    /// The error as the command line prints it.
    pub fn message(&self) -> (m: String)
        ensures
            m@ == match *self {
                CampaignError::InvalidStart(_) => "invalid campaign start timestamp"@,
                CampaignError::InvalidMeasurement(_) => "invalid measurement timestamp"@,
                CampaignError::InvalidTimestamp(_) => "invalid timestamp"@,
            },
    {
        match self {
            CampaignError::InvalidStart(_) => String::from_str("invalid campaign start timestamp"),
            CampaignError::InvalidMeasurement(_) => String::from_str("invalid measurement timestamp"),
            CampaignError::InvalidTimestamp(_) => String::from_str("invalid timestamp"),
        }
    }
}

impl RecordRefusal {
    /// The refusal as the command line prints it; an expired window names
    /// the UTC date it ended on.
    pub fn message(&self) -> (m: String)
        ensures
            match *self {
                RecordRefusal::NotActive { campaign_id, status } => m@ == "campaign #"@ + signed_decimal(
                    campaign_id as int,
                ) + " is not active (status: "@ + status@ + ")"@,
                RecordRefusal::Expired { campaign_id, window_end_millis } => m@ == "campaign #"@
                    + signed_decimal(campaign_id as int)
                    + " has expired \u{2014} the 14-day window ended on "@ + match utc_date_text(
                    window_end_millis,
                ) {
                    Some(d) => d,
                    None => Seq::empty(),
                },
                RecordRefusal::Invalid(e) => m@ == match e {
                    CampaignError::InvalidStart(_) => "invalid campaign start timestamp"@,
                    CampaignError::InvalidMeasurement(_) => "invalid measurement timestamp"@,
                    CampaignError::InvalidTimestamp(_) => "invalid timestamp"@,
                },
            },
    {
        match self {
            RecordRefusal::NotActive { campaign_id, status } => {
                let mut m = String::new();
                push_str(&mut m, "campaign #");
                push_i64(&mut m, *campaign_id);
                push_str(&mut m, " is not active (status: ");
                push_str(&mut m, status.as_str());
                push_str(&mut m, ")");
                m
            },
            RecordRefusal::Expired { campaign_id, window_end_millis } => {
                let mut m = String::new();
                push_str(&mut m, "campaign #");
                push_i64(&mut m, *campaign_id);
                push_str(&mut m, " has expired \u{2014} the 14-day window ended on ");
                match format_utc_millis(*window_end_millis, "%Y-%m-%d") {
                    Some(d) => push_str(&mut m, d.as_str()),
                    None => {},
                }
                m
            },
            RecordRefusal::Invalid(e) => e.message(),
        }
    }
}

/// `a / b` rounded toward zero, as Rust's integer division does (`b > 0`).
pub open spec fn trunc_div(a: int, b: int) -> int {
    if a >= 0 {
        a / b
    } else {
        -((-a) / b)
    }
}

/// Whole seconds from `earlier` to `later` (milliseconds), rounded toward
/// zero, as chrono's `num_seconds` counts them.
pub open spec fn whole_seconds(later: int, earlier: int) -> int {
    trunc_div(later - earlier, 1000)
}

/// Whole days from `earlier` to `later` (milliseconds), rounded toward zero.
pub open spec fn whole_days(later: int, earlier: int) -> int {
    trunc_div(whole_seconds(later, earlier), 86400)
}

/// The pause required after the last of `count` measurements today.
pub open spec fn required_gap(count: u64) -> int {
    if count == BLOCK_SIZE {
        BLOCK_GAP_SECS as int
    } else {
        MIN_GAP_SECS as int
    }
}

/// Nanoseconds from a last measurement, read by chrono as `secs` whole
/// seconds since the Unix epoch and `nanos` past them, to `now`
/// (milliseconds), as chrono's `signed_duration_since` counts them: a leap
/// second (`nanos` of a billion or more) counts in full once the time of
/// day has moved past it.
pub open spec fn elapsed_nanos(secs: int, nanos: int, now: int) -> int {
    let leap: int = if nanos >= 1_000_000_000 && (now / 1000) % 86400 > secs % 86400 {
        1_000_000_000
    } else {
        0
    };
    now * 1_000_000 - (secs * 1_000_000_000 + nanos) + leap
}

/// The instant, in nanoseconds since the Unix epoch, that chrono reaches by
/// adding `gap` whole seconds to a measurement read as `secs` and `nanos`:
/// adding whole seconds leaves a leap second.
pub open spec fn after_gap_nanos(secs: int, nanos: int, gap: int) -> int {
    let frac: int = if nanos >= 1_000_000_000 {
        nanos - 1_000_000_000
    } else {
        nanos
    };
    (secs + gap) * 1_000_000_000 + frac
}

/// The warning for a measurement at `now` (milliseconds), given today's
/// count and the last of today's measurements as chrono reads it (whole
/// seconds and nanoseconds).
pub open spec fn spec_timing_warning(count: u64, last: Option<(int, int)>, now: int) -> Option<
    TimingWarning,
> {
    match last {
        None => None,
        Some((secs, nanos)) => {
            let gap = trunc_div(elapsed_nanos(secs, nanos, now), 1_000_000_000);
            if count == BLOCK_SIZE {
                if gap < BLOCK_GAP_SECS {
                    Some(
                        TimingWarning::BlockGap {
                            gap_secs: gap as i64,
                            today_count: count,
                            wait_mins: trunc_div(BLOCK_GAP_SECS - gap, 60) as i64,
                        },
                    )
                } else {
                    None
                }
            } else if gap < MIN_GAP_SECS {
                Some(TimingWarning::MinGap { gap_secs: gap as i64, wait_secs: (MIN_GAP_SECS - gap) as i64 })
            } else {
                None
            }
        },
    }
}

/// The earliest instant (nanoseconds since the Unix epoch) the next
/// measurement is allowed, when that is still after `now` (milliseconds).
pub open spec fn spec_next_allowed(count: u64, last: Option<(int, int)>, now: int) -> Option<int> {
    if count == 0 {
        None
    } else {
        match last {
            None => None,
            Some((secs, nanos)) => {
                let next = after_gap_nanos(secs, nanos, required_gap(count));
                if next <= now * 1_000_000 {
                    None
                } else {
                    Some(next)
                }
            },
        }
    }
}

fn trunc_div_i128(a: i128, b: i128) -> (r: i128)
    requires
        b > 0,
        -170141183460469231731687303715884105727 <= a,
    ensures
        r == trunc_div(a as int, b as int),
{
    if a >= 0 {
        a / b
    } else {
        -((-a) / b)
    }
}

fn seconds_between(later: i64, earlier: i64) -> (r: i64)
    ensures
        r == whole_seconds(later as int, earlier as int),
{
    let d: i128 = (later as i128) - (earlier as i128);
    let s = trunc_div_i128(d, 1000);
    assert(-18446744073709552 <= s <= 18446744073709552) by {
        assert(-18446744073709551615 <= d <= 18446744073709551615);
    }
    s as i64
}

/// `a` divided by `b`, rounded down, and the remainder (`b > 0`).
fn floor_div_mod(a: i128, b: i128) -> (r: (i128, i128))
    requires
        b > 0,
        -170141183460469231731687303715884105727 <= a,
    ensures
        r.0 == a as int / b as int,
        r.1 == a as int % b as int,
{
    if a >= 0 {
        (a / b, a % b)
    } else {
        let p = -a;
        let q = p / b;
        let m = p % b;
        assert(p == q * b + m) by {
            vstd::arithmetic::div_mod::lemma_fundamental_div_mod(p as int, b as int);
            vstd::arithmetic::mul::lemma_mul_is_commutative(b as int, q as int);
        }
        assert(0 <= q <= p) by {
            vstd::arithmetic::div_mod::lemma_div_pos_is_pos(p as int, b as int);
            vstd::arithmetic::div_mod::lemma_div_is_ordered_by_denominator(p as int, 1, b as int);
        }
        if m == 0 {
            proof {
                assert(a == (-q) * b + 0) by (nonlinear_arith)
                    requires
                        p == q * b + m,
                        m == 0,
                        a == -p,
                ;
                vstd::arithmetic::div_mod::lemma_fundamental_div_mod_converse(a as int, b as int, -q as int, 0);
            }
            (-q, 0)
        } else {
            proof {
                assert(a == (-q - 1) * b + (b - m)) by (nonlinear_arith)
                    requires
                        p == q * b + m,
                        a == -p,
                ;
                vstd::arithmetic::div_mod::lemma_fundamental_div_mod_converse(
                    a as int,
                    b as int,
                    -q - 1,
                    b - m,
                );
            }
            (-q - 1, b - m)
        }
    }
}

/// Reads the last of today's measurements, if any, as whole seconds and
/// nanoseconds.
fn read_last(last: Option<&str>) -> (r: Result<Option<(i64, u32)>, CampaignError>)
    ensures
        match last {
            None => r == Ok::<Option<(i64, u32)>, CampaignError>(None),
            Some(t) => match rfc3339_instant(t@) {
                Some(p) => r == Ok::<Option<(i64, u32)>, CampaignError>(Some(p)) && p.1 < 2_000_000_000
                    && in_rfc3339_range(p.0 * 1000 + p.1 / 1_000_000),
                None => r matches Err(CampaignError::InvalidMeasurement(x)) && x@ == t@,
            },
        },
{
    match last {
        None => Ok(None),
        Some(t) => match rfc3339_parts(t) {
            Some(p) => Ok(Some(p)),
            None => Err(CampaignError::InvalidMeasurement(String::from_str(t))),
        },
    }
}

/// The nanoseconds from a last measurement to `now_ms`, as chrono counts
/// them.
fn elapsed(secs: i64, nanos: u32, now_ms: i64) -> (r: i128)
    requires
        nanos < 2_000_000_000,
        in_rfc3339_range(secs * 1000 + nanos / 1_000_000),
    ensures
        r == elapsed_nanos(secs as int, nanos as int, now_ms as int),
        -20_000_000_000_000_000_000_000_000 <= r <= 20_000_000_000_000_000_000_000_000,
{
    let (now_secs, _) = floor_div_mod(now_ms as i128, 1000);
    let (_, now_tod) = floor_div_mod(now_secs, 86400);
    let (_, last_tod) = floor_div_mod(secs as i128, 86400);
    let leap: i128 = if nanos >= 1_000_000_000 && now_tod > last_tod {
        1_000_000_000
    } else {
        0
    };
    (now_ms as i128) * 1_000_000 - ((secs as i128) * 1_000_000_000 + nanos as i128) + leap
}

/// Checks a measurement about to be taken at `now_ms` against the pauses
/// the protocol requires, given how many measurements today has and the
/// timestamp of the last of them.
pub fn check_timing(today_count: u64, last_today: Option<&str>, now_ms: i64) -> (r: Result<
    Option<TimingWarning>,
    CampaignError,
>)
    ensures
        match last_today {
            None => r == Ok::<Option<TimingWarning>, CampaignError>(None),
            Some(t) => match rfc3339_instant(t@) {
                Some((secs, nanos)) => r == Ok::<Option<TimingWarning>, CampaignError>(
                    spec_timing_warning(today_count, Some((secs as int, nanos as int)), now_ms as int),
                ),
                None => r matches Err(CampaignError::InvalidMeasurement(x)) && x@ == t@,
            },
        },
{
    let last = match read_last(last_today) {
        Ok(l) => l,
        Err(e) => return Err(e),
    };
    match last {
        None => Ok(None),
        Some((secs, nanos)) => {
            let e = elapsed(secs, nanos, now_ms);
            let g = trunc_div_i128(e, 1_000_000_000);
            assert(-20_000_000_000_000_000 <= g <= 20_000_000_000_000_000) by (nonlinear_arith)
                requires
                    g == trunc_div(e as int, 1_000_000_000),
                    -20_000_000_000_000_000_000_000_000 <= e <= 20_000_000_000_000_000_000_000_000,
            ;
            let gap = g as i64;
            if today_count == BLOCK_SIZE {
                if gap < BLOCK_GAP_SECS {
                    let wait = trunc_div_i128((BLOCK_GAP_SECS as i128) - (gap as i128), 60);
                    Ok(
                        Some(
                            TimingWarning::BlockGap {
                                gap_secs: gap,
                                today_count,
                                wait_mins: wait as i64,
                            },
                        ),
                    )
                } else {
                    Ok(None)
                }
            } else if gap < MIN_GAP_SECS {
                Ok(Some(TimingWarning::MinGap { gap_secs: gap, wait_secs: MIN_GAP_SECS - gap }))
            } else {
                Ok(None)
            }
        },
    }
}

/// What `next_allowed_time` gives for today's count and last timestamp at
/// `now`: nothing when no pause is pending, the RFC 3339 text of the end of
/// the pause otherwise, and an error for a last timestamp that cannot be
/// read.
pub open spec fn next_allowed_outcome(
    today_count: u64,
    last_today: Option<Seq<char>>,
    now: int,
    r: Result<Option<Seq<char>>, CampaignError>,
) -> bool {
    if today_count == 0 {
        r == Ok::<Option<Seq<char>>, CampaignError>(None)
    } else {
        match last_today {
            None => r == Ok::<Option<Seq<char>>, CampaignError>(None),
            Some(t) => match rfc3339_instant(t) {
                None => r matches Err(CampaignError::InvalidTimestamp(x)) && x@ == t,
                Some((secs, nanos)) => match spec_next_allowed(
                    today_count,
                    Some((secs as int, nanos as int)),
                    now,
                ) {
                    None => r == Ok::<Option<Seq<char>>, CampaignError>(None),
                    Some(next) => r == Ok::<Option<Seq<char>>, CampaignError>(
                        rfc3339_text((next / 1_000_000_000) as i64, (next % 1_000_000_000) as u32),
                    ),
                },
            },
        }
    }
}

/// The text of an optional string.
pub open spec fn opt_text(s: Option<String>) -> Option<Seq<char>> {
    match s {
        Some(t) => Some(t@),
        None => None,
    }
}

/// The text of an optional string slice.
pub open spec fn opt_str(s: Option<&str>) -> Option<Seq<char>> {
    match s {
        Some(t) => Some(t@),
        None => None,
    }
}

/// When the next measurement is allowed, as RFC 3339 text, if that is
/// still after `now_ms`; `today_count` and `last_today` describe today's
/// measurements so far. The last timestamp keeps its full precision.
pub fn next_allowed_time(today_count: u64, last_today: Option<&str>, now_ms: i64) -> (r: Result<
    Option<String>,
    CampaignError,
>)
    ensures
        next_allowed_outcome(
            today_count,
            opt_str(last_today),
            now_ms as int,
            match r {
                Ok(n) => Ok(opt_text(n)),
                Err(e) => Err(e),
            },
        ),
{
    if today_count == 0 {
        return Ok(None);
    }
    let last = match read_last(last_today) {
        Ok(l) => l,
        Err(CampaignError::InvalidMeasurement(t)) => return Err(CampaignError::InvalidTimestamp(t)),
        Err(e) => return Err(e),
    };
    match last {
        None => Ok(None),
        Some((secs, nanos)) => {
            let gap: i64 = if today_count == BLOCK_SIZE { BLOCK_GAP_SECS } else { MIN_GAP_SECS };
            let frac: i128 = if nanos >= 1_000_000_000 {
                nanos as i128 - 1_000_000_000
            } else {
                nanos as i128
            };
            let next: i128 = ((secs as i128) + (gap as i128)) * 1_000_000_000 + frac;
            if next <= (now_ms as i128) * 1_000_000 {
                Ok(None)
            } else {
                let (s, n) = floor_div_mod(next, 1_000_000_000);
                assert(-100_000_000_000_000 <= s <= 100_000_000_000_000) by (nonlinear_arith)
                    requires
                        s == next as int / 1_000_000_000,
                        -100_000_000_000_000_000_000_000 <= next <= 100_000_000_000_000_000_000_000,
                ;
                Ok(rfc3339_from_parts(s as i64, n as u32))
            }
        },
    }
}

/// A measurement at `now` draws no timing warning exactly when no later
/// "next allowed" instant is pending: the two rules agree. chrono counts a
/// leap second in the elapsed time only once the time of day has passed
/// it, but always leaves it when adding the pause, so a last measurement
/// within a leap second is left out unless the time of day is past it.
pub proof fn law_timing_agrees_with_next_allowed(count: u64, secs: int, nanos: int, now: int)
    requires
        count > 0,
        0 <= nanos < 2_000_000_000,
        nanos < 1_000_000_000 || (now / 1000) % 86400 > secs % 86400,
    ensures
        (spec_timing_warning(count, Some((secs, nanos)), now) is None) <==> (spec_next_allowed(
            count,
            Some((secs, nanos)),
            now,
        ) is None),
{
    let d = elapsed_nanos(secs, nanos, now);
    let g = required_gap(count);
    assert(d == now * 1_000_000 - after_gap_nanos(secs, nanos, 0));
    assert(after_gap_nanos(secs, nanos, g) == after_gap_nanos(secs, nanos, 0) + g * 1_000_000_000);
    if d >= 0 {
        assert(trunc_div(d, 1_000_000_000) < g <==> d < g * 1_000_000_000) by (nonlinear_arith)
            requires
                d >= 0,
                g > 0,
                trunc_div(d, 1_000_000_000) == d / 1_000_000_000,
        ;
    } else {
        assert(trunc_div(d, 1_000_000_000) <= 0) by (nonlinear_arith)
            requires
                d < 0,
                trunc_div(d, 1_000_000_000) == -((-d) / 1_000_000_000),
        ;
    }
}

/// The pause the protocol asks for after the last measurement: three hours
/// after the fifth of the day, five minutes after any other. A measurement
/// that many whole seconds later draws no warning, and an earlier one is
/// warned about with the seconds that have passed and the wait left; the
/// next measurement is allowed once the pause has passed, and not before.
pub proof fn law_pause_after_measurement(count: u64, secs: int, nanos: int, now: int)
    ensures
        ({
            let gap = trunc_div(elapsed_nanos(secs, nanos, now), 1_000_000_000);
            let w = spec_timing_warning(count, Some((secs, nanos)), now);
            &&& count != 5 ==> (w is None <==> gap >= 300)
            &&& count != 5 && gap < 300 ==> w == Some(
                TimingWarning::MinGap { gap_secs: gap as i64, wait_secs: (300 - gap) as i64 },
            )
            &&& count == 5 ==> (w is None <==> gap >= 10_800)
            &&& count == 5 && gap < 10_800 ==> w == Some(
                TimingWarning::BlockGap {
                    gap_secs: gap as i64,
                    today_count: 5,
                    wait_mins: trunc_div(10_800 - gap, 60) as i64,
                },
            )
        }),
        count == 0 ==> spec_next_allowed(count, Some((secs, nanos)), now) is None,
        0 <= nanos < 1_000_000_000 ==> elapsed_nanos(secs, nanos, now) == now * 1_000_000 - (secs
            * 1_000_000_000 + nanos),
        0 <= nanos < 1_000_000_000 ==> after_gap_nanos(secs, nanos, 300) == (secs + 300) * 1_000_000_000
            + nanos && after_gap_nanos(secs, nanos, 10_800) == (secs + 10_800) * 1_000_000_000 + nanos,
        count > 0 && count != 5 ==> spec_next_allowed(count, Some((secs, nanos)), now) == (if after_gap_nanos(
            secs,
            nanos,
            300,
        ) <= now * 1_000_000 {
            None::<int>
        } else {
            Some(after_gap_nanos(secs, nanos, 300))
        }),
        count == 5 ==> spec_next_allowed(count, Some((secs, nanos)), now) == (if after_gap_nanos(
            secs,
            nanos,
            10_800,
        ) <= now * 1_000_000 {
            None::<int>
        } else {
            Some(after_gap_nanos(secs, nanos, 10_800))
        }),
{
}

/// An active campaign whose window has run out is told so first, whatever
/// else it still needs, followed only by the measurements it lacks; an
/// inactive campaign draws no warnings.
pub proof fn law_expired_window_is_reported_first(measurements_needed: u64, days_needed: u64, days_remaining: int)
    ensures
        spec_status_warnings(true, measurements_needed, days_needed, 0).len() == (if measurements_needed
            > 0 {
            2int
        } else {
            1int
        }),
        spec_status_warnings(true, measurements_needed, days_needed, 0)[0] == "campaign window has expired!"@,
        spec_status_warnings(false, measurements_needed, days_needed, days_remaining).len() == 0,
        days_remaining > 0 ==> spec_status_warnings(true, measurements_needed, days_needed, days_remaining).len()
            == (if days_needed > days_remaining {
            1int
        } else {
            0int
        }) + (if measurements_needed > 0 && days_remaining <= 2 {
            1int
        } else {
            0int
        }),
        days_remaining > 0 && days_needed > days_remaining ==> spec_status_warnings(
            true,
            measurements_needed,
            days_needed,
            days_remaining,
        )[0] == "need "@ + decimal(days_needed as nat) + " more calendar days but only "@ + signed_decimal(
            days_remaining,
        ) + " days left in window"@,
        measurements_needed > 0 && days_remaining <= 2 ==> spec_status_warnings(
            true,
            measurements_needed,
            days_needed,
            days_remaining,
        ).last() == "still need "@ + decimal(measurements_needed as nat) + " measurements with only "@
            + signed_decimal(days_remaining) + " days left"@,
{
}

/// The days left in a campaign's window: none once its 14 days have run
/// out, and otherwise the whole days until its end, counted down from 14.
pub proof fn law_days_left_in_window(start: int, now: int)
    ensures
        now >= start + 14 * 86_400_000 ==> spec_days_remaining(start, now) == 0,
        now < start + 14 * 86_400_000 ==> spec_days_remaining(start, now) == (start + 14 * 86_400_000
            - now) / 86_400_000,
        start <= now ==> 0 <= spec_days_remaining(start, now) <= 14,
{
    let d = start + 14 * 86_400_000 - now;
    if d > 0 {
        assert((d / 1000) / 86400 == d / 86_400_000) by {
            vstd::arithmetic::div_mod::lemma_div_denominator(d, 1000, 86400);
        }
    } else {
        assert(trunc_div(d, 1000) <= 0) by (nonlinear_arith)
            requires
                d <= 0,
                trunc_div(d, 1000) == (if d >= 0 { d / 1000 } else { -((-d) / 1000) }),
        ;
        assert(trunc_div(trunc_div(d, 1000), 86400) <= 0) by (nonlinear_arith)
            requires
                trunc_div(d, 1000) <= 0,
                trunc_div(trunc_div(d, 1000), 86400) == (if trunc_div(d, 1000) >= 0 {
                    trunc_div(d, 1000) / 86400
                } else {
                    -((-trunc_div(d, 1000)) / 86400)
                }),
        ;
    }
    if start <= now && d > 0 {
        assert(d / 86_400_000 <= 14) by (nonlinear_arith)
            requires
                0 < d <= 14 * 86_400_000,
        ;
    }
}

/// A campaign is complete once it has 30 measurements across 3 calendar
/// days.
pub open spec fn spec_completes(total: u64, days: u64) -> bool {
    total >= CAMPAIGN_REQUIRED_MEASUREMENTS && days >= CAMPAIGN_REQUIRED_DAYS
}

/// Whether recording brings the campaign to completion.
pub fn completes(total: u64, days: u64) -> (r: bool)
    ensures
        r == spec_completes(total, days),
{
    total >= CAMPAIGN_REQUIRED_MEASUREMENTS && days >= CAMPAIGN_REQUIRED_DAYS
}

/// The end of a campaign's window, in milliseconds.
pub open spec fn window_end(start: int) -> int {
    start + CAMPAIGN_WINDOW_DAYS * 86400 * 1000
}

/// Decides whether a measurement taken at `now_ms` may be recorded for
/// `campaign`: it must be active, and at most 14 whole days past its start.
pub fn admit_measurement(campaign: &Campaign, now_ms: i64) -> (r: Result<(), RecordRefusal>)
    ensures
        campaign.status@ != "active"@ ==> (r matches Err(RecordRefusal::NotActive { campaign_id, status })
            && campaign_id == campaign.id && status@ == campaign.status@),
        campaign.status@ == "active"@ ==> match rfc3339_epoch_millis(campaign.started_at@) {
            None => r matches Err(RecordRefusal::Invalid(CampaignError::InvalidStart(x))) && x@
                == campaign.started_at@,
            Some(start) => if whole_days(now_ms as int, start as int) > CAMPAIGN_WINDOW_DAYS {
                r matches Err(RecordRefusal::Expired { campaign_id, window_end_millis })
                    && campaign_id == campaign.id && window_end_millis == window_end(start as int)
            } else {
                r == Ok::<(), RecordRefusal>(())
            },
        },
{
    if !crate::text::text_eq(&campaign.status, "active") {
        return Err(RecordRefusal::NotActive { campaign_id: campaign.id, status: campaign.status.clone() });
    }
    let start = match rfc3339_millis(campaign.started_at.as_str()) {
        Some(ms) => ms,
        None => {
            return Err(
                RecordRefusal::Invalid(CampaignError::InvalidStart(campaign.started_at.clone())),
            );
        },
    };
    let secs = seconds_between(now_ms, start);
    let days = trunc_div_i128(secs as i128, 86400);
    if days > CAMPAIGN_WINDOW_DAYS as i128 {
        let end: i128 = (start as i128) + (CAMPAIGN_WINDOW_DAYS as i128) * 86400 * 1000;
        if end > i64::MAX as i128 {
            // `now_ms` lies more than 14 days past `start`, so `end` is below it.
            assert(false) by {
                assert(secs >= 15 * 86400) by (nonlinear_arith)
                    requires
                        days == trunc_div(secs as int, 86400),
                        days > 14,
                ;
            }
        }
        return Err(RecordRefusal::Expired { campaign_id: campaign.id, window_end_millis: end as i64 });
    }
    Ok(())
}

/// Days left in the window at `now`, never below zero.
pub open spec fn spec_days_remaining(start: int, now: int) -> int {
    let d = whole_days(window_end(start), now);
    if d < 0 { 0 } else { d }
}

/// The warnings a status carries for an active campaign.
pub open spec fn spec_status_warnings(active: bool, measurements_needed: u64, days_needed: u64, days_remaining: int) -> Seq<Seq<char>> {
    if !active {
        Seq::empty()
    } else {
        let first: Seq<Seq<char>> = if days_remaining == 0 {
            seq!["campaign window has expired!"@]
        } else if days_needed > days_remaining {
            seq![
                "need "@ + decimal(days_needed as nat) + " more calendar days but only "@
                    + signed_decimal(days_remaining) + " days left in window"@,
            ]
        } else {
            Seq::empty()
        };
        if measurements_needed > 0 && days_remaining <= 2 {
            first.push(
                "still need "@ + decimal(measurements_needed as nat) + " measurements with only "@
                    + signed_decimal(days_remaining) + " days left"@,
            )
        } else {
            first
        }
    }
}

/// The texts of a list of strings.
pub open spec fn texts(v: Seq<String>) -> Seq<Seq<char>> {
    v.map_values(|s: String| s@)
}

/// Works out where `campaign` stands at `now_ms`: how many measurements and
/// days it still needs, how many days of its window remain, when the next
/// measurement is allowed, and what to warn about. `total` and `days` are
/// its measurements and the calendar days they span; `today_count` and
/// `last_today` describe today's measurements.
pub fn campaign_status(
    campaign: &Campaign,
    total: u64,
    days: u64,
    today_count: u64,
    last_today: Option<&str>,
    now_ms: i64,
) -> (r: Result<CampaignStatus, CampaignError>)
    ensures
        match rfc3339_epoch_millis(campaign.started_at@) {
            None => r matches Err(CampaignError::InvalidStart(x)) && x@ == campaign.started_at@,
            Some(start) => match r {
                Ok(st) => {
                    &&& st.campaign_id == campaign.id
                    &&& st.provider_id == campaign.provider_id
                    &&& st.plan_id@ == campaign.plan_id@
                    &&& st.status@ == campaign.status@
                    &&& st.started_at@ == campaign.started_at@
                    &&& st.measurements_total == total
                    &&& st.days_spanned == days
                    &&& st.measurements_needed == (if total >= 30 { 0 } else { 30 - total })
                    &&& st.days_needed == (if days >= 3 { 0 } else { 3 - days })
                    &&& st.days_remaining_in_window == spec_days_remaining(start as int, now_ms as int)
                    &&& texts(st.warnings@) == spec_status_warnings(
                        campaign.status@ == "active"@,
                        st.measurements_needed,
                        st.days_needed,
                        st.days_remaining_in_window as int,
                    )
                    &&& next_allowed_outcome(
                        today_count,
                        opt_str(last_today),
                        now_ms as int,
                        Ok(opt_text(st.next_measurement_allowed_at)),
                    )
                },
                Err(e) => next_allowed_outcome(today_count, opt_str(last_today), now_ms as int, Err(e)),
            },
        },
{
    let start = match rfc3339_millis(campaign.started_at.as_str()) {
        Some(ms) => ms,
        None => return Err(CampaignError::InvalidStart(campaign.started_at.clone())),
    };
    let end: i128 = (start as i128) + (CAMPAIGN_WINDOW_DAYS as i128) * 86400 * 1000;
    let secs = trunc_div_i128(end - (now_ms as i128), 1000);
    let whole = trunc_div_i128(secs, 86400);
    let days_remaining: i64 = if whole < 0 { 0 } else { whole as i64 };
    let next_allowed = match next_allowed_time(today_count, last_today, now_ms) {
        Ok(n) => n,
        Err(e) => return Err(e),
    };
    let measurements_needed = CAMPAIGN_REQUIRED_MEASUREMENTS.saturating_sub(total);
    let days_needed = CAMPAIGN_REQUIRED_DAYS.saturating_sub(days);
    let mut warnings: Vec<String> = Vec::new();
    let active = crate::text::text_eq(&campaign.status, "active");
    if active {
        if days_remaining == 0 {
            warnings.push(String::from_str("campaign window has expired!"));
        } else if days_needed as i128 > days_remaining as i128 {
            let mut w = String::new();
            push_str(&mut w, "need ");
            push_u64(&mut w, days_needed);
            push_str(&mut w, " more calendar days but only ");
            push_i64(&mut w, days_remaining);
            push_str(&mut w, " days left in window");
            warnings.push(w);
        }
        if measurements_needed > 0 && days_remaining <= 2 {
            let mut w = String::new();
            push_str(&mut w, "still need ");
            push_u64(&mut w, measurements_needed);
            push_str(&mut w, " measurements with only ");
            push_i64(&mut w, days_remaining);
            push_str(&mut w, " days left");
            warnings.push(w);
        }
    }
    proof {
        assert(texts(warnings@) =~= spec_status_warnings(active, measurements_needed, days_needed, days_remaining as int));
    }
    Ok(
        CampaignStatus {
            campaign_id: campaign.id,
            provider_id: campaign.provider_id,
            plan_id: campaign.plan_id.clone(),
            status: campaign.status.clone(),
            started_at: campaign.started_at.clone(),
            measurements_total: total,
            measurements_needed,
            days_spanned: days,
            days_needed,
            days_remaining_in_window: days_remaining,
            next_measurement_allowed_at: next_allowed,
            warnings,
        },
    )
}

} // verus!
