use bbm::campaign::{
    admit_measurement, campaign_status, check_timing, completes, next_allowed_time, Campaign, CampaignError,
    RecordRefusal, TimingWarning,
};

// 2026-07-20T10:00:00Z in milliseconds since the Unix epoch.
const T0: i64 = 1_784_541_600_000;
const MINUTE: i64 = 60_000;
const DAY: i64 = 86_400_000;

fn campaign(status: &str, started_at: &str) -> Campaign {
    Campaign {
        id: 7,
        provider_id: 1,
        plan_id: String::from("plan-1"),
        started_at: String::from(started_at),
        status: String::from(status),
    }
}

#[test]
fn first_measurement_of_the_day_draws_no_warning() {
    assert_eq!(check_timing(0, None, T0), Ok(None));
    assert_eq!(next_allowed_time(0, None, T0), Ok(None));
}

#[test]
fn measurements_need_five_minutes_between_them() {
    let last = "2026-07-20T10:00:00Z";
    let w = check_timing(2, Some(last), T0 + 2 * MINUTE).unwrap();
    assert_eq!(w, Some(TimingWarning::MinGap { gap_secs: 120, wait_secs: 180 }));
    assert_eq!(
        w.unwrap().message(),
        "only 120s since last measurement \u{2014} the protocol requires at least 5 minutes between measurements. Wait 180 more seconds."
    );
    assert_eq!(check_timing(2, Some(last), T0 + 5 * MINUTE), Ok(None));
    assert_eq!(
        next_allowed_time(2, Some(last), T0 + 2 * MINUTE).unwrap().as_deref(),
        Some("2026-07-20T10:05:00+00:00")
    );
    assert_eq!(next_allowed_time(2, Some(last), T0 + 5 * MINUTE), Ok(None));
}

#[test]
fn the_fifth_measurement_starts_a_three_hour_pause() {
    let last = "2026-07-20T12:00:00+02:00";
    let w = check_timing(5, Some(last), T0 + 60 * MINUTE).unwrap();
    assert_eq!(w, Some(TimingWarning::BlockGap { gap_secs: 3600, today_count: 5, wait_mins: 120 }));
    assert_eq!(
        w.unwrap().message(),
        "only 3600s since measurement #5 today \u{2014} the protocol requires a 3-hour gap between measurements 5 and 6. Wait ~120 more minutes."
    );
    assert_eq!(
        next_allowed_time(5, Some(last), T0 + 60 * MINUTE).unwrap().as_deref(),
        Some("2026-07-20T13:00:00+00:00")
    );
    assert_eq!(check_timing(5, Some(last), T0 + 180 * MINUTE), Ok(None));
}

#[test]
fn warning_and_next_allowed_time_agree() {
    // The law: a warning is given exactly while a later allowed time is pending.
    let last = "2026-07-20T10:00:00Z";
    for count in [1u64, 4, 5, 6] {
        for offset in [0, 1, 4, 5, 6, 179, 180, 181] {
            let now = T0 + offset * MINUTE;
            let warned = check_timing(count, Some(last), now).unwrap().is_some();
            let pending = next_allowed_time(count, Some(last), now).unwrap().is_some();
            assert_eq!(warned, pending, "count {count}, {offset} minutes");
        }
    }
}

#[test]
fn unreadable_timestamps_are_errors() {
    assert_eq!(
        check_timing(1, Some("yesterday"), T0),
        Err(CampaignError::InvalidMeasurement(String::from("yesterday")))
    );
    assert_eq!(
        CampaignError::InvalidMeasurement(String::from("x")).message(),
        "invalid measurement timestamp"
    );
    assert_eq!(CampaignError::InvalidStart(String::from("x")).message(), "invalid campaign start timestamp");
}

#[test]
fn an_unreadable_last_timestamp_stops_the_status() {
    assert_eq!(
        next_allowed_time(2, Some("yesterday"), T0),
        Err(CampaignError::InvalidTimestamp(String::from("yesterday")))
    );
    let c = campaign("active", "2026-07-20T10:00:00Z");
    let err = campaign_status(&c, 2, 1, 2, Some("yesterday"), T0).unwrap_err();
    assert_eq!(err, CampaignError::InvalidTimestamp(String::from("yesterday")));
    assert_eq!(err.message(), "invalid timestamp");
    assert_eq!(RecordRefusal::Invalid(err).message(), "invalid timestamp");
}

#[test]
fn completion_needs_thirty_measurements_on_three_days() {
    assert!(completes(30, 3));
    assert!(completes(31, 5));
    assert!(!completes(29, 3));
    assert!(!completes(30, 2));
}

#[test]
fn only_active_campaigns_within_their_window_take_measurements() {
    let active = campaign("active", "2026-07-20T10:00:00Z");
    assert_eq!(admit_measurement(&active, T0 + DAY), Ok(()));
    assert_eq!(admit_measurement(&active, T0 + 14 * DAY + DAY - 1), Ok(()));
    let refused = admit_measurement(&active, T0 + 15 * DAY).unwrap_err();
    assert_eq!(refused, RecordRefusal::Expired { campaign_id: 7, window_end_millis: T0 + 14 * DAY });
    assert_eq!(refused.message(), "campaign #7 has expired \u{2014} the 14-day window ended on 2026-08-03");

    let done = campaign("completed", "2026-07-20T10:00:00Z");
    let refused = admit_measurement(&done, T0).unwrap_err();
    assert_eq!(refused.message(), "campaign #7 is not active (status: completed)");

    let broken = campaign("active", "soon");
    assert_eq!(
        admit_measurement(&broken, T0),
        Err(RecordRefusal::Invalid(CampaignError::InvalidStart(String::from("soon"))))
    );
}

#[test]
fn start_and_status() {
    let c = campaign("active", "2026-07-20T10:00:00Z");
    let status = campaign_status(&c, 0, 0, 0, None, T0).unwrap();
    assert_eq!(status.measurements_total, 0);
    assert_eq!(status.measurements_needed, 30);
    assert_eq!(status.days_spanned, 0);
    assert_eq!(status.days_needed, 3);
    assert_eq!(status.days_remaining_in_window, 14);
    assert_eq!(status.next_measurement_allowed_at, None);
    assert!(status.warnings.is_empty());
}

#[test]
fn status_warns_when_the_window_runs_short() {
    let c = campaign("active", "2026-07-20T10:00:00Z");
    let status = campaign_status(&c, 20, 1, 1, Some("2026-08-02T09:59:00Z"), T0 + 13 * DAY).unwrap();
    assert_eq!(status.days_remaining_in_window, 1);
    assert_eq!(status.measurements_needed, 10);
    assert_eq!(status.days_needed, 2);
    assert_eq!(
        status.warnings,
        vec![
            String::from("need 2 more calendar days but only 1 days left in window"),
            String::from("still need 10 measurements with only 1 days left"),
        ]
    );
    assert_eq!(status.next_measurement_allowed_at.as_deref(), Some("2026-08-02T10:04:00+00:00"));

    let late = campaign_status(&c, 30, 3, 0, None, T0 + 20 * DAY).unwrap();
    assert_eq!(late.days_remaining_in_window, 0);
    assert_eq!(late.warnings, vec![String::from("campaign window has expired!")]);

    let cancelled = campaign("cancelled", "2026-07-20T10:00:00Z");
    assert!(campaign_status(&cancelled, 0, 0, 0, None, T0 + 20 * DAY).unwrap().warnings.is_empty());
}

#[test]
fn the_next_allowed_time_keeps_the_full_precision() {
    let last = "2026-07-20T09:56:55.672667+00:00";
    assert_eq!(
        next_allowed_time(2, Some(last), T0).unwrap().as_deref(),
        Some("2026-07-20T10:01:55.672667+00:00")
    );
    // Half a millisecond past the full five minutes is still a pause.
    let last = "2026-07-20T10:00:00.0005Z";
    assert_eq!(
        next_allowed_time(1, Some(last), T0 + 5 * MINUTE).unwrap().as_deref(),
        Some("2026-07-20T10:05:00.000500+00:00")
    );
    assert_eq!(
        check_timing(1, Some(last), T0 + 5 * MINUTE),
        Ok(Some(TimingWarning::MinGap { gap_secs: 299, wait_secs: 1 }))
    );
    assert_eq!(next_allowed_time(1, Some(last), T0 + 5 * MINUTE + 1), Ok(None));
    assert_eq!(check_timing(1, Some(last), T0 + 5 * MINUTE + 1), Ok(None));
}

#[test]
fn a_leap_second_is_counted_as_chrono_counts_it() {
    // 2017-01-01T00:00:10Z, ten seconds after the leap second of 2016. The
    // elapsed time counts the leap second in full; adding the pause leaves
    // it, so the pause ends at 00:04:59.500.
    let now = 1_483_228_810_000;
    let last = "2016-12-31T23:59:60.500Z";
    assert_eq!(
        check_timing(1, Some(last), now),
        Ok(Some(TimingWarning::MinGap { gap_secs: 9, wait_secs: 291 }))
    );
    assert_eq!(
        next_allowed_time(1, Some(last), now).unwrap().as_deref(),
        Some("2017-01-01T00:04:59.500+00:00")
    );
}
