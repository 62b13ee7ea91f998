use bbm::cli::{
    parse_stored_provider, provider_show_line, resolve_peer, resolve_plan, resolve_provider, speed_source,
    time_before, DeleteAction, DeleteArgs, DeleteRefusal, ListArgs, OutputFormat, ProviderSwitchArgs,
    PurgeArgs, PurgeRefusal, SpeedSource, SpeedUnit, TestArgs, ACTIVE_PROVIDER_KEY,
};
use bbm::duration::DurationError;
use bbm::config::ResolvedConfig;

/// `bbmctl test` with the defaults of its flags.
fn test_args() -> TestArgs {
    TestArgs {
        list: ListArgs { format: OutputFormat::Table, output: None },
        duration: 10,
        streams: 8,
        unit: SpeedUnit::Auto,
        peer: None,
        every: None,
        record: false,
        provider: None,
        plan: None,
    }
}

#[test]
fn every_alone_is_accepted() {
    // bbmctl test --every 30m
    let args = TestArgs { every: Some(String::from("30m")), ..test_args() };
    assert!(args.records_to_database(), "--every must imply recording");
}

#[test]
fn plain_test_does_not_record() {
    // bbmctl test
    let args = test_args();
    assert!(!args.records_to_database());
}

#[test]
fn record_flag_records() {
    let args = TestArgs { record: true, ..test_args() };
    assert!(args.records_to_database());
}

#[test]
fn delete_needs_confirmation_for_everything() {
    let all = DeleteArgs { id: None, all: true, confirm: false };
    assert_eq!(all.action(), Err(DeleteRefusal::NotConfirmed));
    let confirmed = DeleteArgs { id: Some(3), all: true, confirm: true };
    assert_eq!(confirmed.action(), Ok(DeleteAction::All));
    let one = DeleteArgs { id: Some(3), all: false, confirm: false };
    assert_eq!(one.action(), Ok(DeleteAction::One(3)));
    let nothing = DeleteArgs { id: None, all: false, confirm: true };
    assert_eq!(nothing.action(), Err(DeleteRefusal::NothingChosen));
}

#[test]
fn flags_beat_configuration() {
    let config = ResolvedConfig {
        provider: Some(1),
        plan: Some(String::from("cfg-plan")),
        peer: Some(String::from("cfg.peer")),
        ..ResolvedConfig::default()
    };
    assert_eq!(resolve_provider(Some(2), &config), Some(2));
    assert_eq!(resolve_provider(None, &config), Some(1));
    assert_eq!(resolve_plan(&Some(String::from("flag-plan")), &config).as_deref(), Some("flag-plan"));
    assert_eq!(resolve_plan(&None, &config).as_deref(), Some("cfg-plan"));
    assert_eq!(resolve_peer(&Some(String::from("flag.peer")), &config), "flag.peer");
    assert_eq!(resolve_peer(&None, &config), "cfg.peer");
    assert_eq!(resolve_peer(&None, &ResolvedConfig::default()), "drsfv4.breitbandmessung.de");
    assert_eq!(resolve_provider(None, &ResolvedConfig::default()), None);
}

#[test]
fn switched_provider_is_stored_and_read_back() {
    assert_eq!(ACTIVE_PROVIDER_KEY, "active_provider");
    let stored = ProviderSwitchArgs { id: 437 }.setting_value();
    assert_eq!(stored, "437");
    assert_eq!(parse_stored_provider(Some(&stored)), Some(437));
    assert_eq!(ProviderSwitchArgs { id: -5 }.setting_value(), "-5");
    assert_eq!(parse_stored_provider(Some("not a number")), None);
    assert_eq!(parse_stored_provider(None), None);
}

#[test]
fn provider_show_prefers_the_stored_value() {
    assert_eq!(provider_show_line(Some("437"), Some(1)), "active provider: 437 (from database)");
    assert_eq!(provider_show_line(None, Some(1)), "active provider: 1 (from config)");
    assert_eq!(provider_show_line(None, None), "no active provider set");
}

#[test]
fn compare_takes_speeds_or_runs_a_test() {
    assert_eq!(speed_source(true, true, false), Some(SpeedSource::Given));
    assert_eq!(speed_source(true, true, true), Some(SpeedSource::Given));
    assert_eq!(speed_source(false, false, false), Some(SpeedSource::RunTest));
    assert_eq!(speed_source(true, false, true), Some(SpeedSource::RunTest));
    assert_eq!(speed_source(true, false, false), None);
    assert_eq!(speed_source(false, true, false), None);
}

// 2026-07-20T10:00:00.500Z in milliseconds since the Unix epoch.
const NOW: i64 = 1_784_541_600_500;

#[test]
fn delete_refusals_have_messages() {
    assert_eq!(DeleteRefusal::NotConfirmed.message(), "use --confirm to delete all measurements");
    assert_eq!(DeleteRefusal::NothingChosen.message(), "specify a measurement ID or use --all --confirm");
}

#[test]
fn purge_needs_confirmation_and_a_duration() {
    let unconfirmed = PurgeArgs { older_than: String::from("30d"), confirm: false };
    assert_eq!(unconfirmed.cutoff(NOW), Err(PurgeRefusal::NotConfirmed));
    assert_eq!(PurgeRefusal::NotConfirmed.message("30d"), "use --confirm to purge measurements");

    let bad = PurgeArgs { older_than: String::from("30"), confirm: true };
    assert_eq!(bad.cutoff(NOW), Err(PurgeRefusal::BadDuration(DurationError::MissingUnit)));
    assert_eq!(
        PurgeRefusal::BadDuration(DurationError::MissingUnit).message("30"),
        "invalid duration '30': number without unit (use s, m, h, d)"
    );

    let ok = PurgeArgs { older_than: String::from("1d2h"), confirm: true };
    assert_eq!(ok.cutoff(NOW).unwrap(), "2026-07-19T08:00:00Z");

    let ancient = PurgeArgs { older_than: String::from("100000000d"), confirm: true };
    assert_eq!(ancient.cutoff(NOW), Err(PurgeRefusal::OutOfRange));
}

#[test]
fn time_before_counts_back_whole_seconds() {
    assert_eq!(time_before(NOW, 90).as_deref(), Some("2026-07-20T09:58:30Z"));
    assert_eq!(time_before(NOW, 0).as_deref(), Some("2026-07-20T10:00:00Z"));
    assert_eq!(time_before(i64::MIN, 1), None);
}

#[test]
fn flag_then_configuration_then_stored_provider() {
    // The law: flag, else configuration file, else `provider switch`.
    for (flag, configured, stored, expected) in [
        (Some(1), Some(2), Some(3), Some(1)),
        (None, Some(2), Some(3), Some(2)),
        (None, None, Some(3), Some(3)),
        (None, None, None, None),
        (Some(1), None, None, Some(1)),
    ] {
        let mut config = ResolvedConfig { provider: configured, ..ResolvedConfig::default() };
        config.apply_stored_provider(stored);
        assert_eq!(resolve_provider(flag, &config), expected);
    }
}

#[test]
fn configured_duration_and_streams_apply_unless_flags_are_given() {
    let config = ResolvedConfig { duration: Some(20), streams: Some(4), ..ResolvedConfig::default() };
    let defaults = test_args();
    assert_eq!(defaults.resolved_duration(&config), 20);
    assert_eq!(defaults.resolved_streams(&config), 4);
    let flags = TestArgs { duration: 5, streams: 16, ..test_args() };
    assert_eq!(flags.resolved_duration(&config), 5);
    assert_eq!(flags.resolved_streams(&config), 16);
    assert_eq!(defaults.resolved_duration(&ResolvedConfig::default()), 10);
    assert_eq!(defaults.resolved_streams(&ResolvedConfig::default()), 8);
}
