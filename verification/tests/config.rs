use bbm::config::{ConfigError, ConfigFile, ProfileConfig, ResolvedConfig};

fn profile(provider: Option<i64>, plan: Option<&str>, streams: Option<u16>) -> ProfileConfig {
    ProfileConfig { provider, plan: plan.map(String::from), streams, ..ProfileConfig::default() }
}

#[test]
fn empty_config() {
    let config = ConfigFile::default();
    let resolved = config.resolve(None).unwrap();
    assert!(resolved.provider.is_none());
    assert!(resolved.database.is_none());
}

#[test]
fn default_profile() {
    // database: "/tmp/test.db"
    // default: { provider: 437, plan: "8515", streams: 4 }
    let config = ConfigFile {
        database: Some(String::from("/tmp/test.db")),
        default: profile(Some(437), Some("8515"), Some(4)),
        profiles: Vec::new(),
    };
    let resolved = config.resolve(None).unwrap();
    assert_eq!(resolved.provider, Some(437));
    assert_eq!(resolved.plan.as_deref(), Some("8515"));
    assert_eq!(resolved.streams, Some(4));
    assert_eq!(resolved.database.as_deref(), Some("/tmp/test.db"));
}

#[test]
fn profile_overrides_default() {
    // default: { provider: 437, plan: "8515", streams: 8 }
    // profiles: { office: { provider: 251, plan: "9001" } }
    let config = ConfigFile {
        database: None,
        default: profile(Some(437), Some("8515"), Some(8)),
        profiles: vec![(String::from("office"), profile(Some(251), Some("9001"), None))],
    };
    let resolved = config.resolve(Some("office")).unwrap();
    assert_eq!(resolved.provider, Some(251));
    assert_eq!(resolved.plan.as_deref(), Some("9001"));
    assert_eq!(resolved.streams, Some(8));
}

#[test]
fn unknown_profile_errors() {
    let config = ConfigFile::default();
    let result = config.resolve(Some("nonexistent"));
    assert!(result.is_err());
}

#[test]
fn unknown_profile_is_named_in_the_error() {
    let config = ConfigFile::default();
    let err = config.resolve(Some("nonexistent")).unwrap_err();
    assert_eq!(err, ConfigError::UnknownProfile(String::from("nonexistent")));
    assert_eq!(err.message(), "profile 'nonexistent' not found in config");
}

#[test]
fn stored_provider_is_used_when_nothing_else_supplies_one() {
    let mut resolved = ResolvedConfig::default();
    assert_eq!(resolved.provider, None);

    resolved.apply_stored_provider(Some(437));

    assert_eq!(
        resolved.provider,
        Some(437),
        "a stored active provider must be used when no flag or config supplies one"
    );
}

#[test]
fn config_file_provider_beats_stored_provider() {
    let mut resolved = ResolvedConfig { provider: Some(100), ..ResolvedConfig::default() };

    resolved.apply_stored_provider(Some(437));

    assert_eq!(resolved.provider, Some(100));
}

#[test]
fn absent_stored_provider_changes_nothing() {
    let mut resolved = ResolvedConfig { provider: Some(100), ..ResolvedConfig::default() };

    resolved.apply_stored_provider(None);

    assert_eq!(resolved.provider, Some(100));
}

#[test]
fn stored_provider_leaves_other_settings_alone() {
    let mut resolved = ResolvedConfig {
        plan: Some(String::from("8515")),
        streams: Some(4),
        ..ResolvedConfig::default()
    };
    resolved.apply_stored_provider(Some(7));
    assert_eq!(resolved.provider, Some(7));
    assert_eq!(resolved.plan.as_deref(), Some("8515"));
    assert_eq!(resolved.streams, Some(4));
}

#[test]
fn profile_only_overrides_what_it_sets() {
    let mut office = ProfileConfig::default();
    office.peer = Some(String::from("peer.example"));
    office.duration = Some(20);
    let config = ConfigFile {
        database: Some(String::from("/tmp/a.db")),
        default: ProfileConfig {
            format: Some(String::from("json")),
            speed_unit: Some(String::from("mbps")),
            duration: Some(10),
            ..profile(Some(1), None, Some(2))
        },
        profiles: vec![
            (String::from("office"), office),
            (String::from("office"), profile(Some(99), None, None)),
        ],
    };
    let r = config.resolve(Some("office")).unwrap();
    assert_eq!(r.database.as_deref(), Some("/tmp/a.db"));
    assert_eq!(r.provider, Some(1), "the first profile of a name is the one used");
    assert_eq!(r.peer.as_deref(), Some("peer.example"));
    assert_eq!(r.duration, Some(20));
    assert_eq!(r.streams, Some(2));
    assert_eq!(r.format.as_deref(), Some("json"));
    assert_eq!(r.speed_unit.as_deref(), Some("mbps"));
}

#[test]
fn each_named_profile_is_found_among_several() {
    let config = ConfigFile {
        database: None,
        default: profile(Some(437), None, None),
        profiles: vec![
            (String::from("home"), profile(Some(1), Some("a"), None)),
            (String::from("office"), profile(Some(2), Some("b"), None)),
            (String::from("lab"), profile(Some(3), Some("c"), Some(2))),
        ],
    };
    for (name, provider, plan) in [("home", 1, "a"), ("office", 2, "b"), ("lab", 3, "c")] {
        let resolved = config.resolve(Some(name)).unwrap();
        assert_eq!(resolved.provider, Some(provider));
        assert_eq!(resolved.plan.as_deref(), Some(plan));
    }
}
