//! The configuration file's model and how a profile is resolved from it.
use vstd::prelude::*;

use crate::text::push_str;

verus! {

/// Settings that the `default` section and each named profile may carry.
#[derive(Debug)]
pub struct ProfileConfig {
    pub provider: Option<i64>,
    pub plan: Option<String>,
    pub peer: Option<String>,
    pub format: Option<String>,
    pub streams: Option<u16>,
    pub duration: Option<u64>,
    pub speed_unit: Option<String>,
}

/// The configuration file: a database path, the default section, and the
/// named profiles in the order they were read. The profiles come from a
/// table of the file, whose keys TOML keeps distinct, so each name occurs
/// once (`profile_names_distinct`, the invariant `wf`); a list is enough
/// to hold them, and a
/// lookup takes the first profile of a name.
#[derive(Debug)]
pub struct ConfigFile {
    pub database: Option<String>,
    pub default: ProfileConfig,
    pub profiles: Vec<(String, ProfileConfig)>,
}

/// The settings in force once a profile has been applied.
#[derive(Debug)]
pub struct ResolvedConfig {
    pub database: Option<String>,
    pub provider: Option<i64>,
    pub plan: Option<String>,
    pub peer: Option<String>,
    pub format: Option<String>,
    pub streams: Option<u16>,
    pub duration: Option<u64>,
    pub speed_unit: Option<String>,
}

/// Why a configuration could not be resolved.
#[derive(Debug, Clone, PartialEq, Eq)]
pub enum ConfigError {
    /// The named profile is not in the file.
    UnknownProfile(String),
}

/// `over` where it is set, `base` otherwise.
pub open spec fn prefer<T>(over: Option<T>, base: Option<T>) -> Option<T> {
    if over is Some {
        over
    } else {
        base
    }
}

/// The profile called `name`: the first one with that name.
pub open spec fn lookup_profile(profiles: Seq<(String, ProfileConfig)>, name: Seq<char>) -> Option<
    ProfileConfig,
>
    decreases profiles.len(),
{
    if profiles.len() == 0 {
        None
    } else {
        let earlier = lookup_profile(profiles.drop_last(), name);
        if earlier is Some {
            earlier
        } else if profiles.last().0@ == name {
            Some(profiles.last().1)
        } else {
            None
        }
    }
}

/// Resolving a profile: every setting the profile carries is the one in
/// force; a setting it leaves unset comes from the default section; the
/// database path always comes from the file.
pub proof fn law_profile_settings_win(c: ConfigFile, p: ProfileConfig)
    ensures
        overlay(base_resolution(c), p).database == c.database,
        p.provider is Some ==> overlay(base_resolution(c), p).provider == p.provider,
        p.provider is None ==> overlay(base_resolution(c), p).provider == c.default.provider,
        p.plan is Some ==> overlay(base_resolution(c), p).plan == p.plan,
        p.plan is None ==> overlay(base_resolution(c), p).plan == c.default.plan,
        p.peer is Some ==> overlay(base_resolution(c), p).peer == p.peer,
        p.peer is None ==> overlay(base_resolution(c), p).peer == c.default.peer,
        p.format is Some ==> overlay(base_resolution(c), p).format == p.format,
        p.format is None ==> overlay(base_resolution(c), p).format == c.default.format,
        p.streams is Some ==> overlay(base_resolution(c), p).streams == p.streams,
        p.streams is None ==> overlay(base_resolution(c), p).streams == c.default.streams,
        p.duration is Some ==> overlay(base_resolution(c), p).duration == p.duration,
        p.duration is None ==> overlay(base_resolution(c), p).duration == c.default.duration,
        p.speed_unit is Some ==> overlay(base_resolution(c), p).speed_unit == p.speed_unit,
        p.speed_unit is None ==> overlay(base_resolution(c), p).speed_unit == c.default.speed_unit,
{
}

/// No two profiles share a name.
pub open spec fn profile_names_distinct(profiles: Seq<(String, ProfileConfig)>) -> bool {
    forall|i: int, j: int|
        0 <= i < j < profiles.len() ==> #[trigger] profiles[i].0@ != #[trigger] profiles[j].0@
}

/// Where profile names are distinct, looking up a profile's name finds
/// that profile.
pub proof fn law_lookup_finds_named_profile(profiles: Seq<(String, ProfileConfig)>, i: int)
    requires
        profile_names_distinct(profiles),
        0 <= i < profiles.len(),
    ensures
        lookup_profile(profiles, profiles[i].0@) == Some(profiles[i].1),
    decreases profiles.len(),
{
    let name = profiles[i].0@;
    if i == profiles.len() - 1 {
        lemma_lookup_absent(profiles.drop_last(), name);
    } else {
        let init = profiles.drop_last();
        assert(init[i] == profiles[i]);
        assert forall|a: int, b: int| 0 <= a < b < init.len() implies #[trigger] init[a].0@ != #[trigger] init[b].0@ by {
            assert(init[a] == profiles[a] && init[b] == profiles[b]);
        }
        law_lookup_finds_named_profile(init, i);
    }
}

/// A name that no profile carries is not found.
proof fn lemma_lookup_absent(profiles: Seq<(String, ProfileConfig)>, name: Seq<char>)
    requires
        forall|k: int| 0 <= k < profiles.len() ==> #[trigger] profiles[k].0@ != name,
    ensures
        lookup_profile(profiles, name) is None,
    decreases profiles.len(),
{
    if profiles.len() > 0 {
        let init = profiles.drop_last();
        assert forall|k: int| 0 <= k < init.len() implies #[trigger] init[k].0@ != name by {
            assert(init[k] == profiles[k]);
        }
        lemma_lookup_absent(init, name);
    }
}

/// The configuration with only the default section applied.
pub open spec fn base_resolution(c: ConfigFile) -> ResolvedConfig {
    ResolvedConfig {
        database: c.database,
        provider: c.default.provider,
        plan: c.default.plan,
        peer: c.default.peer,
        format: c.default.format,
        streams: c.default.streams,
        duration: c.default.duration,
        speed_unit: c.default.speed_unit,
    }
}

/// `r` with every setting that `p` carries taking its place.
pub open spec fn overlay(r: ResolvedConfig, p: ProfileConfig) -> ResolvedConfig {
    ResolvedConfig {
        database: r.database,
        provider: prefer(p.provider, r.provider),
        plan: prefer(p.plan, r.plan),
        peer: prefer(p.peer, r.peer),
        format: prefer(p.format, r.format),
        streams: prefer(p.streams, r.streams),
        duration: prefer(p.duration, r.duration),
        speed_unit: prefer(p.speed_unit, r.speed_unit),
    }
}

fn copy_text(o: &Option<String>) -> (r: Option<String>)
    ensures
        r == *o,
{
    match o {
        Some(s) => Some(s.clone()),
        None => None,
    }
}

impl Default for ProfileConfig {
    /// A profile that sets nothing.
    fn default() -> (p: Self)
        ensures
            p.provider is None && p.plan is None && p.peer is None && p.format is None
                && p.streams is None && p.duration is None && p.speed_unit is None,
    {
        ProfileConfig {
            provider: None,
            plan: None,
            peer: None,
            format: None,
            streams: None,
            duration: None,
            speed_unit: None,
        }
    }
}

impl Default for ConfigFile {
    /// A configuration with no database path, an empty default section and
    /// no profiles: what a missing file means.
    fn default() -> (c: Self)
        ensures
            c.database is None,
            c.profiles@.len() == 0,
            c.default == ProfileConfig::empty_spec(),
    {
        ConfigFile { database: None, default: ProfileConfig::default(), profiles: Vec::new() }
    }
}

impl ConfigFile {
    /// The file's invariant: its profiles carry distinct names, as the keys
    /// of the TOML table they are read from do.
    pub open spec fn wf(self) -> bool {
        profile_names_distinct(self.profiles@)
    }

    /// Resolves the settings: the default section, then the named profile's
    /// settings on top of it. An unknown profile is an error. In a file that
    /// keeps its invariant, the profile used is the one carrying the name.
    pub fn resolve(&self, profile: Option<&str>) -> (r: Result<ResolvedConfig, ConfigError>)
        ensures
            self.wf() ==> (profile matches Some(name) ==> forall|i: int|
                0 <= i < self.profiles@.len() && #[trigger] self.profiles@[i].0@ == name@ ==> r
                    == Ok::<ResolvedConfig, ConfigError>(
                    overlay(base_resolution(*self), self.profiles@[i].1),
                )),
            profile is None ==> r == Ok::<ResolvedConfig, ConfigError>(base_resolution(*self)),
            profile matches Some(name) ==> (lookup_profile(self.profiles@, name@) matches Some(p)
                ==> r == Ok::<ResolvedConfig, ConfigError>(overlay(base_resolution(*self), p))),
            profile matches Some(name) ==> (lookup_profile(self.profiles@, name@) is None
                ==> (r matches Err(ConfigError::UnknownProfile(n)) && n@ == name@)),
    {
        proof {
            if self.wf() {
                assert forall|i: int| 0 <= i < self.profiles@.len() implies lookup_profile(
                    self.profiles@,
                    #[trigger] self.profiles@[i].0@,
                ) == Some(self.profiles@[i].1) by {
                    law_lookup_finds_named_profile(self.profiles@, i);
                }
            }
        }
        let mut resolved = ResolvedConfig {
            database: copy_text(&self.database),
            provider: self.default.provider,
            plan: copy_text(&self.default.plan),
            peer: copy_text(&self.default.peer),
            format: copy_text(&self.default.format),
            streams: self.default.streams,
            duration: self.default.duration,
            speed_unit: copy_text(&self.default.speed_unit),
        };
        match profile {
            None => Ok(resolved),
            Some(name) => {
                let wanted = String::from_str(name);
                let mut i: usize = 0;
                while i < self.profiles.len()
                    invariant
                        i <= self.profiles.len(),
                        wanted@ == name@,
                        profile == Some(name),
                        resolved == base_resolution(*self),
                        lookup_profile(self.profiles@.take(i as int), name@) is None,
                    decreases self.profiles.len() - i,
                {
                    proof {
                        assert(self.profiles@.take(i + 1).drop_last() =~= self.profiles@.take(
                            i as int,
                        ));
                    }
                    if self.profiles[i].0 == wanted {
                        let p = &self.profiles[i].1;
                        proof {
                            lemma_lookup_prefix(self.profiles@, name@, i + 1);
                        }
                        if let Some(v) = p.provider {
                            resolved.provider = Some(v);
                        }
                        if let Some(v) = &p.plan {
                            resolved.plan = Some(v.clone());
                        }
                        if let Some(v) = &p.peer {
                            resolved.peer = Some(v.clone());
                        }
                        if let Some(v) = &p.format {
                            resolved.format = Some(v.clone());
                        }
                        if let Some(v) = p.streams {
                            resolved.streams = Some(v);
                        }
                        if let Some(v) = p.duration {
                            resolved.duration = Some(v);
                        }
                        if let Some(v) = &p.speed_unit {
                            resolved.speed_unit = Some(v.clone());
                        }
                        return Ok(resolved);
                    }
                    i = i + 1;
                }
                proof {
                    assert(self.profiles@.take(self.profiles.len() as int) =~= self.profiles@);
                }
                Err(ConfigError::UnknownProfile(wanted))
            },
        }
    }
}

impl ProfileConfig {
    /// A profile that sets nothing.
    pub open spec fn empty_spec() -> ProfileConfig {
        ProfileConfig {
            provider: None,
            plan: None,
            peer: None,
            format: None,
            streams: None,
            duration: None,
            speed_unit: None,
        }
    }
}

/// Once a prefix of the profiles finds `name`, the whole list finds the same.
proof fn lemma_lookup_prefix(profiles: Seq<(String, ProfileConfig)>, name: Seq<char>, n: int)
    requires
        0 < n <= profiles.len(),
        lookup_profile(profiles.take(n - 1), name) is None,
        profiles[n - 1].0@ == name,
    ensures
        lookup_profile(profiles, name) == Some(profiles[n - 1].1),
    decreases profiles.len() - n,
{
    assert(profiles.take(n).drop_last() =~= profiles.take(n - 1));
    assert(profiles.take(n).last() == profiles[n - 1]);
    assert(lookup_profile(profiles.take(n), name) == Some(profiles[n - 1].1));
    if n < profiles.len() {
        lemma_lookup_extends(profiles, name, n, profiles.len() as int);
        assert(profiles.take(profiles.len() as int) =~= profiles);
    } else {
        assert(profiles.take(n) =~= profiles);
    }
}

proof fn lemma_lookup_extends(profiles: Seq<(String, ProfileConfig)>, name: Seq<char>, n: int, m: int)
    requires
        0 < n <= m <= profiles.len(),
        lookup_profile(profiles.take(n), name) is Some,
    ensures
        lookup_profile(profiles.take(m), name) == lookup_profile(profiles.take(n), name),
    decreases m - n,
{
    if m > n {
        lemma_lookup_extends(profiles, name, n, m - 1);
        assert(profiles.take(m).drop_last() =~= profiles.take(m - 1));
    }
    if m == profiles.len() {
        assert(profiles.take(m) =~= profiles);
    }
}

impl ResolvedConfig {
    /// Folds in the provider stored by `provider switch`. It is the least
    /// explicit source, so it only fills a gap: a provider already set by a
    /// flag or the configuration file stays.
    pub fn apply_stored_provider(&mut self, stored: Option<i64>)
        ensures
            final(self).provider == prefer(old(self).provider, stored),
            final(self).database == old(self).database,
            final(self).plan == old(self).plan,
            final(self).peer == old(self).peer,
            final(self).format == old(self).format,
            final(self).streams == old(self).streams,
            final(self).duration == old(self).duration,
            final(self).speed_unit == old(self).speed_unit,
    {
        if self.provider.is_none() {
            self.provider = stored;
        }
    }

}

impl Default for ResolvedConfig {
    /// Settings with nothing set.
    fn default() -> (r: Self)
        ensures
            r.database is None && r.provider is None && r.plan is None && r.peer is None
                && r.format is None && r.streams is None && r.duration is None
                && r.speed_unit is None,
    {
        ResolvedConfig {
            database: None,
            provider: None,
            plan: None,
            peer: None,
            format: None,
            streams: None,
            duration: None,
            speed_unit: None,
        }
    }
}

impl ConfigError {
    /// The message the command line prints.
    pub fn message(&self) -> (m: String)
        ensures
            match self {
                ConfigError::UnknownProfile(n) => m@ == "profile '"@ + n@ + "' not found in config"@,
            },
    {
        let mut m = String::new();
        match self {
            ConfigError::UnknownProfile(n) => {
                push_str(&mut m, "profile '");
                push_str(&mut m, n.as_str());
                push_str(&mut m, "' not found in config");
            },
        }
        m
    }
}

} // verus!
