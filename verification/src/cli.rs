//! The command line's arguments, as plain data, and the decisions the
//! commands take on them.
use vstd::prelude::*;

use crate::config::{prefer, ResolvedConfig};
use crate::duration::{duration_fits, parse_duration, spec_error_message, spec_parse_duration, DurationError};
use crate::timestamp::{format_utc_millis, utc_seconds_text};
use crate::import::DuplicateStrategy;
use crate::speedtest::{DEFAULT_DURATION_SECS, DEFAULT_PEER, DEFAULT_STREAMS};
use crate::text::{chars_of, i64_text, parse_i64, push_i64, push_str, signed_decimal, spec_parse_i64};

verus! {

/// How a command prints its records.
#[derive(Debug, Clone, Copy, PartialEq, Eq)]
pub enum OutputFormat {
    Table,
    Json,
    Yaml,
    Csv,
    CsvHeadless,
}

/// The unit speeds are shown in; `Auto` picks one by size.
#[derive(Debug, Clone, Copy, PartialEq, Eq)]
pub enum SpeedUnit {
    Auto,
    Kbps,
    Mbps,
    Gbps,
}

/// Output format and destination (a file, or standard output).
#[derive(Debug)]
pub struct ListArgs {
    pub format: OutputFormat,
    pub output: Option<String>,
}

/// `test`: run a speed test, once or on a schedule.
#[derive(Debug)]
pub struct TestArgs {
    pub list: ListArgs,
    pub duration: u64,
    pub streams: u16,
    pub unit: SpeedUnit,
    pub peer: Option<String>,
    pub every: Option<String>,
    pub record: bool,
    pub provider: Option<i64>,
    pub plan: Option<String>,
}

impl TestArgs {
    /// Whether this run stores its result: asked for with `--record`, or
    /// implied by `--every`, since a schedule that kept nothing would be
    /// pointless.
    pub fn records_to_database(&self) -> (r: bool)
        ensures
            r == (self.record || self.every is Some),
    {
        self.record || self.every.is_some()
    }

    /// The test duration per phase: `--duration` where it was set to other
    /// than its default, else the configuration's `duration`, else the
    /// default.
    pub fn resolved_duration(&self, config: &ResolvedConfig) -> (r: u64)
        ensures
            r == (if self.duration != DEFAULT_DURATION_SECS {
                self.duration
            } else {
                match config.duration {
                    Some(d) => d,
                    None => DEFAULT_DURATION_SECS,
                }
            }),
    {
        if self.duration != DEFAULT_DURATION_SECS {
            self.duration
        } else {
            match config.duration {
                Some(d) => d,
                None => DEFAULT_DURATION_SECS,
            }
        }
    }

    /// The number of streams: `--streams` where it was set to other than its
    /// default, else the configuration's `streams`, else the default.
    pub fn resolved_streams(&self, config: &ResolvedConfig) -> (r: u16)
        ensures
            r == (if self.streams != DEFAULT_STREAMS {
                self.streams
            } else {
                match config.streams {
                    Some(n) => n,
                    None => DEFAULT_STREAMS,
                }
            }),
    {
        if self.streams != DEFAULT_STREAMS {
            self.streams
        } else {
            match config.streams {
                Some(n) => n,
                None => DEFAULT_STREAMS,
            }
        }
    }
}

/// `campaign start`.
#[derive(Debug)]
pub struct CampaignStartArgs {
    pub provider: i64,
    pub plan: String,
}

/// `campaign status`.
#[derive(Debug)]
pub struct CampaignStatusArgs {
    pub list: ListArgs,
}

/// `campaign report`.
#[derive(Debug)]
pub struct CampaignReportArgs {
    pub list: ListArgs,
}

/// `campaign test`.
#[derive(Debug)]
pub struct CampaignTestArgs {
    pub list: ListArgs,
    pub duration: u64,
    pub streams: u16,
    pub unit: SpeedUnit,
    pub peer: Option<String>,
}

/// `campaign list`.
#[derive(Debug)]
pub struct CampaignListArgs {
    pub list: ListArgs,
    pub status: Option<String>,
}

/// `export`.
#[derive(Debug)]
pub enum ExportCommands {
    Prometheus(PrometheusArgs),
}

/// `export prometheus`.
#[derive(Debug)]
pub struct PrometheusArgs {
    pub port: u16,
}

/// `list`.
#[derive(Debug)]
pub enum ListCommands {
    Providers(ProvidersArgs),
    Speeds(SpeedsArgs),
    Plans(PlansArgs),
}

/// `list providers`.
#[derive(Debug)]
pub struct ProvidersArgs {
    pub list: ListArgs,
    pub search: Option<String>,
    pub top: bool,
}

/// `list speeds`.
#[derive(Debug)]
pub struct SpeedsArgs {
    pub list: ListArgs,
    pub provider: Option<i64>,
}

/// `list plans`.
#[derive(Debug)]
pub struct PlansArgs {
    pub list: ListArgs,
    pub provider: i64,
}

/// `history list`.
#[derive(Debug)]
pub struct HistoryListArgs {
    pub list: ListArgs,
    pub limit: u32,
}

/// `history summary`.
#[derive(Debug)]
pub struct SummaryArgs {
    pub list: ListArgs,
}

/// `history delete`.
#[derive(Debug)]
pub struct DeleteArgs {
    pub id: Option<i64>,
    pub all: bool,
    pub confirm: bool,
}

/// `history purge`.
#[derive(Debug)]
pub struct PurgeArgs {
    pub older_than: String,
    pub confirm: bool,
}

/// `history export`.
#[derive(Debug)]
pub struct ExportArgs {
    pub output: Option<String>,
}

/// `history import`.
#[derive(Debug)]
pub struct ImportArgs {
    pub file: String,
    pub on_duplicate: DuplicateStrategy,
}

/// `history trend`.
#[derive(Debug)]
pub struct TrendArgs {
    pub limit: u32,
    pub last: Option<String>,
    pub unit: SpeedUnit,
}

/// `provider`.
#[derive(Debug)]
pub enum ProviderCommands {
    Switch(ProviderSwitchArgs),
    Show,
}

/// `provider switch`.
#[derive(Debug)]
pub struct ProviderSwitchArgs {
    pub id: i64,
}

/// `report`.
#[derive(Debug)]
pub enum ReportCommands {
    Annual(ReportAnnualArgs),
    Stats(ReportStatsArgs),
}

/// `report annual`.
#[derive(Debug)]
pub struct ReportAnnualArgs {
    pub list: ListArgs,
    pub year: Option<u32>,
}

/// `report stats`.
#[derive(Debug)]
pub struct ReportStatsArgs {
    pub list: ListArgs,
}

/// The provider a command uses: the flag, else the resolved configuration
/// (which already holds a stored provider where nothing else gave one).
pub fn resolve_provider(flag: Option<i64>, config: &ResolvedConfig) -> (r: Option<i64>)
    ensures
        r == prefer(flag, config.provider),
{
    match flag {
        Some(p) => Some(p),
        None => config.provider,
    }
}

/// The provider a command uses is the flag, else the configuration file's,
/// else the one stored by `provider switch`: `apply_stored_provider` folds
/// the stored one under the configuration, `resolve_provider` puts the flag
/// over both.
pub proof fn law_provider_precedence(flag: Option<i64>, configured: Option<i64>, stored: Option<i64>)
    ensures
        prefer(flag, prefer(configured, stored)) == (if flag is Some {
            flag
        } else if configured is Some {
            configured
        } else {
            stored
        }),
{
}

/// The plan a recorded measurement is tagged with: the flag, else the
/// configuration.
pub fn resolve_plan(flag: &Option<String>, config: &ResolvedConfig) -> (r: Option<String>)
    ensures
        r == prefer(*flag, config.plan),
{
    match flag {
        Some(p) => Some(p.clone()),
        None => match &config.plan {
            Some(p) => Some(p.clone()),
            None => None,
        },
    }
}

/// The measurement peer: the flag, else the configuration, else the
/// standard peer.
pub fn resolve_peer(flag: &Option<String>, config: &ResolvedConfig) -> (r: String)
    ensures
        r@ == match prefer(*flag, config.peer) {
            Some(p) => p@,
            None => DEFAULT_PEER@,
        },
{
    match flag {
        Some(p) => p.clone(),
        None => match &config.peer {
            Some(p) => p.clone(),
            None => String::from_str(DEFAULT_PEER),
        },
    }
}

/// What `history delete` removes.
#[derive(Debug, Clone, Copy, PartialEq, Eq)]
pub enum DeleteAction {
    /// Every measurement.
    All,
    /// The measurement with this identifier.
    One(i64),
}

/// Why `history delete` refuses.
#[derive(Debug, Clone, Copy, PartialEq, Eq)]
pub enum DeleteRefusal {
    /// `--all` without `--confirm`.
    NotConfirmed,
    /// Neither an identifier nor `--all`.
    NothingChosen,
}

impl DeleteArgs {
    /// Decides what to delete: `--all` needs `--confirm`; otherwise an
    /// identifier is needed.
    pub fn action(&self) -> (r: Result<DeleteAction, DeleteRefusal>)
        ensures
            self.all ==> (if self.confirm {
                r == Ok::<DeleteAction, DeleteRefusal>(DeleteAction::All)
            } else {
                r == Err::<DeleteAction, DeleteRefusal>(DeleteRefusal::NotConfirmed)
            }),
            !self.all ==> match self.id {
                Some(id) => r == Ok::<DeleteAction, DeleteRefusal>(DeleteAction::One(id)),
                None => r == Err::<DeleteAction, DeleteRefusal>(DeleteRefusal::NothingChosen),
            },
    {
        if self.all {
            if !self.confirm {
                return Err(DeleteRefusal::NotConfirmed);
            }
            Ok(DeleteAction::All)
        } else {
            match self.id {
                Some(id) => Ok(DeleteAction::One(id)),
                None => Err(DeleteRefusal::NothingChosen),
            }
        }
    }
}

impl DeleteRefusal {
    /// The refusal as the command line prints it.
    pub fn message(&self) -> (m: String)
        ensures
            m@ == match *self {
                DeleteRefusal::NotConfirmed => "use --confirm to delete all measurements"@,
                DeleteRefusal::NothingChosen => "specify a measurement ID or use --all --confirm"@,
            },
    {
        match self {
            DeleteRefusal::NotConfirmed => String::from_str("use --confirm to delete all measurements"),
            DeleteRefusal::NothingChosen => String::from_str("specify a measurement ID or use --all --confirm"),
        }
    }
}

/// The instant `secs` seconds before `now_ms` (milliseconds), as the
/// whole-second UTC text that stored timestamps are compared with.
pub open spec fn spec_time_before(now_ms: i64, secs: nat) -> Option<Seq<char>> {
    let t = now_ms - secs * 1000;
    if t < i64::MIN {
        None
    } else {
        utc_seconds_text(t as i64)
    }
}

/// The text of the instant `secs` seconds before `now_ms`, for selecting
/// measurements by age; `None` where that instant has no date.
pub fn time_before(now_ms: i64, secs: u64) -> (r: Option<String>)
    ensures
        match r {
            Some(s) => spec_time_before(now_ms, secs as nat) == Some(s@),
            None => spec_time_before(now_ms, secs as nat) is None,
        },
{
    let t: i128 = (now_ms as i128) - (secs as i128) * 1000;
    if t < i64::MIN as i128 {
        return None;
    }
    format_utc_millis(t as i64, "%Y-%m-%dT%H:%M:%SZ")
}

/// Why `history purge` refuses.
#[derive(Debug, Clone, Copy, PartialEq, Eq)]
pub enum PurgeRefusal {
    /// `--confirm` was not given.
    NotConfirmed,
    /// The age is not a duration.
    BadDuration(DurationError),
    /// The age reaches back before any date.
    OutOfRange,
}

impl PurgeArgs {
    /// The cutoff of `history purge` at `now_ms`: measurements stamped
    /// before it are deleted. `--confirm` is needed first, then an age that
    /// parses.
    pub fn cutoff(&self, now_ms: i64) -> (r: Result<String, PurgeRefusal>)
        requires
            duration_fits(self.older_than@),
        ensures
            !self.confirm ==> r == Err::<String, PurgeRefusal>(PurgeRefusal::NotConfirmed),
            self.confirm ==> match spec_parse_duration(self.older_than@) {
                Err(e) => r == Err::<String, PurgeRefusal>(PurgeRefusal::BadDuration(e)),
                Ok(secs) => match spec_time_before(now_ms, secs) {
                    Some(t) => r matches Ok(s) && s@ == t,
                    None => r == Err::<String, PurgeRefusal>(PurgeRefusal::OutOfRange),
                },
            },
    {
        if !self.confirm {
            return Err(PurgeRefusal::NotConfirmed);
        }
        match parse_duration(self.older_than.as_str()) {
            Err(e) => Err(PurgeRefusal::BadDuration(e)),
            Ok(secs) => match time_before(now_ms, secs) {
                Some(t) => Ok(t),
                None => Err(PurgeRefusal::OutOfRange),
            },
        }
    }
}

impl PurgeRefusal {
    /// The refusal as the command line prints it; `input` is the age given.
    pub fn message(&self, input: &str) -> (m: String)
        ensures
            m@ == match *self {
                PurgeRefusal::NotConfirmed => "use --confirm to purge measurements"@,
                PurgeRefusal::BadDuration(e) => spec_error_message(e, input@),
                PurgeRefusal::OutOfRange => "duration out of range"@,
            },
    {
        match self {
            PurgeRefusal::NotConfirmed => String::from_str("use --confirm to purge measurements"),
            PurgeRefusal::BadDuration(e) => e.message(input),
            PurgeRefusal::OutOfRange => String::from_str("duration out of range"),
        }
    }
}

impl ProviderSwitchArgs {
    /// The text stored as the active provider.
    pub fn setting_value(&self) -> (r: String)
        ensures
            r@ == signed_decimal(self.id as int),
    {
        i64_text(self.id)
    }
}

/// The key the active provider is stored under.
pub const ACTIVE_PROVIDER_KEY: &'static str = "active_provider";

/// The provider stored by `provider switch`, read back; a value that is
/// not an integer counts as none.
pub fn parse_stored_provider(value: Option<&str>) -> (r: Option<i64>)
    ensures
        match value {
            None => r is None,
            Some(v) => match spec_parse_i64(v@) {
                Some(n) => r == Some(n as i64),
                None => r is None,
            },
        },
{
    match value {
        None => None,
        Some(v) => parse_i64(&chars_of(v)),
    }
}

/// What `provider show` prints.
pub open spec fn spec_show_line(stored: Option<Seq<char>>, configured: Option<i64>) -> Seq<char> {
    match stored {
        Some(id) => "active provider: "@ + id + " (from database)"@,
        None => match configured {
            Some(id) => "active provider: "@ + signed_decimal(id as int) + " (from config)"@,
            None => "no active provider set"@,
        },
    }
}

/// The line `provider show` prints: the stored provider first, then the
/// configured one.
pub fn provider_show_line(stored: Option<&str>, configured: Option<i64>) -> (r: String)
    ensures
        r@ == spec_show_line(
            match stored {
                Some(s) => Some(s@),
                None => None,
            },
            configured,
        ),
{
    let mut r = String::new();
    match stored {
        Some(id) => {
            push_str(&mut r, "active provider: ");
            push_str(&mut r, id);
            push_str(&mut r, " (from database)");
        },
        None => match configured {
            Some(id) => {
                push_str(&mut r, "active provider: ");
                push_i64(&mut r, id);
                push_str(&mut r, " (from config)");
            },
            None => {
                push_str(&mut r, "no active provider set");
            },
        },
    }
    r
}

/// Where `compare` takes its speeds from.
#[derive(Debug, Clone, Copy, PartialEq, Eq)]
pub enum SpeedSource {
    /// The speeds given on the command line.
    Given,
    /// A speed test run now.
    RunTest,
}

/// Decides where `compare` takes its speeds from: both given speeds are
/// used; a test runs when asked for or when no speed is given; a single
/// speed without `--test` is refused.
pub fn speed_source(has_download: bool, has_upload: bool, test: bool) -> (r: Option<SpeedSource>)
    ensures
        r == (if has_download && has_upload {
            Some(SpeedSource::Given)
        } else if test || (!has_download && !has_upload) {
            Some(SpeedSource::RunTest)
        } else {
            None
        }),
{
    if has_download && has_upload {
        Some(SpeedSource::Given)
    } else if test || (!has_download && !has_upload) {
        Some(SpeedSource::RunTest)
    } else {
        None
    }
}

} // verus!
