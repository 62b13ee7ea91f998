//! Verified core of the Breitbandmessung client and its command-line tool:
//! the API's paths and response checks, the retry policy, the measurement
//! campaign rules, the import and export of measurement files, and the
//! decisions the commands take.
use vstd::prelude::*;

pub mod api;
pub mod calendar;
pub mod campaign;
pub mod cli;
pub mod config;
pub mod csv_row;
pub mod duration;
pub mod error;
pub mod exporter;
pub mod import;
pub mod listing;
pub mod report_days;
pub mod retry;
pub mod schedule;
pub mod speedtest;
pub mod table;
pub mod testutil;
pub mod text;
pub mod timestamp;

pub use api::{InconsistentIntegerString, Plan, Provider, Speed};
pub use error::BbmError;
pub use retry::RetryPolicy;
pub use speedtest::SpeedTestConfig;
pub use timestamp::{now_timestamp, TIMESTAMP_FORMAT};

verus! {

/// The version of the library and of the command line built on it.
pub const VERSION: &'static str = "0.2.0";

} // verus!
