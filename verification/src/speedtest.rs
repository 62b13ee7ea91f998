//! Speed test settings and the peer's URL.
use vstd::prelude::*;

use crate::api::{contains, contains_text, trim_trailing_slashes, normalize_base_url};
use crate::error::BbmError;
use crate::text::{chars_of, push_char, push_str};

verus! {

/// The measurement peer unless another is named.
pub const DEFAULT_PEER: &'static str = "drsfv4.breitbandmessung.de";

/// The peer for latency measurement.
pub const DEFAULT_RTT_PEER: &'static str = "drsfrtt.breitbandmessung.de";

/// Seconds per throughput phase.
pub const DEFAULT_DURATION_SECS: u64 = 10;

/// The port latency is measured on.
pub const DEFAULT_PORT: u16 = 443;

/// Concurrent streams per throughput phase.
pub const DEFAULT_STREAMS: u16 = 8;

/// How a speed test is run.
#[derive(Debug)]
pub struct SpeedTestConfig {
    pub peer: String,
    pub rtt_peer: String,
    pub duration_secs: u64,
    pub port: u16,
    pub streams: u16,
}

impl Default for SpeedTestConfig {
    /// The standard test: the Breitbandmessung peers, 10 seconds per phase,
    /// port 443, 8 streams.
    fn default() -> (c: Self)
        ensures
            c.peer@ == DEFAULT_PEER@,
            c.rtt_peer@ == DEFAULT_RTT_PEER@,
            c.duration_secs == DEFAULT_DURATION_SECS,
            c.port == DEFAULT_PORT,
            c.streams == DEFAULT_STREAMS,
    {
        SpeedTestConfig {
            peer: String::from_str(DEFAULT_PEER),
            rtt_peer: String::from_str(DEFAULT_RTT_PEER),
            duration_secs: DEFAULT_DURATION_SECS,
            port: DEFAULT_PORT,
            streams: DEFAULT_STREAMS,
        }
    }
}

/// The URL a throughput stream talks to: a peer given with a scheme
/// (`http://host:port`) is used as it is, trailing slashes dropped; a bare
/// host name is reached over HTTPS. Either way the URL ends in one `/`.
pub open spec fn spec_peer_url(peer: Seq<char>) -> Seq<char> {
    if contains_text(peer, "://"@) {
        trim_trailing_slashes(peer).push('/')
    } else {
        "https://"@ + peer + seq!['/']
    }
}

/// The URL a throughput stream talks to.
pub fn peer_url(peer: &str) -> (r: String)
    ensures
        r@ == spec_peer_url(peer@),
{
    let sep = chars_of("://");
    if contains(&chars_of(peer), &sep) {
        let mut r = normalize_base_url(peer);
        push_char(&mut r, '/');
        r
    } else {
        let mut r = String::from_str("https://");
        push_str(&mut r, peer);
        push_char(&mut r, '/');
        r
    }
}

/// The direction of a throughput phase.
#[derive(Debug, Clone, Copy, PartialEq, Eq)]
pub enum Direction {
    Download,
    Upload,
}

/// The shortest phase whose rate is trusted, in nanoseconds (0.1 s).
pub const MIN_PHASE_NANOS: u128 = 100_000_000;

/// What a finished throughput phase is judged to be: a failure when it
/// moved no bytes, or when it lasted under 0.1 s; usable otherwise.
pub open spec fn spec_phase_verdict(direction: Direction, bytes: u64, elapsed_nanos: u128) -> Option<Seq<char>> {
    let name = match direction {
        Direction::Download => "download"@,
        Direction::Upload => "upload"@,
    };
    if bytes == 0 {
        Some(name + " moved no data (peer unreachable or rejecting requests)"@)
    } else if elapsed_nanos < MIN_PHASE_NANOS {
        Some(name + " measurement too short"@)
    } else {
        None
    }
}

/// Judges a finished throughput phase from the bytes it moved and the time
/// it took; `Ok` means its rate can be computed.
pub fn check_phase(direction: Direction, bytes: u64, elapsed_nanos: u128) -> (r: Result<(), BbmError>)
    ensures
        match spec_phase_verdict(direction, bytes, elapsed_nanos) {
            None => r is Ok,
            Some(m) => r matches Err(BbmError::TestFailed(t)) && t@ == m,
        },
{
    let mut m = String::from_str(match direction {
        Direction::Download => "download",
        Direction::Upload => "upload",
    });
    if bytes == 0 {
        push_str(&mut m, " moved no data (peer unreachable or rejecting requests)");
        Err(BbmError::TestFailed(m))
    } else if elapsed_nanos < MIN_PHASE_NANOS {
        push_str(&mut m, " measurement too short");
        Err(BbmError::TestFailed(m))
    } else {
        Ok(())
    }
}

} // verus!
