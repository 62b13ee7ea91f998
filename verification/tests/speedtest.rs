use bbm::error::BbmError;
use bbm::speedtest::{check_phase, peer_url, Direction, SpeedTestConfig, DEFAULT_PEER, DEFAULT_RTT_PEER};
use bbm::csv_row::parse_timestamp;
use bbm::timestamp::now_timestamp;

#[test]
fn default_speed_test_settings() {
    let c = SpeedTestConfig::default();
    assert_eq!(c.peer, DEFAULT_PEER);
    assert_eq!(c.rtt_peer, DEFAULT_RTT_PEER);
    assert_eq!(c.duration_secs, 10);
    assert_eq!(c.port, 443);
    assert_eq!(c.streams, 8);
}

#[test]
fn peers_become_urls() {
    assert_eq!(peer_url("drsfv4.breitbandmessung.de"), "https://drsfv4.breitbandmessung.de/");
    assert_eq!(peer_url("http://127.0.0.1:9000//"), "http://127.0.0.1:9000/");
}

#[test]
fn new_timestamps_are_canonical() {
    let now = now_timestamp();
    assert_eq!(now.len(), 24, "{now}");
    assert!(now.ends_with('Z'));
    assert_eq!(parse_timestamp(&now).as_deref(), Some(now.as_str()));
    assert_eq!(parse_timestamp("20.07.2026"), None);
}

#[test]
fn a_phase_without_data_or_time_fails() {
    assert!(check_phase(Direction::Download, 1, 100_000_000).is_ok());
    match check_phase(Direction::Download, 0, 10_000_000_000) {
        Err(BbmError::TestFailed(m)) => {
            assert_eq!(m, "download moved no data (peer unreachable or rejecting requests)")
        }
        other => panic!("unexpected {other:?}"),
    }
    match check_phase(Direction::Upload, 65_536, 99_999_999) {
        Err(BbmError::TestFailed(m)) => assert_eq!(m, "upload measurement too short"),
        other => panic!("unexpected {other:?}"),
    }
    match check_phase(Direction::Upload, 0, 0) {
        Err(BbmError::TestFailed(m)) => {
            assert_eq!(m, "upload moved no data (peer unreachable or rejecting requests)")
        }
        other => panic!("unexpected {other:?}"),
    }
}
