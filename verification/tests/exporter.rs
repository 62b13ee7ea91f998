use bbm::exporter::{metrics_response, metrics_text, request_path, LatestFigures, SummaryFigures};

#[test]
fn the_path_is_the_second_word() {
    assert_eq!(request_path("GET /metrics HTTP/1.1\r\n"), "/metrics");
    assert_eq!(request_path("  GET\t/x  "), "/x");
    assert_eq!(request_path("GET"), "/");
    assert_eq!(request_path(""), "/");
}

#[test]
fn metrics_are_served_on_metrics_and_root() {
    let body = Ok(String::from("speedtest_measurements_total 1\n"));
    let r = metrics_response("GET /metrics HTTP/1.1\r\n", &body);
    assert_eq!(
        r,
        "HTTP/1.1 200 OK\r\nContent-Type: text/plain; version=0.0.4; charset=utf-8\r\nContent-Length: 31\r\nConnection: close\r\n\r\nspeedtest_measurements_total 1\n"
    );
    assert_eq!(metrics_response("GET / HTTP/1.1", &body), r);
}

#[test]
fn other_paths_are_not_found() {
    let r = metrics_response("GET /favicon.ico HTTP/1.1", &Ok(String::new()));
    assert_eq!(r, "HTTP/1.1 404 Not Found\r\nContent-Length: 9\r\nConnection: close\r\n\r\nnot found");
}

#[test]
fn a_failed_render_is_a_server_error() {
    let r = metrics_response("GET /metrics HTTP/1.1", &Err(String::from("database is locked")));
    assert_eq!(
        r,
        "HTTP/1.1 500 Internal Server Error\r\nContent-Length: 25\r\nConnection: close\r\n\r\nerror: database is locked"
    );
}

#[test]
fn content_length_counts_bytes() {
    let r = metrics_response("GET / HTTP/1.1", &Ok(String::from("ä")));
    assert!(r.contains("Content-Length: 2\r\n"));
}

#[test]
fn an_empty_store_has_no_metrics() {
    assert_eq!(metrics_text(&None, &None), "");
}

#[test]
fn metrics_pages_list_the_latest_then_the_summary() {
    let latest = LatestFigures {
        download_kbps: String::from("100000"),
        upload_kbps: String::from("50000"),
        latency_ms: String::from("12.5"),
        download_mbps: String::from("100.00"),
        upload_mbps: String::from("50.00"),
    };
    let summary = SummaryFigures {
        count: 1,
        avg_download_kbps: String::from("100000"),
        avg_upload_kbps: String::from("50000"),
        avg_latency_ms: String::from("12.5"),
    };
    let page = metrics_text(&Some(latest), &Some(summary));
    assert!(page.contains("speedtest_download_kbps 100000\n"));
    assert!(page.contains("speedtest_upload_kbps 50000\n"));
    assert!(page.contains("speedtest_latency_ms 12.5\n"));
    assert!(page.contains("speedtest_download_mbps 100.00\n"));
    assert!(page.contains("speedtest_measurements_total 1\n"));
    assert!(page.starts_with(
        "# HELP speedtest_download_kbps Latest download speed in kbit/s\n# TYPE speedtest_download_kbps gauge\nspeedtest_download_kbps 100000\n"
    ));
    assert!(page.contains("# TYPE speedtest_measurements_total counter\n"));
    assert_eq!(page.lines().count(), 27);
}

#[test]
fn words_are_split_at_unicode_white_space() {
    assert_eq!(request_path("GET\u{3000}/metrics\u{a0}HTTP/1.1"), "/metrics");
    assert_eq!(request_path("GET\u{2028}\u{2009}/a\u{85}b"), "/a");
    // U+200B (zero width space) is not White_Space: it stays in the word.
    assert_eq!(request_path("GET\u{200b}/metrics HTTP/1.1"), "HTTP/1.1");
}
