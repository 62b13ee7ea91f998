use bbm::csv_row::{is_float_text, sanitize_csv_field, ImportRow, ImportRowError};
use bbm::csv_row::parse_timestamp;

fn record(fields: &[&str]) -> Vec<String> {
    fields.iter().map(|f| f.to_string()).collect()
}

fn number(text: &str) -> f64 {
    text.parse::<f64>().unwrap()
}

#[test]
fn parses_the_export_schema() {
    let headers = record(&["timestamp", "download_kbps", "upload_kbps", "latency_ms", "provider_id", "plan_id"]);
    let row = record(&["2026-07-20T09:56:55.000Z", "1000.5", "500.25", "5.5", "437", "plan-1"]);

    let parsed = ImportRow::from_record(&headers, &row, 2).unwrap();

    assert_eq!(parsed.timestamp, "2026-07-20T09:56:55.000Z");
    assert_eq!(number(&parsed.download_kbps), 1000.5);
    assert_eq!(parsed.provider_id, Some(437));
    assert_eq!(parsed.plan_id.as_deref(), Some("plan-1"));
}

#[test]
fn parses_the_list_schema_with_leading_id() {
    let headers = record(&["id", "timestamp", "download_kbps", "upload_kbps", "latency_ms", "provider_id", "plan_id"]);
    let row = record(&["7", "2026-07-20T09:56:55.000Z", "1000.5", "500.25", "5.5", "437", "plan-1"]);

    let parsed = ImportRow::from_record(&headers, &row, 2).unwrap();

    assert_eq!(number(&parsed.download_kbps), 1000.5, "columns resolved by name");
    assert_eq!(parsed.provider_id, Some(437));
}

#[test]
fn column_order_is_irrelevant() {
    let headers = record(&["plan_id", "latency_ms", "timestamp", "upload_kbps", "download_kbps"]);
    let row = record(&["p1", "5.5", "2026-07-20T09:56:55.000Z", "500.25", "1000.5"]);

    let parsed = ImportRow::from_record(&headers, &row, 2).unwrap();

    assert_eq!(number(&parsed.download_kbps), 1000.5);
    assert_eq!(number(&parsed.latency_ms), 5.5);
    assert_eq!(parsed.plan_id.as_deref(), Some("p1"));
}

#[test]
fn rejects_invalid_timestamp_naming_the_row() {
    let headers = record(&["timestamp", "download_kbps", "upload_kbps", "latency_ms"]);
    let row = record(&["not-a-date", "1", "1", "1"]);

    let err = ImportRow::from_record(&headers, &row, 42).unwrap_err();
    let msg = err.message();

    assert!(msg.contains("42"), "error should name the line: {msg}");
    assert!(msg.contains("timestamp"), "error should name the column: {msg}");
}

#[test]
fn rejects_invalid_number_naming_row_and_column() {
    let headers = record(&["timestamp", "download_kbps", "upload_kbps", "latency_ms"]);
    let row = record(&["2026-07-20T09:56:55.000Z", "abc", "1", "1"]);

    let err = ImportRow::from_record(&headers, &row, 13).unwrap_err();
    let msg = err.message();

    assert!(msg.contains("13"), "error should name the line: {msg}");
    assert!(msg.contains("download_kbps"), "error should name the column: {msg}");
}

#[test]
fn missing_required_column_is_reported() {
    let headers = record(&["timestamp", "download_kbps"]);
    let row = record(&["2026-07-20T09:56:55.000Z", "1"]);

    let err = ImportRow::from_record(&headers, &row, 2).unwrap_err();
    let msg = err.message();

    assert!(msg.contains("upload_kbps"), "should name what is missing: {msg}");
}

#[test]
fn empty_optional_fields_become_none() {
    let headers = record(&["timestamp", "download_kbps", "upload_kbps", "latency_ms", "provider_id", "plan_id"]);
    let row = record(&["2026-07-20T09:56:55.000Z", "1", "1", "1", "", ""]);

    let parsed = ImportRow::from_record(&headers, &row, 2).unwrap();

    assert_eq!(parsed.provider_id, None);
    assert_eq!(parsed.plan_id, None);
}

#[test]
fn timestamps_are_normalised() {
    assert_eq!(
        parse_timestamp("2026-07-20T09:56:55.672667+00:00").unwrap(),
        "2026-07-20T09:56:55.672Z"
    );
    assert_eq!(parse_timestamp("2026-07-20T11:56:55+02:00").unwrap(), "2026-07-20T09:56:55.000Z");
}

#[test]
fn formula_prefixes_are_neutralised() {
    assert_eq!(sanitize_csv_field("=cmd|calc"), "'=cmd|calc");
    assert_eq!(sanitize_csv_field("+1"), "'+1");
    assert_eq!(sanitize_csv_field("-1"), "'-1");
    assert_eq!(sanitize_csv_field("@SUM(A1)"), "'@SUM(A1)");
}

#[test]
fn ordinary_values_are_untouched() {
    assert_eq!(sanitize_csv_field("plan-1"), "plan-1");
    assert_eq!(sanitize_csv_field("437"), "437");
    assert_eq!(sanitize_csv_field(""), "");
}

#[test]
fn tab_prefix_is_neutralised_too() {
    assert_eq!(sanitize_csv_field("\tx"), "'\tx");
}

#[test]
fn each_import_error_has_its_message() {
    let headers = record(&["timestamp", "download_kbps"]);
    let err = ImportRow::from_record(&headers, &record(&["x", "1"]), 2).unwrap_err();
    assert!(matches!(err, ImportRowError::MissingColumn { .. }));
    assert_eq!(
        err.message(),
        "missing required column \"upload_kbps\"; found columns: timestamp, download_kbps"
    );

    let headers = record(&["timestamp", "download_kbps", "upload_kbps", "latency_ms", "provider_id"]);
    let err = ImportRow::from_record(&headers, &record(&["not-a-date", "1", "1", "1", ""]), 42).unwrap_err();
    assert_eq!(
        err.message(),
        "line 42: column \"timestamp\" is invalid: invalid timestamp \"not-a-date\" (expected RFC 3339)"
    );

    let err = ImportRow::from_record(
        &headers,
        &record(&["2026-07-20T09:56:55.000Z", "1", "1", "1", "x7"]),
        5,
    )
    .unwrap_err();
    assert!(matches!(err, ImportRowError::InvalidProviderId { line: 5, .. }));
    assert_eq!(err.message(), "line 5: column \"provider_id\" has invalid integer \"x7\"");

    let err = ImportRow::from_record(
        &headers,
        &record(&["2026-07-20T09:56:55.000Z", "1", "1", "fast", ""]),
        9,
    )
    .unwrap_err();
    assert_eq!(err.message(), "line 9: column \"latency_ms\" has invalid number \"fast\"");
}

#[test]
fn fields_and_headers_are_trimmed() {
    let headers = record(&[" timestamp ", "download_kbps", " upload_kbps", "latency_ms ", "plan_id"]);
    let row = record(&[" 2026-07-20T09:56:55Z ", " 12 ", "3e2", " .5", "  "]);
    let parsed = ImportRow::from_record(&headers, &row, 2).unwrap();
    assert_eq!(parsed.timestamp, "2026-07-20T09:56:55.000Z");
    assert_eq!(parsed.download_kbps, "12");
    assert_eq!(number(&parsed.upload_kbps), 300.0);
    assert_eq!(number(&parsed.latency_ms), 0.5);
    assert_eq!(parsed.plan_id, None);
}

#[test]
fn float_text_follows_the_standard_grammar() {
    for ok in ["1", "1.", ".5", "-1.5e3", "+2E-2", "inf", "-Infinity", "NaN", "1e5", "007"] {
        assert!(is_float_text(ok), "{ok}");
        assert!(ok.parse::<f64>().is_ok(), "{ok}");
    }
    for bad in ["", ".", "e5", "1e", "1e+", "abc", "1.2.3", " 1", "1 ", "--1", "infinit", "0x10"] {
        assert!(!is_float_text(bad), "{bad}");
        assert!(bad.parse::<f64>().is_err(), "{bad}");
    }
}

#[test]
fn sanitized_fields_never_start_a_formula() {
    // The law: the result is the field, or the field behind one quote, and
    // never starts with a formula character.
    for value in ["=1+1", "+x", "-", "@", "\t", "", "a=b", "'quoted", "ß"] {
        let safe = sanitize_csv_field(value);
        assert!(!safe.starts_with(['=', '+', '-', '@', '\t']), "{safe:?}");
        assert!(safe == value || safe == format!("'{value}"));
    }
}

#[test]
fn every_rfc3339_text_normalises() {
    // The ends of what RFC 3339 can write: year 0000 and year 9999, with the
    // widest offsets and a leap second.
    assert_eq!(parse_timestamp("0000-01-01T00:00:00Z").as_deref(), Some("0000-01-01T00:00:00.000Z"));
    assert!(parse_timestamp("0000-01-01T00:00:00+23:59").is_some());
    assert_eq!(parse_timestamp("9999-12-31T23:59:59.999Z").as_deref(), Some("9999-12-31T23:59:59.999Z"));
    assert!(parse_timestamp("9999-12-31T23:59:60.999-23:59").is_some());
    // A leap second counts as one more second.
    assert_eq!(parse_timestamp("2016-12-31T23:59:60Z").as_deref(), Some("2017-01-01T00:00:00.000Z"));
    assert_eq!(parse_timestamp("2000-02-29 12:00:00+01:00").as_deref(), Some("2000-02-29T11:00:00.000Z"));
}

#[test]
fn canonical_timestamps_read_back_unchanged() {
    for text in [
        "2026-07-20T09:56:55.672667+00:00",
        "1999-12-31T23:59:59.999-05:30",
        "0001-03-01T00:00:00+02:00",
        "2024-02-29T00:00:00.5Z",
    ] {
        let canonical = parse_timestamp(text).unwrap();
        assert_eq!(canonical.len(), 24);
        assert_eq!(parse_timestamp(&canonical), Some(canonical.clone()));
    }
    assert_eq!(
        parse_timestamp("2026-07-20T09:56:55.672667+00:00").as_deref(),
        Some("2026-07-20T09:56:55.672Z")
    );
}

#[test]
fn canonical_timestamps_sort_by_time() {
    // Pairs given in time order, with offsets that reverse their text order.
    let ordered = [
        "1899-12-31T23:00:00-01:00",
        "1900-01-01T00:30:00Z",
        "1900-03-01T00:00:00+05:00",
        "2000-02-29T23:59:59.999Z",
        "2000-03-01T00:00:00.000+00:00",
        "2024-12-31T20:00:00-05:00",
        "2025-01-01T03:00:00+01:00",
        "9999-12-31T23:59:59.999Z",
    ];
    let canonical: Vec<String> = ordered.iter().map(|t| parse_timestamp(t).unwrap()).collect();
    for i in 0..canonical.len() {
        for j in 0..canonical.len() {
            assert_eq!(canonical[i] < canonical[j], i < j, "{} vs {}", canonical[i], canonical[j]);
        }
    }
    // The same instant written two ways gives one text.
    assert_eq!(parse_timestamp("2026-07-20T11:56:55+02:00"), parse_timestamp("2026-07-20T09:56:55Z"));
}

#[test]
fn unicode_white_space_is_trimmed_from_headers_and_fields() {
    let headers = record(&["\u{3000}timestamp\u{2003}", "download_kbps\u{a0}", "\u{85}upload_kbps", "latency_ms\u{2029}"]);
    let row = record(&["\u{202f}2026-07-20T09:56:55Z", "1000.5\u{1680}", "500.25", "\t5.5\u{205f}"]);

    let parsed = ImportRow::from_record(&headers, &row, 2).unwrap();

    assert_eq!(parsed.timestamp, "2026-07-20T09:56:55.000Z");
    assert_eq!(parsed.download_kbps, "1000.5");
    assert_eq!(parsed.latency_ms, "5.5");
    // A character outside the White_Space set stays part of the name.
    let zero_width = record(&["\u{200b}timestamp", "download_kbps", "upload_kbps", "latency_ms"]);
    assert!(matches!(
        ImportRow::from_record(&zero_width, &row, 2),
        Err(ImportRowError::MissingColumn { .. })
    ));
}

#[test]
fn reordered_columns_read_the_same_row() {
    let headers = record(&["timestamp", "download_kbps", "upload_kbps", "latency_ms", "provider_id", "plan_id"]);
    let row = record(&["2026-07-20T09:56:55+02:00", "1000.5", "500.25", "5.5", "437", "plan-1"]);
    let order = [5usize, 3, 0, 4, 1, 2];
    let headers2: Vec<String> = order.iter().map(|&k| headers[k].clone()).collect();
    let row2: Vec<String> = order.iter().map(|&k| row[k].clone()).collect();

    let a = ImportRow::from_record(&headers, &row, 9).unwrap();
    let b = ImportRow::from_record(&headers2, &row2, 9).unwrap();

    assert_eq!(a.timestamp, b.timestamp);
    assert_eq!(a.download_kbps, b.download_kbps);
    assert_eq!(a.upload_kbps, b.upload_kbps);
    assert_eq!(a.latency_ms, b.latency_ms);
    assert_eq!(a.provider_id, b.provider_id);
    assert_eq!(a.plan_id, b.plan_id);

    let bad = record(&["2026-07-20T09:56:55Z", "fast", "500.25", "5.5", "437", "plan-1"]);
    let bad2: Vec<String> = order.iter().map(|&k| bad[k].clone()).collect();
    assert_eq!(
        ImportRow::from_record(&headers, &bad, 9).unwrap_err().message(),
        ImportRow::from_record(&headers2, &bad2, 9).unwrap_err().message()
    );
}
