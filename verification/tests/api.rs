use bbm::api::{
    check_response, non_json_message, normalize_base_url, plans_path, provider_path, provider_speeds_path,
    providers_path, request_url, speeds_path, statistics_path, ResponseCheck, DEFAULT_BASE_URL,
};

#[test]
fn endpoints_have_their_paths() {
    assert_eq!(providers_path(), "/api/provider");
    assert_eq!(provider_path(437), "/api/provider/437");
    assert_eq!(plans_path(437), "/api/plans_desktop/437");
    assert_eq!(speeds_path(), "/api/speed");
    assert_eq!(provider_speeds_path(12), "/api/speed/12");
    assert_eq!(statistics_path(), "/api/statistics");
}

#[test]
fn base_urls_lose_trailing_slashes() {
    assert_eq!(normalize_base_url("http://127.0.0.1:8080//"), "http://127.0.0.1:8080");
    assert_eq!(normalize_base_url(DEFAULT_BASE_URL), "https://breitbandmessung.de");
    assert_eq!(request_url(&normalize_base_url("http://x/"), "/api/speed"), "http://x/api/speed");
}

#[test]
fn responses_are_checked_before_decoding() {
    assert_eq!(check_response(200, "application/json; charset=utf-8"), ResponseCheck::Json);
    assert_eq!(check_response(200, "text/html"), ResponseCheck::NotJson);
    assert_eq!(check_response(200, ""), ResponseCheck::NotJson);
    assert_eq!(check_response(503, "application/json"), ResponseCheck::NotSuccess);
    assert_eq!(check_response(404, "text/html"), ResponseCheck::NotSuccess);
}

#[test]
fn non_json_body_with_multibyte_char_at_cutoff_is_cut_by_characters() {
    let body = format!("{}ä{}", "a".repeat(199), "b".repeat(10));
    let msg = non_json_message("/api/provider", "text/html", &body);
    assert!(msg.contains("non-JSON"));
    assert_eq!(
        msg,
        format!("/api/provider returned non-JSON response (Content-Type: text/html): {}ä", "a".repeat(199))
    );
    assert_eq!(non_json_message("/p", "text/plain", "short"), "/p returned non-JSON response (Content-Type: text/plain): short");
}
