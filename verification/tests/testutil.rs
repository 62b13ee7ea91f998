use std::sync::atomic::{AtomicUsize, Ordering};
use std::sync::Arc;

use bbm::testutil::{http_response, StubServer};

#[test]
fn raw_responses_declare_their_byte_length() {
    let r = http_response(200, "text/html", "hä");
    assert_eq!(
        String::from_utf8(r).unwrap(),
        "HTTP/1.1 200 OK\r\nContent-Type: text/html\r\nContent-Length: 3\r\nConnection: close\r\n\r\nhä"
    );
}

#[test]
fn hits_reads_the_connection_counter() {
    let hits = Arc::new(AtomicUsize::new(0));
    let server = StubServer { base_url: String::from("http://127.0.0.1:1"), hits: hits.clone() };
    assert_eq!(server.hits(), 0);
    hits.fetch_add(2, Ordering::SeqCst);
    assert_eq!(server.hits(), 2);
}
