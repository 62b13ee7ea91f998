//! A stub HTTP server's handle, and raw HTTP responses for it to serve,
//! for exercising the client.
use vstd::prelude::*;
use vstd::string::StrSliceExecFns;
use vstd::utf8::encode_utf8;

use crate::text::{decimal, push_str, push_u64};

verus! {

/// The text of a raw HTTP/1.1 response with the given status, content type
/// and body; the declared length is the body's length in UTF-8 bytes.
pub open spec fn spec_http_response(status: u16, content_type: Seq<char>, body: Seq<char>) -> Seq<char> {
    "HTTP/1.1 "@ + decimal(status as nat) + " OK\r\nContent-Type: "@ + content_type
        + "\r\nContent-Length: "@ + decimal(encode_utf8(body).len()) + "\r\nConnection: close\r\n\r\n"@
        + body
}

/// Builds a raw HTTP/1.1 response with an explicit `Content-Type`, as bytes.
pub fn http_response(status: u16, content_type: &str, body: &str) -> (r: Vec<u8>)
    ensures
        r@ == encode_utf8(spec_http_response(status, content_type@, body@)),
{
    let mut s = String::new();
    push_str(&mut s, "HTTP/1.1 ");
    push_u64(&mut s, status as u64);
    push_str(&mut s, " OK\r\nContent-Type: ");
    push_str(&mut s, content_type);
    push_str(&mut s, "\r\nContent-Length: ");
    let n = body.as_bytes().len();
    push_u64(&mut s, n as u64);
    push_str(&mut s, "\r\nConnection: close\r\n\r\n");
    push_str(&mut s, body);
    assert(n as nat == encode_utf8(body@).len());
    assert(s@ =~= spec_http_response(status, content_type@, body@));
    let t = s.as_str();
    assert(t@ == s@);
    t.as_bytes_vec()
}

/// A running stub server: the base URL to hand to the client, and the count
/// of connections it has accepted, which its accept loop raises.
pub struct StubServer {
    /// Base URL to hand to `BbmClient::with_base_url`.
    pub base_url: String,
    /// Connections accepted so far; the server's accept loop raises it.
    pub hits: std::sync::Arc<std::sync::atomic::AtomicUsize>,
}

impl StubServer {
    /// Number of connections accepted so far. The accept loop raises the
    /// count concurrently, so what a read gives is not known in advance.
    pub fn hits(&self) -> usize {
        self.hits.load(std::sync::atomic::Ordering::SeqCst)
    }
}

} // verus!
