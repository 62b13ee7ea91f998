//! The Breitbandmessung API: its records, its endpoints, and what the
//! client makes of a response before decoding it.
use vstd::prelude::*;

use crate::text::{chars_of, push_char, push_i64, push_str, signed_decimal, string_of, sub_chars};

verus! {

/// Where the API lives unless told otherwise.
pub const DEFAULT_BASE_URL: &'static str = "https://breitbandmessung.de";

/// Characters shown of a body that is not JSON.
pub const PREVIEW_CHARS: usize = 200;

/// A string field that the API sends sometimes as a JSON string and
/// sometimes as a JSON number; either way it is kept as text.
#[derive(Debug, Clone, PartialEq, Eq, Hash)]
pub struct InconsistentIntegerString(pub String);

/// An internet provider as the API lists it.
#[derive(Debug)]
pub struct Provider {
    pub key: String,
    pub operator: String,
    pub company: String,
    pub value: String,
    pub is_top: i64,
    pub has_plans: i64,
}

/// A speed class as the API lists it.
#[derive(Debug)]
pub struct Speed {
    pub key: String,
    pub value: String,
    pub provider_id: InconsistentIntegerString,
}

/// A provider's contract plan, with its contractual speeds in kbit/s as
/// the API sends them (text).
#[derive(Debug)]
pub struct Plan {
    pub plan_id: InconsistentIntegerString,
    pub plan_db_version: InconsistentIntegerString,
    pub mindownload: InconsistentIntegerString,
    pub normdownload: InconsistentIntegerString,
    pub maxdownload: InconsistentIntegerString,
    pub maxdownloadpub: InconsistentIntegerString,
    pub minupload: InconsistentIntegerString,
    pub normupload: InconsistentIntegerString,
    pub maxupload: InconsistentIntegerString,
    pub product_highlighted: InconsistentIntegerString,
}

/// `s` without trailing `/` characters.
pub open spec fn trim_trailing_slashes(s: Seq<char>) -> Seq<char>
    decreases s.len(),
{
    if s.len() > 0 && s.last() == '/' {
        trim_trailing_slashes(s.drop_last())
    } else {
        s
    }
}

proof fn lemma_trim_trailing_slashes_cut(s: Seq<char>, k: int)
    requires
        0 <= k <= s.len(),
        forall|j: int| k <= j < s.len() ==> #[trigger] s[j] == '/',
    ensures
        trim_trailing_slashes(s) == trim_trailing_slashes(s.subrange(0, k)),
    decreases s.len() - k,
{
    if k < s.len() {
        lemma_trim_trailing_slashes_cut(s.drop_last(), k);
        assert(s.drop_last().subrange(0, k) =~= s.subrange(0, k));
    } else {
        assert(s.subrange(0, k) =~= s);
    }
}

/// A base URL without its trailing slashes, so that paths can be appended.
pub fn normalize_base_url(base_url: &str) -> (r: String)
    ensures
        r@ == trim_trailing_slashes(base_url@),
{
    let cs = chars_of(base_url);
    let mut k: usize = cs.len();
    while k > 0 && cs[k - 1] == '/'
        invariant
            k <= cs.len(),
            cs@ == base_url@,
            forall|j: int| k <= j < cs.len() ==> #[trigger] cs@[j] == '/',
        decreases k,
    {
        k = k - 1;
    }
    proof {
        lemma_trim_trailing_slashes_cut(cs@, k as int);
        let cut = cs@.subrange(0, k as int);
        if k > 0 {
            assert(cut.last() == cs@[k - 1]);
        }
        assert(trim_trailing_slashes(cut) == cut);
    }
    string_of(&sub_chars(&cs, 0, k))
}

/// The URL of `path` under `base_url`.
pub fn request_url(base_url: &str, path: &str) -> (r: String)
    ensures
        r@ == base_url@ + path@,
{
    let mut r = String::from_str(base_url);
    push_str(&mut r, path);
    r
}

/// `path` followed by a decimal identifier.
fn path_with_id(path: &str, id: i64) -> (r: String)
    ensures
        r@ == path@ + signed_decimal(id as int),
{
    let mut r = String::from_str(path);
    push_i64(&mut r, id);
    r
}

/// The endpoint listing all providers.
pub fn providers_path() -> (r: String)
    ensures
        r@ == "/api/provider"@,
{
    String::from_str("/api/provider")
}

/// The endpoint of one provider.
pub fn provider_path(id: i64) -> (r: String)
    ensures
        r@ == "/api/provider/"@ + signed_decimal(id as int),
{
    path_with_id("/api/provider/", id)
}

/// The endpoint listing a provider's plans.
pub fn plans_path(provider_id: i64) -> (r: String)
    ensures
        r@ == "/api/plans_desktop/"@ + signed_decimal(provider_id as int),
{
    path_with_id("/api/plans_desktop/", provider_id)
}

/// The endpoint listing all speeds.
pub fn speeds_path() -> (r: String)
    ensures
        r@ == "/api/speed"@,
{
    String::from_str("/api/speed")
}

/// The endpoint listing a provider's speeds.
pub fn provider_speeds_path(id: i64) -> (r: String)
    ensures
        r@ == "/api/speed/"@ + signed_decimal(id as int),
{
    path_with_id("/api/speed/", id)
}

/// The endpoint of the live statistics.
pub fn statistics_path() -> (r: String)
    ensures
        r@ == "/api/statistics"@,
{
    String::from_str("/api/statistics")
}

/// `needle` occurs in `hay` starting at `i`.
pub open spec fn occurs_at(hay: Seq<char>, needle: Seq<char>, i: int) -> bool {
    0 <= i && i + needle.len() <= hay.len() && hay.subrange(i, i + needle.len()) == needle
}

/// `needle` occurs somewhere in `hay`, as `str::contains` finds it.
pub open spec fn contains_text(hay: Seq<char>, needle: Seq<char>) -> bool {
    exists|i: int| occurs_at(hay, needle, i)
}

/// Whether `needle` occurs in `hay`.
pub fn contains(hay: &Vec<char>, needle: &Vec<char>) -> (r: bool)
    ensures
        r == contains_text(hay@, needle@),
{
    if needle.len() > hay.len() {
        assert(!contains_text(hay@, needle@));
        return false;
    }
    if needle.len() == 0 {
        assert(hay@.subrange(0, 0) =~= needle@);
        assert(occurs_at(hay@, needle@, 0));
        return true;
    }
    let last = hay.len() - needle.len();
    let mut i: usize = 0;
    while i < last + 1
        invariant
            last == hay.len() - needle.len(),
            1 <= needle.len() <= hay.len(),
            i <= last + 1,
            forall|k: int| 0 <= k < i ==> !occurs_at(hay@, needle@, k),
        decreases last + 1 - i,
    {
        let mut j: usize = 0;
        let mut same = true;
        while j < needle.len()
            invariant
                j <= needle.len(),
                i <= last,
                last == hay.len() - needle.len(),
                needle.len() <= hay.len(),
                same == (forall|m: int| 0 <= m < j ==> hay@[i + m] == needle@[m]),
            decreases needle.len() - j,
        {
            if hay[i + j] != needle[j] {
                same = false;
            }
            j = j + 1;
        }
        if same {
            assert(hay@.subrange(i as int, i + needle.len()) =~= needle@);
            assert(occurs_at(hay@, needle@, i as int));
            return true;
        }
        assert(!occurs_at(hay@, needle@, i as int)) by {
            if occurs_at(hay@, needle@, i as int) {
                assert forall|m: int| 0 <= m < needle.len() implies hay@[i + m] == needle@[m] by {
                    assert(hay@.subrange(i as int, i + needle.len())[m] == hay@[i + m]);
                }
            }
        }
        i = i + 1;
    }
    assert(!contains_text(hay@, needle@)) by {
        if contains_text(hay@, needle@) {
            let k = choose|k: int| occurs_at(hay@, needle@, k);
            assert(k <= last);
        }
    }
    false
}

/// What the client makes of a response before decoding it.
#[derive(Debug, Clone, Copy, PartialEq, Eq)]
pub enum ResponseCheck {
    /// The status is not a success.
    NotSuccess,
    /// The body is not declared as JSON.
    NotJson,
    /// A JSON body, to be decoded.
    Json,
}

/// The check for a response with this status and `Content-Type`.
pub open spec fn spec_check_response(status: u16, content_type: Seq<char>) -> ResponseCheck {
    if !(200 <= status <= 299) {
        ResponseCheck::NotSuccess
    } else if !contains_text(content_type, "application/json"@) {
        ResponseCheck::NotJson
    } else {
        ResponseCheck::Json
    }
}

/// Checks a response: a success status, and a `Content-Type` that contains
/// `application/json`. Many of the API's endpoints answer with an HTML page
/// and status 200; such a body must not reach the JSON decoder.
pub fn check_response(status: u16, content_type: &str) -> (r: ResponseCheck)
    ensures
        r == spec_check_response(status, content_type@),
{
    if !(200 <= status && status <= 299) {
        return ResponseCheck::NotSuccess;
    }
    let ct = chars_of(content_type);
    let json = chars_of("application/json");
    if !contains(&ct, &json) {
        ResponseCheck::NotJson
    } else {
        ResponseCheck::Json
    }
}

/// The first 200 characters of a body (characters, not bytes: a cut by
/// bytes could split a character).
pub open spec fn spec_preview(body: Seq<char>) -> Seq<char> {
    if body.len() <= 200 {
        body
    } else {
        body.take(200)
    }
}

/// The message for a body that is not JSON.
pub open spec fn spec_non_json_message(path: Seq<char>, content_type: Seq<char>, body: Seq<char>) -> Seq<char> {
    path + " returned non-JSON response (Content-Type: "@ + content_type + "): "@ + spec_preview(body)
}

/// The message for a body that is not JSON: the path, the declared
/// `Content-Type`, and the body's first 200 characters.
pub fn non_json_message(path: &str, content_type: &str, body: &str) -> (r: String)
    ensures
        r@ == spec_non_json_message(path@, content_type@, body@),
{
    let cs = chars_of(body);
    let n = if cs.len() <= PREVIEW_CHARS { cs.len() } else { PREVIEW_CHARS };
    let preview = sub_chars(&cs, 0, n);
    let mut r = String::from_str(path);
    push_str(&mut r, " returned non-JSON response (Content-Type: ");
    push_str(&mut r, content_type);
    push_str(&mut r, "): ");
    crate::text::push_seq(&mut r, &preview);
    proof {
        if cs.len() <= 200 {
            assert(preview@ =~= body@);
        } else {
            assert(preview@ =~= body@.take(200));
        }
    }
    r
}

} // verus!
